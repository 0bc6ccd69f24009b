//! How a well-formed constant pool is laid out in bytes, and the proof that
//! the walk reads back exactly what was laid out.

use vstd::prelude::*;
use crate::constant_pool::{
    spec_end, spec_entry_at, spec_fixed_width, spec_kind_of_tag, spec_utf8_text, spec_walk,
    ConstantKind,
    ConstantPoolEntry, MalformedConstantPool,
};

verus! {

/// An entry to be laid out: its kind and its payload. For a UTF8 entry the
/// payload is the text alone; the length in front of it is written from it.
pub struct PoolItem {
    pub kind: ConstantKind,
    pub data: Seq<u8>,
}

/// The tag byte that stands for a kind.
pub open spec fn spec_tag(kind: ConstantKind) -> u8 {
    match kind {
        ConstantKind::Utf8 => 1,
        ConstantKind::Integer => 3,
        ConstantKind::Float => 4,
        ConstantKind::Long => 5,
        ConstantKind::Double => 6,
        ConstantKind::Class => 7,
        ConstantKind::StringRef => 8,
        ConstantKind::FieldRef => 9,
        ConstantKind::MethodRef => 10,
        ConstantKind::InterfaceMethodRef => 11,
        ConstantKind::NameAndType => 12,
        ConstantKind::MethodHandle => 15,
        ConstantKind::MethodType => 16,
        ConstantKind::InvokeDynamic => 18,
        ConstantKind::Module => 19,
        ConstantKind::Package => 20,
    }
}

/// Whether the payload of an item has the size that its kind asks for: the
/// fixed width, or for UTF8 a text whose length fits in two bytes.
pub open spec fn spec_item_ok(item: PoolItem) -> bool {
    match spec_fixed_width(item.kind) {
        Some(width) => item.data.len() == width,
        None => item.data.len() <= 65535,
    }
}

/// How many bytes an item takes after its tag.
pub open spec fn spec_item_width(item: PoolItem) -> int {
    match spec_fixed_width(item.kind) {
        Some(width) => width as int,
        None => 2 + item.data.len() as int,
    }
}

/// The bytes of one item: the tag, for UTF8 the length of the text with the
/// high byte first, then the payload.
pub open spec fn spec_encode_item(item: PoolItem) -> Seq<u8> {
    match spec_fixed_width(item.kind) {
        Some(_) => seq![spec_tag(item.kind)] + item.data,
        None => seq![
            spec_tag(item.kind),
            (item.data.len() / 256) as u8,
            (item.data.len() % 256) as u8,
        ] + item.data,
    }
}

/// The bytes of a pool: its items one after the other.
pub open spec fn spec_encode(items: Seq<PoolItem>) -> Seq<u8>
    decreases items.len(),
{
    if items.len() == 0 {
        Seq::empty()
    } else {
        spec_encode_item(items[0]) + spec_encode(items.drop_first())
    }
}

/// The entries that a walk is to find for `items` laid out from `offset` on.
pub open spec fn spec_layout(items: Seq<PoolItem>, offset: int) -> Seq<ConstantPoolEntry>
    decreases items.len(),
{
    if items.len() == 0 {
        Seq::empty()
    } else {
        seq![
            ConstantPoolEntry {
                kind: items[0].kind,
                offset: offset as usize,
                width: spec_item_width(items[0]) as usize,
            },
        ] + spec_layout(items.drop_first(), offset + 1 + spec_item_width(items[0]))
    }
}

/// Every kind is the kind of its own tag.
pub proof fn lemma_tag_round_trip(kind: ConstantKind)
    ensures
        spec_kind_of_tag(spec_tag(kind)) == Some(kind),
{
}

/// A layout has one entry for each item, of the item's kind, and ends where
/// the items' bytes end.
pub proof fn lemma_layout_shape(items: Seq<PoolItem>, offset: int)
    requires
        0 <= offset,
        offset + spec_encode(items).len() <= usize::MAX,
        forall|i: int| 0 <= i < items.len() ==> spec_item_ok(#[trigger] items[i]),
    ensures
        spec_layout(items, offset).len() == items.len(),
        forall|i: int|
            0 <= i < items.len() ==> (#[trigger] spec_layout(items, offset)[i]).kind == items[i].kind,
        items.len() > 0 ==> spec_end(spec_layout(items, offset)) == offset + spec_encode(items).len(),
        items.len() == 0 <==> spec_encode(items).len() == 0,
    decreases items.len(),
{
    if items.len() > 0 {
        let rest = items.drop_first();
        let next = offset + 1 + spec_item_width(items[0]);
        assert(spec_item_ok(items[0]));
        assert(spec_encode_item(items[0]).len() == 1 + spec_item_width(items[0]));
        assert forall|i: int| 0 <= i < rest.len() implies spec_item_ok(#[trigger] rest[i]) by {
            assert(rest[i] == items[i + 1]);
        }
        lemma_layout_shape(rest, next);
        let all = spec_layout(items, offset);
        let tail = spec_layout(rest, next);
        assert forall|i: int| 0 <= i < items.len() implies (#[trigger] all[i]).kind
            == items[i].kind by {
            if i > 0 {
                assert(all[i] == tail[i - 1]);
                assert(rest[i - 1] == items[i]);
            }
        }
        if rest.len() > 0 {
            assert(all.last() == tail.last());
        }
    }
}

/// A pool laid out from well-formed items is walked without a fault, and the
/// walk finds one entry for each item, in order, each of its item's kind and
/// width, and consumes the buffer exactly. This holds wherever in a buffer
/// the items begin: `before` stands for the bytes in front of them.
pub proof fn lemma_walk_reads_layout(before: Seq<u8>, items: Seq<PoolItem>)
    requires
        before.len() + spec_encode(items).len() <= usize::MAX,
        forall|i: int| 0 <= i < items.len() ==> spec_item_ok(#[trigger] items[i]),
    ensures
        spec_walk(before + spec_encode(items), before.len() as int) == Ok::<
            Seq<ConstantPoolEntry>,
            MalformedConstantPool,
        >(spec_layout(items, before.len() as int)),
    decreases items.len(),
{
    let bytes = before + spec_encode(items);
    let offset = before.len() as int;
    if items.len() > 0 {
        let item = items[0];
        let rest = items.drop_first();
        let width = spec_item_width(item);
        let next = offset + 1 + width;
        let head = spec_encode_item(item);
        assert(spec_item_ok(item));
        assert(head.len() == 1 + width);
        assert(bytes[offset] == head[0]);
        lemma_tag_round_trip(item.kind);
        if spec_fixed_width(item.kind).is_none() {
            let n = item.data.len();
            assert(bytes[offset + 1] == head[1]);
            assert(bytes[offset + 2] == head[2]);
            assert(head[1] == n / 256 && head[2] == n % 256);
            assert((n / 256) * 256 + n % 256 == n);
        }
        let entry = ConstantPoolEntry { kind: item.kind, offset: offset as usize, width: width as usize };
        assert(spec_entry_at(bytes, offset) == Ok::<ConstantPoolEntry, MalformedConstantPool>(entry));
        assert forall|i: int| 0 <= i < rest.len() implies spec_item_ok(#[trigger] rest[i]) by {
            assert(rest[i] == items[i + 1]);
        }
        assert(bytes =~= (before + head) + spec_encode(rest));
        lemma_layout_shape(rest, next);
        if rest.len() > 0 {
            lemma_walk_reads_layout(before + head, rest);
        } else {
            assert(spec_layout(rest, next) =~= Seq::<ConstantPoolEntry>::empty());
            assert(seq![entry] + spec_layout(rest, next) =~= seq![entry]);
        }
    }
}

/// A buffer that holds nothing but well-formed items is walked from its
/// first byte without a fault; the walk finds the items, in order, and ends
/// exactly at the end of the buffer.
pub proof fn lemma_round_trip(items: Seq<PoolItem>)
    requires
        spec_encode(items).len() <= usize::MAX,
        forall|i: int| 0 <= i < items.len() ==> spec_item_ok(#[trigger] items[i]),
    ensures
        spec_walk(spec_encode(items), 0) == Ok::<Seq<ConstantPoolEntry>, MalformedConstantPool>(
            spec_layout(items, 0),
        ),
        spec_layout(items, 0).len() == items.len(),
        forall|i: int|
            0 <= i < items.len() ==> (#[trigger] spec_layout(items, 0)[i]).kind == items[i].kind,
        spec_end(spec_layout(items, 0)) == spec_encode(items).len(),
{
    lemma_walk_reads_layout(Seq::empty(), items);
    assert(Seq::<u8>::empty() + spec_encode(items) =~= spec_encode(items));
    lemma_layout_shape(items, 0);
}

/// The text of a UTF8 item can be read back from the buffer through the
/// entry that the walk finds for it.
pub proof fn lemma_layout_keeps_text(before: Seq<u8>, items: Seq<PoolItem>, i: int)
    requires
        before.len() + spec_encode(items).len() <= usize::MAX,
        forall|k: int| 0 <= k < items.len() ==> spec_item_ok(#[trigger] items[k]),
        0 <= i < items.len(),
        items[i].kind == ConstantKind::Utf8,
    ensures
        spec_utf8_text(before + spec_encode(items), spec_layout(items, before.len() as int)[i])
            == Some(items[i].data),
    decreases items.len(),
{
    let bytes = before + spec_encode(items);
    let offset = before.len() as int;
    let item = items[0];
    let rest = items.drop_first();
    let head = spec_encode_item(item);
    let next = offset + 1 + spec_item_width(item);
    assert(spec_item_ok(item));
    assert(head.len() == 1 + spec_item_width(item));
    assert(bytes =~= (before + head) + spec_encode(rest));
    lemma_layout_shape(items, offset);
    if i == 0 {
        let entry = spec_layout(items, offset)[0];
        assert(entry.offset == offset && entry.width == 2 + item.data.len());
        assert(bytes.subrange(offset + 3, offset + 1 + entry.width) =~= item.data) by {
            assert forall|k: int| 0 <= k < item.data.len() implies bytes[offset + 3 + k]
                == item.data[k] by {
                assert(bytes[offset + 3 + k] == head[3 + k]);
            }
        }
    } else {
        assert forall|k: int| 0 <= k < rest.len() implies spec_item_ok(#[trigger] rest[k]) by {
            assert(rest[k] == items[k + 1]);
        }
        assert(rest[i - 1] == items[i]);
        lemma_layout_keeps_text(before + head, rest, i - 1);
        assert(spec_layout(items, offset)[i] == spec_layout(rest, next)[i - 1]);
    }
}

} // verus!
