//! Structural walk over the raw bytes of a class's constant pool.
//!
//! The pool is a flat run of entries, each a one-byte tag followed by a
//! payload whose width the tag decides. A UTF8 entry carries a two-byte
//! big-endian length in front of its text, so no entry can be found without
//! walking the buffer from its first byte.

use vstd::prelude::*;

verus! {

/// The kinds of constant pool entry that the walk knows.
#[derive(Clone, Copy, Debug, PartialEq, Eq, Structural)]
pub enum ConstantKind {
    Utf8,
    Integer,
    Float,
    Long,
    Double,
    Class,
    StringRef,
    FieldRef,
    MethodRef,
    InterfaceMethodRef,
    NameAndType,
    MethodHandle,
    MethodType,
    InvokeDynamic,
    Module,
    Package,
}

/// One entry as the walk met it.
#[derive(Clone, Copy, Debug, PartialEq, Eq, Structural)]
pub struct ConstantPoolEntry {
    /// What the tag byte says the entry is.
    pub kind: ConstantKind,
    /// Where the tag byte stands in the buffer.
    pub offset: usize,
    /// How many bytes the entry claims after its tag. For a UTF8 entry this
    /// counts the two length bytes and the text.
    pub width: usize,
}

/// Why a buffer is no constant pool.
#[derive(Clone, Copy, Debug, PartialEq, Eq, Structural)]
pub enum MalformedConstantPool {
    /// The tag byte at `offset` names no known kind.
    UnknownTag { offset: usize, tag: u8 },
    /// The UTF8 entry whose tag stands at `offset` has fewer than two bytes
    /// left for its length.
    TruncatedLength { offset: usize },
}

/// What a walk that keeps no entries reports.
#[derive(Clone, Copy, Debug, PartialEq, Eq, Structural)]
pub struct PoolSummary {
    /// How many entries the buffer holds.
    pub entries: usize,
    /// By how many bytes the last entry's claimed payload runs past the end
    /// of the buffer; zero when the entries fill the buffer exactly.
    pub overrun: usize,
}

/// The kind that a tag byte stands for, if any.
pub open spec fn spec_kind_of_tag(tag: u8) -> Option<ConstantKind> {
    if tag == 1 {
        Some(ConstantKind::Utf8)
    } else if tag == 3 {
        Some(ConstantKind::Integer)
    } else if tag == 4 {
        Some(ConstantKind::Float)
    } else if tag == 5 {
        Some(ConstantKind::Long)
    } else if tag == 6 {
        Some(ConstantKind::Double)
    } else if tag == 7 {
        Some(ConstantKind::Class)
    } else if tag == 8 {
        Some(ConstantKind::StringRef)
    } else if tag == 9 {
        Some(ConstantKind::FieldRef)
    } else if tag == 10 {
        Some(ConstantKind::MethodRef)
    } else if tag == 11 {
        Some(ConstantKind::InterfaceMethodRef)
    } else if tag == 12 {
        Some(ConstantKind::NameAndType)
    } else if tag == 15 {
        Some(ConstantKind::MethodHandle)
    } else if tag == 16 {
        Some(ConstantKind::MethodType)
    } else if tag == 18 {
        Some(ConstantKind::InvokeDynamic)
    } else if tag == 19 {
        Some(ConstantKind::Module)
    } else if tag == 20 {
        Some(ConstantKind::Package)
    } else {
        None
    }
}

/// The payload width of every kind but UTF8, whose width its length prefix
/// gives.
pub open spec fn spec_fixed_width(kind: ConstantKind) -> Option<nat> {
    match kind {
        ConstantKind::Utf8 => None,
        ConstantKind::Class
        | ConstantKind::StringRef
        | ConstantKind::MethodType
        | ConstantKind::Module
        | ConstantKind::Package => Some(2),
        ConstantKind::MethodHandle => Some(3),
        ConstantKind::Integer
        | ConstantKind::Float
        | ConstantKind::FieldRef
        | ConstantKind::MethodRef
        | ConstantKind::InterfaceMethodRef
        | ConstantKind::NameAndType
        | ConstantKind::InvokeDynamic => Some(4),
        ConstantKind::Long | ConstantKind::Double => Some(8),
    }
}

/// The entry whose tag stands at `offset`, or the reason there is none.
/// Meant for `0 <= offset < bytes.len()`.
pub open spec fn spec_entry_at(bytes: Seq<u8>, offset: int) -> Result<
    ConstantPoolEntry,
    MalformedConstantPool,
> {
    match spec_kind_of_tag(bytes[offset]) {
        None => Err(MalformedConstantPool::UnknownTag { offset: offset as usize, tag: bytes[offset] }),
        Some(kind) => match spec_fixed_width(kind) {
            Some(width) => Ok(ConstantPoolEntry { kind, offset: offset as usize, width: width as usize }),
            None => if offset + 3 > bytes.len() {
                Err(MalformedConstantPool::TruncatedLength { offset: offset as usize })
            } else {
                Ok(
                    ConstantPoolEntry {
                        kind,
                        offset: offset as usize,
                        width: (2 + bytes[offset + 1] * 256 + bytes[offset + 2]) as usize,
                    },
                )
            },
        },
    }
}

/// The entries met from `offset` on, in order, or the first fault. The walk
/// ends as soon as the offset has reached the end of the buffer; a last entry
/// that claims more bytes than are left ends it too.
pub open spec fn spec_walk(bytes: Seq<u8>, offset: int) -> Result<
    Seq<ConstantPoolEntry>,
    MalformedConstantPool,
>
    decreases bytes.len() - offset,
{
    if offset < 0 || offset >= bytes.len() {
        Ok(Seq::empty())
    } else {
        match spec_entry_at(bytes, offset) {
            Err(e) => Err(e),
            Ok(entry) => if offset + 1 + entry.width >= bytes.len() {
                Ok(seq![entry])
            } else {
                match spec_walk(bytes, offset + 1 + entry.width) {
                    Err(e) => Err(e),
                    Ok(rest) => Ok(seq![entry] + rest),
                }
            },
        }
    }
}

/// What a walk amounts to when `seen` was met before `rest`.
pub open spec fn spec_after(
    seen: Seq<ConstantPoolEntry>,
    rest: Result<Seq<ConstantPoolEntry>, MalformedConstantPool>,
) -> Result<Seq<ConstantPoolEntry>, MalformedConstantPool> {
    match rest {
        Ok(tail) => Ok(seen + tail),
        Err(e) => Err(e),
    }
}

/// Where a walk over `entries` stops: just behind the last entry's claimed
/// payload, or at zero when there is no entry.
pub open spec fn spec_end(entries: Seq<ConstantPoolEntry>) -> int {
    if entries.len() == 0 {
        0
    } else {
        entries.last().offset + 1 + entries.last().width
    }
}

/// The kind that a tag byte stands for.
pub fn kind_of_tag(tag: u8) -> (kind: Option<ConstantKind>)
    ensures
        kind == spec_kind_of_tag(tag),
{
    match tag {
        1 => Some(ConstantKind::Utf8),
        3 => Some(ConstantKind::Integer),
        4 => Some(ConstantKind::Float),
        5 => Some(ConstantKind::Long),
        6 => Some(ConstantKind::Double),
        7 => Some(ConstantKind::Class),
        8 => Some(ConstantKind::StringRef),
        9 => Some(ConstantKind::FieldRef),
        10 => Some(ConstantKind::MethodRef),
        11 => Some(ConstantKind::InterfaceMethodRef),
        12 => Some(ConstantKind::NameAndType),
        15 => Some(ConstantKind::MethodHandle),
        16 => Some(ConstantKind::MethodType),
        18 => Some(ConstantKind::InvokeDynamic),
        19 => Some(ConstantKind::Module),
        20 => Some(ConstantKind::Package),
        _ => None,
    }
}

/// The payload width of a kind, `None` for UTF8.
pub fn fixed_width(kind: ConstantKind) -> (width: Option<usize>)
    ensures
        match width {
            Some(w) => spec_fixed_width(kind) == Some(w as nat),
            None => spec_fixed_width(kind).is_none(),
        },
{
    match kind {
        ConstantKind::Utf8 => None,
        ConstantKind::Class
        | ConstantKind::StringRef
        | ConstantKind::MethodType
        | ConstantKind::Module
        | ConstantKind::Package => Some(2),
        ConstantKind::MethodHandle => Some(3),
        ConstantKind::Integer
        | ConstantKind::Float
        | ConstantKind::FieldRef
        | ConstantKind::MethodRef
        | ConstantKind::InterfaceMethodRef
        | ConstantKind::NameAndType
        | ConstantKind::InvokeDynamic => Some(4),
        ConstantKind::Long | ConstantKind::Double => Some(8),
    }
}

/// Decodes the entry whose tag stands at `offset`. Only the tag and, for a
/// UTF8 entry, the two length bytes are read.
fn entry_at(buf: &[u8], offset: usize) -> (res: Result<ConstantPoolEntry, MalformedConstantPool>)
    requires
        offset < buf@.len(),
    ensures
        res == spec_entry_at(buf@, offset as int),
        res matches Ok(entry) ==> entry.offset == offset && 2 <= entry.width <= 65537,
{
    let tag: u8 = buf[offset];
    match kind_of_tag(tag) {
        None => Err(MalformedConstantPool::UnknownTag { offset, tag }),
        Some(kind) => match fixed_width(kind) {
            Some(width) => Ok(ConstantPoolEntry { kind, offset, width }),
            None => {
                if buf.len() - offset < 3 {
                    Err(MalformedConstantPool::TruncatedLength { offset })
                } else {
                    let high: usize = buf[offset + 1] as usize;
                    let low: usize = buf[offset + 2] as usize;
                    Ok(ConstantPoolEntry { kind, offset, width: 2 + high * 256 + low })
                }
            },
        },
    }
}

/// Walks the whole buffer and returns its entries in order.
///
/// The walk fails on the first tag that names no kind and on the first UTF8
/// entry with fewer than two bytes left for its length; nothing else fails
/// it. Payload bytes are skipped unread, so a last entry may claim more bytes
/// than the buffer holds: `spec_end` of the result then lies behind the end
/// of the buffer.
pub fn parse_constant_pool(buf: &[u8]) -> (res: Result<Vec<ConstantPoolEntry>, MalformedConstantPool>)
    ensures
        match res {
            Ok(entries) => spec_walk(buf@, 0) == Ok::<Seq<ConstantPoolEntry>, MalformedConstantPool>(entries@),
            Err(e) => spec_walk(buf@, 0) == Err::<Seq<ConstantPoolEntry>, MalformedConstantPool>(e),
        },
{
    let mut entries: Vec<ConstantPoolEntry> = Vec::new();
    let mut offset: usize = 0;
    while offset < buf.len()
        invariant
            offset <= buf@.len(),
            spec_walk(buf@, 0) == spec_after(entries@, spec_walk(buf@, offset as int)),
        decreases buf@.len() - offset,
    {
        match entry_at(buf, offset) {
            Err(e) => {
                return Err(e);
            },
            Ok(entry) => {
                let left: usize = buf.len() - offset - 1;
                proof {
                    assert((entries@.push(entry) + Seq::<ConstantPoolEntry>::empty()) =~= entries@ + seq![entry]);
                    if entry.width < left {
                        let rest = spec_walk(buf@, offset + 1 + entry.width);
                        if let Ok(tail) = rest {
                            assert(entries@.push(entry) + tail =~= entries@ + (seq![entry] + tail));
                        }
                    }
                }
                entries.push(entry);
                if entry.width >= left {
                    offset = buf.len();
                } else {
                    offset = offset + 1 + entry.width;
                }
            },
        }
    }
    proof {
        assert(entries@ + Seq::<ConstantPoolEntry>::empty() =~= entries@);
    }
    Ok(entries)
}

/// Walks the whole buffer as `parse_constant_pool` does, keeping only the
/// number of entries and the overrun of the last one.
pub fn check_constant_pool(buf: &[u8]) -> (res: Result<PoolSummary, MalformedConstantPool>)
    ensures
        match res {
            Ok(summary) => spec_walk(buf@, 0) matches Ok(entries) && summary.entries == entries.len()
                && summary.overrun == spec_end(entries) - buf@.len(),
            Err(e) => spec_walk(buf@, 0) == Err::<Seq<ConstantPoolEntry>, MalformedConstantPool>(e),
        },
{
    let ghost mut seen: Seq<ConstantPoolEntry> = Seq::empty();
    let mut count: usize = 0;
    let mut overrun: usize = 0;
    let mut offset: usize = 0;
    while offset < buf.len()
        invariant_except_break
            overrun == 0,
            spec_end(seen) == offset,
            spec_walk(buf@, 0) == spec_after(seen, spec_walk(buf@, offset as int)),
        invariant
            offset <= buf@.len(),
            count == seen.len(),
            count <= offset,
        ensures
            offset == buf@.len(),
            count == seen.len(),
            spec_end(seen) == buf@.len() + overrun,
            spec_walk(buf@, 0) == Ok::<Seq<ConstantPoolEntry>, MalformedConstantPool>(seen),
        decreases buf@.len() - offset,
    {
        match entry_at(buf, offset) {
            Err(e) => {
                return Err(e);
            },
            Ok(entry) => {
                let left: usize = buf.len() - offset - 1;
                proof {
                    assert((seen.push(entry) + Seq::<ConstantPoolEntry>::empty()) =~= seen + seq![entry]);
                    if entry.width < left {
                        let rest = spec_walk(buf@, offset + 1 + entry.width);
                        if let Ok(tail) = rest {
                            assert(seen.push(entry) + tail =~= seen + (seq![entry] + tail));
                        }
                    }
                    seen = seen.push(entry);
                }
                count = count + 1;
                if entry.width >= left {
                    overrun = entry.width - left;
                    offset = buf.len();
                    break;
                } else {
                    offset = offset + 1 + entry.width;
                }
            },
        }
    }
    proof {
        assert(seen + Seq::<ConstantPoolEntry>::empty() =~= seen);
    }
    Ok(PoolSummary { entries: count, overrun })
}

/// The text bytes of a UTF8 entry of `buf`, where the buffer holds all of
/// them; `None` for an entry of another kind and for one that claims more
/// bytes than the buffer has.
pub open spec fn spec_utf8_text(bytes: Seq<u8>, entry: ConstantPoolEntry) -> Option<Seq<u8>> {
    if entry.kind == ConstantKind::Utf8 && entry.width >= 2 && entry.offset + 1 + entry.width
        <= bytes.len() {
        Some(bytes.subrange(entry.offset + 3, entry.offset + 1 + entry.width))
    } else {
        None
    }
}

/// Copies the text bytes of a UTF8 entry out of the buffer it was found in.
pub fn utf8_text(buf: &[u8], entry: &ConstantPoolEntry) -> (text: Option<Vec<u8>>)
    ensures
        match text {
            Some(t) => spec_utf8_text(buf@, *entry) == Some(t@),
            None => spec_utf8_text(buf@, *entry).is_none(),
        },
{
    if entry.kind != ConstantKind::Utf8 || entry.width < 2 || entry.offset >= buf.len() || entry.width
        > buf.len() - entry.offset - 1 {
        return None;
    }
    let start: usize = entry.offset + 3;
    let end: usize = entry.offset + 1 + entry.width;
    let mut text: Vec<u8> = Vec::new();
    let mut i: usize = start;
    while i < end
        invariant
            start <= i <= end,
            end <= buf@.len(),
            text@ == buf@.subrange(start as int, i as int),
        decreases end - i,
    {
        text.push(buf[i]);
        proof {
            assert(text@ =~= buf@.subrange(start as int, i + 1));
        }
        i = i + 1;
    }
    Some(text)
}

/// For each entry, by its index in the pool, the text it holds; `None` where
/// `spec_utf8_text` gives none.
pub open spec fn spec_texts(bytes: Seq<u8>, entries: Seq<ConstantPoolEntry>) -> Seq<Option<Seq<u8>>> {
    Seq::new(entries.len(), |i: int| spec_utf8_text(bytes, entries[i]))
}

/// Walks the whole buffer and returns, for each entry by its index, the text
/// of a UTF8 entry and `None` for any other. It fails where
/// `parse_constant_pool` fails.
pub fn utf8_texts(buf: &[u8]) -> (res: Result<Vec<Option<Vec<u8>>>, MalformedConstantPool>)
    ensures
        match res {
            Ok(texts) => spec_walk(buf@, 0) matches Ok(entries) && texts.deep_view() == spec_texts(
                buf@,
                entries,
            ),
            Err(e) => spec_walk(buf@, 0) == Err::<Seq<ConstantPoolEntry>, MalformedConstantPool>(e),
        },
{
    let entries = parse_constant_pool(buf)?;
    let mut texts: Vec<Option<Vec<u8>>> = Vec::new();
    let mut i: usize = 0;
    while i < entries.len()
        invariant
            i <= entries.len(),
            texts@.len() == i,
            texts.deep_view() == spec_texts(buf@, entries@.take(i as int)),
        decreases entries.len() - i,
    {
        let ghost before = texts.deep_view();
        let text = utf8_text(buf, &entries[i]);
        texts.push(text);
        proof {
            let target = spec_texts(buf@, entries@.take(i + 1));
            assert forall|j: int| 0 <= j < i + 1 implies texts.deep_view()[j] == target[j] by {
                if j < i {
                    assert(texts@[j].deep_view() == before[j]);
                    assert(entries@.take(i + 1)[j] == entries@.take(i as int)[j]);
                } else {
                    assert(texts@[j] == text);
                    match text {
                        Some(t) => {
                            assert(t.deep_view() =~= t@);
                        },
                        None => {},
                    }
                }
            }
            assert(texts.deep_view() =~= target);
        }
        i = i + 1;
    }
    proof {
        assert(entries@.take(i as int) =~= entries@);
    }
    Ok(texts)
}

/// Whether the entry at index `i` ends where the next one begins.
pub open spec fn spec_adjacent(entries: Seq<ConstantPoolEntry>, i: int) -> bool {
    entries[i].offset + 1 + entries[i].width == entries[i + 1].offset
}

/// Whether `entries[i]` is what the buffer holds at the offset it reports.
pub open spec fn spec_decoded(bytes: Seq<u8>, entries: Seq<ConstantPoolEntry>, i: int) -> bool {
    0 <= entries[i].offset < bytes.len() && spec_entry_at(bytes, entries[i].offset as int) == Ok::<
        ConstantPoolEntry,
        MalformedConstantPool,
    >(entries[i])
}

/// Whether `entries` lie end to end over `bytes` from `offset` on: each is
/// what the buffer holds at the offset it reports, the first stands at
/// `offset`, each begins where the one before it ends, and the last ends at
/// or behind the end of the buffer.
pub open spec fn spec_covers(bytes: Seq<u8>, offset: int, entries: Seq<ConstantPoolEntry>) -> bool {
    &&& entries.len() == 0 <==> offset >= bytes.len()
    &&& entries.len() > 0 ==> entries[0].offset == offset && spec_end(entries) >= bytes.len()
    &&& forall|i: int| 0 <= i < entries.len() ==> #[trigger] spec_decoded(bytes, entries, i)
    &&& forall|i: int| 0 <= i < entries.len() - 1 ==> #[trigger] spec_adjacent(entries, i)
}

/// A walk that succeeds lays its entries end to end over the buffer.
pub proof fn lemma_walk_covers(bytes: Seq<u8>, offset: int)
    requires
        0 <= offset,
        bytes.len() <= usize::MAX,
        spec_walk(bytes, offset).is_ok(),
    ensures
        spec_covers(bytes, offset, spec_walk(bytes, offset).unwrap()),
    decreases bytes.len() - offset,
{
    if offset < bytes.len() {
        let entry = spec_entry_at(bytes, offset).unwrap();
        let next = offset + 1 + entry.width;
        let entries = spec_walk(bytes, offset).unwrap();
        if next < bytes.len() {
            lemma_walk_covers(bytes, next);
            let rest = spec_walk(bytes, next).unwrap();
            assert(entries =~= seq![entry] + rest);
            assert(entries.last() == rest.last());
            assert forall|i: int| 0 <= i < entries.len() implies #[trigger] spec_decoded(
                bytes,
                entries,
                i,
            ) by {
                if i > 0 {
                    assert(spec_decoded(bytes, rest, i - 1));
                    assert(entries[i] == rest[i - 1]);
                }
            }
            assert forall|i: int| 0 <= i < entries.len() - 1 implies #[trigger] spec_adjacent(
                entries,
                i,
            ) by {
                assert(entries[i + 1] == rest[i]);
                if i > 0 {
                    assert(spec_adjacent(rest, i - 1));
                    assert(entries[i] == rest[i - 1]);
                }
            }
        } else {
            assert(entries =~= seq![entry]);
        }
    }
}

} // verus!
