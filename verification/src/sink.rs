//! The lines that the record sink appends to its destination.
//!
//! The destination is a comma-separated text with one header line. Opening,
//! measuring and writing the destination is the caller's part; what is
//! written is decided here.

use vstd::prelude::*;
use vstd::string::*;
use crate::extractor::{property_name, spec_property_name, spec_row, AnnotationReplies, Property};
use crate::text::{join, spec_join};

verus! {

/// The header line, naming the nine columns.
pub open spec fn spec_header() -> Seq<char> {
    "method,class,sourceProjectId,isDirectDependency,id,artefact,group,version,childIds"@
}

/// The names of the nine columns: the method, the class, then the
/// annotation's properties in the order in which a row holds them.
pub open spec fn spec_columns() -> Seq<Seq<char>> {
    seq![
        "method"@,
        "class"@,
        spec_property_name(Property::SourceProjectId),
        spec_property_name(Property::IsDirectDependency),
        spec_property_name(Property::Id),
        spec_property_name(Property::Artefact),
        spec_property_name(Property::Group),
        spec_property_name(Property::Version),
        spec_property_name(Property::ChildIds),
    ]
}

/// One line for each row: its fields joined by commas.
pub open spec fn spec_data_lines(rows: Seq<Seq<Seq<char>>>) -> Seq<Seq<char>> {
    Seq::new(rows.len(), |i: int| spec_join(rows[i], ","@))
}

/// The lines of one append: the header if the destination was empty when it
/// was opened, then the data lines.
pub open spec fn spec_csv_lines(was_empty: bool, rows: Seq<Seq<Seq<char>>>) -> Seq<Seq<char>> {
    if was_empty {
        seq![spec_header()] + spec_data_lines(rows)
    } else {
        spec_data_lines(rows)
    }
}

/// The lines of a destination after one append of `rows` to `contents`.
pub open spec fn spec_append(contents: Seq<Seq<char>>, rows: Seq<Seq<Seq<char>>>) -> Seq<Seq<char>> {
    contents + spec_csv_lines(contents.len() == 0, rows)
}

/// The lines of a destination after one append for each batch, in order.
pub open spec fn spec_append_all(contents: Seq<Seq<char>>, batches: Seq<Seq<Seq<Seq<char>>>>) -> Seq<
    Seq<char>,
>
    decreases batches.len(),
{
    if batches.len() == 0 {
        contents
    } else {
        spec_append(spec_append_all(contents, batches.drop_last()), batches.last())
    }
}

/// The rows of all batches, in order.
pub open spec fn spec_all_rows(batches: Seq<Seq<Seq<Seq<char>>>>) -> Seq<Seq<Seq<char>>>
    decreases batches.len(),
{
    if batches.len() == 0 {
        Seq::empty()
    } else {
        spec_all_rows(batches.drop_last()) + batches.last()
    }
}

/// The header line.
pub fn header() -> (line: String)
    ensures
        line@ == spec_header(),
{
    String::from_str("method,class,sourceProjectId,isDirectDependency,id,artefact,group,version,childIds")
}

/// The names of the nine columns.
pub fn columns() -> (names: Vec<String>)
    ensures
        names.deep_view() == spec_columns(),
{
    let mut names: Vec<String> = Vec::new();
    names.push(String::from_str("method"));
    names.push(String::from_str("class"));
    names.push(property_name(Property::SourceProjectId));
    names.push(property_name(Property::IsDirectDependency));
    names.push(property_name(Property::Id));
    names.push(property_name(Property::Artefact));
    names.push(property_name(Property::Group));
    names.push(property_name(Property::Version));
    names.push(property_name(Property::ChildIds));
    proof {
        assert(names.deep_view() =~= spec_columns());
    }
    names
}

/// The lines to append for `data` to a destination that was, or was not,
/// empty when it was opened. Each line is written without its line end.
pub fn csv_lines(was_empty: bool, data: &Vec<Vec<String>>) -> (lines: Vec<String>)
    ensures
        lines.deep_view() == spec_csv_lines(was_empty, data.deep_view()),
{
    let mut lines: Vec<String> = Vec::new();
    if was_empty {
        lines.push(header());
    }
    let ghost head = lines.deep_view();
    let ghost head_len = lines@.len();
    let mut i: usize = 0;
    while i < data.len()
        invariant
            i <= data.len(),
            head.len() == head_len,
            lines@.len() == head_len + i,
            lines.deep_view() == head + spec_data_lines(data.deep_view().take(i as int)),
        decreases data.len() - i,
    {
        let ghost before = lines.deep_view();
        lines.push(join(&data[i], ","));
        proof {
            let all = data.deep_view();
            assert(all.take(i + 1)[i as int] == data[i as int].deep_view());
            let target = head + spec_data_lines(all.take(i + 1));
            assert(lines.deep_view().len() == target.len());
            assert forall|j: int| 0 <= j < head_len + i + 1 implies lines.deep_view()[j] == target[j] by {
                if j < head_len + i {
                    assert(lines@[j].deep_view() == before[j]);
                    if j >= head_len {
                        assert(before[j] == spec_data_lines(all.take(i as int))[j - head_len]);
                        assert(all.take(i + 1)[j - head_len] == all.take(i as int)[j - head_len]);
                        assert(target[j] == spec_data_lines(all.take(i + 1))[j - head_len]);
                    } else {
                        assert(before[j] == head[j]);
                    }
                } else {
                    assert(target[j] == spec_data_lines(all.take(i + 1))[i as int]);
                }
            }
            assert(lines.deep_view() =~= head + spec_data_lines(all.take(i + 1)));
        }
        i = i + 1;
    }
    proof {
        assert(data.deep_view().take(i as int) =~= data.deep_view());
    }
    lines
}

/// Appending to a destination never empties it, and an append to a
/// destination that holds lines adds data lines only.
pub proof fn lemma_append_grows(contents: Seq<Seq<char>>, rows: Seq<Seq<Seq<char>>>)
    ensures
        spec_append(contents, rows).len() == contents.len() + rows.len() + if contents.len() == 0 {
            1int
        } else {
            0int
        },
        spec_append(contents, rows).len() > 0,
        spec_append(contents, rows).take(contents.len() as int) == contents,
{
    assert(spec_append(contents, rows).take(contents.len() as int) =~= contents);
}

/// The data lines of two row lists, one after the other, are the data lines
/// of the two lists joined.
pub proof fn lemma_data_lines_concat(a: Seq<Seq<Seq<char>>>, b: Seq<Seq<Seq<char>>>)
    ensures
        spec_data_lines(a + b) == spec_data_lines(a) + spec_data_lines(b),
{
    assert(spec_data_lines(a + b) =~= spec_data_lines(a) + spec_data_lines(b));
}

/// However the records are split over append calls, a destination that
/// started empty holds the header once, in front, and then one line for each
/// record in the order written: as if all had been appended in one call.
pub proof fn lemma_header_once(batches: Seq<Seq<Seq<Seq<char>>>>)
    requires
        batches.len() > 0,
    ensures
        spec_append_all(Seq::empty(), batches) == seq![spec_header()] + spec_data_lines(
            spec_all_rows(batches),
        ),
        spec_append_all(Seq::empty(), batches).len() == 1 + spec_all_rows(batches).len(),
        spec_append_all(Seq::empty(), batches) == spec_append(Seq::empty(), spec_all_rows(batches)),
    decreases batches.len(),
{
    let empty = Seq::<Seq<char>>::empty();
    let before = batches.drop_last();
    let last = batches.last();
    if before.len() == 0 {
        assert(spec_append_all(empty, before) == empty);
        assert(spec_all_rows(before) =~= Seq::<Seq<Seq<char>>>::empty());
        assert(spec_all_rows(batches) =~= last);
        assert(empty + spec_csv_lines(true, last) =~= seq![spec_header()] + spec_data_lines(last));
    } else {
        lemma_header_once(before);
        lemma_data_lines_concat(spec_all_rows(before), last);
        let so_far = spec_append_all(empty, before);
        assert(so_far + spec_data_lines(last) =~= seq![spec_header()] + spec_data_lines(
            spec_all_rows(batches),
        ));
    }
    assert(empty + spec_csv_lines(true, spec_all_rows(batches)) =~= seq![spec_header()]
        + spec_data_lines(spec_all_rows(batches)));
}

/// The header is the column names joined as a data line is, and a row built
/// from an annotation has one field for each column.
pub proof fn lemma_header_matches_rows(method: Seq<char>, class_name: Seq<char>, replies: AnnotationReplies)
    ensures
        spec_header() == spec_join(spec_columns(), ","@),
        spec_row(method, class_name, replies).len() == spec_columns().len(),
        spec_columns().len() == 9,
{
    reveal_strlit("method,class,sourceProjectId,isDirectDependency,id,artefact,group,version,childIds");
    reveal_strlit("method");
    reveal_strlit("class");
    reveal_strlit("sourceProjectId");
    reveal_strlit("isDirectDependency");
    reveal_strlit("id");
    reveal_strlit("artefact");
    reveal_strlit("group");
    reveal_strlit("version");
    reveal_strlit("childIds");
    reveal_strlit(",");
    let c = spec_columns();
    let sep = ","@;
    assert(c.take(1) =~= seq![c[0]]);
    assert(c.take(2).drop_last() =~= c.take(1));
    assert(c.take(3).drop_last() =~= c.take(2));
    assert(c.take(4).drop_last() =~= c.take(3));
    assert(c.take(5).drop_last() =~= c.take(4));
    assert(c.take(6).drop_last() =~= c.take(5));
    assert(c.take(7).drop_last() =~= c.take(6));
    assert(c.take(8).drop_last() =~= c.take(7));
    assert(c.take(9).drop_last() =~= c.take(8));
    assert(c.take(9) =~= c);
    let j1 = spec_join(c.take(1), sep);
    let j2 = spec_join(c.take(2), sep);
    let j3 = spec_join(c.take(3), sep);
    let j4 = spec_join(c.take(4), sep);
    let j5 = spec_join(c.take(5), sep);
    let j6 = spec_join(c.take(6), sep);
    let j7 = spec_join(c.take(7), sep);
    let j8 = spec_join(c.take(8), sep);
    let j9 = spec_join(c.take(9), sep);
    assert(j1 =~= "method"@);
    assert(j2 =~= j1 + sep + c[1]);
    assert(j3 =~= j2 + sep + c[2]);
    assert(j4 =~= j3 + sep + c[3]);
    assert(j5 =~= j4 + sep + c[4]);
    assert(j6 =~= j5 + sep + c[5]);
    assert(j7 =~= j6 + sep + c[6]);
    assert(j8 =~= j7 + sep + c[7]);
    assert(j9 =~= j8 + sep + c[8]);
    assert(j9 =~= spec_header());
}

} // verus!
