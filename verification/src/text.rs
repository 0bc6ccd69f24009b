//! Joining strings with a separator, the one text operation that both the
//! annotation values and the record sink need.

use vstd::prelude::*;
use vstd::string::*;

verus! {

/// `parts` written one after the other with `sep` between neighbours.
pub open spec fn spec_join(parts: Seq<Seq<char>>, sep: Seq<char>) -> Seq<char>
    decreases parts.len(),
{
    if parts.len() == 0 {
        Seq::empty()
    } else if parts.len() == 1 {
        parts[0]
    } else {
        spec_join(parts.drop_last(), sep) + sep + parts.last()
    }
}

/// Joins `parts` with `sep` between neighbours; no part is escaped.
pub fn join(parts: &Vec<String>, sep: &str) -> (joined: String)
    ensures
        joined@ == spec_join(parts.deep_view(), sep@),
{
    let mut joined: String = String::new();
    let mut i: usize = 0;
    while i < parts.len()
        invariant
            i <= parts.len(),
            joined@ == spec_join(parts.deep_view().take(i as int), sep@),
        decreases parts.len() - i,
    {
        if i > 0 {
            joined.append(sep);
        }
        joined.append(parts[i].as_str());
        proof {
            let all = parts.deep_view();
            assert(all.take(i + 1).drop_last() =~= all.take(i as int));
            assert(all.take(i + 1).last() == parts[i as int]@);
            if i == 0 {
                assert(Seq::<char>::empty() + parts[i as int]@ =~= parts[i as int]@);
            }
        }
        i = i + 1;
    }
    proof {
        assert(parts.deep_view().take(i as int) =~= parts.deep_view());
    }
    joined
}

/// Joining no parts gives the empty string, and joining one part gives that
/// part with no separator.
pub proof fn lemma_join_small(part: Seq<char>, sep: Seq<char>)
    ensures
        spec_join(Seq::empty(), sep) == Seq::<char>::empty(),
        spec_join(seq![part], sep) == part,
{
}

/// Copies a row field by field.
pub fn clone_row(row: &Vec<String>) -> (copy: Vec<String>)
    ensures
        copy.deep_view() == row.deep_view(),
{
    let mut copy: Vec<String> = Vec::new();
    let mut i: usize = 0;
    while i < row.len()
        invariant
            i <= row.len(),
            copy@.len() == i,
            copy.deep_view() == row.deep_view().take(i as int),
        decreases row.len() - i,
    {
        let ghost before = copy.deep_view();
        copy.push(row[i].clone());
        proof {
            assert forall|j: int| 0 <= j < i + 1 implies copy.deep_view()[j] == row.deep_view()[j] by {
                if j < i {
                    assert(copy@[j].deep_view() == before[j]);
                }
            }
            assert(copy.deep_view() =~= row.deep_view().take(i + 1));
        }
        i = i + 1;
    }
    proof {
        assert(row.deep_view().take(i as int) =~= row.deep_view());
    }
    copy
}

/// Copies a list of rows field by field.
pub fn clone_rows(rows: &Vec<Vec<String>>) -> (copy: Vec<Vec<String>>)
    ensures
        copy.deep_view() == rows.deep_view(),
{
    let mut copy: Vec<Vec<String>> = Vec::new();
    let mut i: usize = 0;
    while i < rows.len()
        invariant
            i <= rows.len(),
            copy@.len() == i,
            copy.deep_view() == rows.deep_view().take(i as int),
        decreases rows.len() - i,
    {
        let ghost before = copy.deep_view();
        copy.push(clone_row(&rows[i]));
        proof {
            assert forall|j: int| 0 <= j < i + 1 implies copy.deep_view()[j] == rows.deep_view()[j] by {
                if j < i {
                    assert(copy@[j].deep_view() == before[j]);
                }
            }
            assert(copy.deep_view() =~= rows.deep_view().take(i + 1));
        }
        i = i + 1;
    }
    proof {
        assert(rows.deep_view().take(i as int) =~= rows.deep_view());
    }
    copy
}

} // verus!
