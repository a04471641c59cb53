//! The catalog of statement files: which paths of a directory listing
//! belong to it, and the order in which it holds them.

use crate::source::{kind_of, parser_kind};
use crate::text::{chars_of, pieces_view, string_of, strings_view};
use vstd::prelude::*;

verus! {

/// `a` comes no later than `b` in the lexicographic order of code points.
pub open spec fn lex_le(a: Seq<char>, b: Seq<char>) -> bool
    decreases a.len(),
{
    if a.len() == 0 {
        true
    } else if b.len() == 0 {
        false
    } else if a[0] != b[0] {
        (a[0] as u32) < (b[0] as u32)
    } else {
        lex_le(a.drop_first(), b.drop_first())
    }
}

/// No path of `s` comes before one that precedes it.
pub open spec fn sorted_paths(s: Seq<Seq<char>>) -> bool {
    forall|i: int, j: int| 0 <= i < j < s.len() ==> lex_le(s[i], s[j])
}

/// A path belongs to the catalog when its extension names a format that is
/// read.
pub open spec fn is_bill_path(path: Seq<char>) -> bool {
    kind_of(path) is Ok
}

/// The paths of `listing` that belong to the catalog, in the order of the
/// listing.
pub open spec fn bill_paths(listing: Seq<Seq<char>>) -> Seq<Seq<char>>
    decreases listing.len(),
{
    if listing.len() == 0 {
        Seq::empty()
    } else if is_bill_path(listing.last()) {
        bill_paths(listing.drop_last()).push(listing.last())
    } else {
        bill_paths(listing.drop_last())
    }
}

/// Of any two texts one comes no later than the other.
pub proof fn lemma_lex_le_total(a: Seq<char>, b: Seq<char>)
    ensures
        lex_le(a, b) || lex_le(b, a),
    decreases a.len(),
{
    if a.len() > 0 && b.len() > 0 {
        if a[0] == b[0] {
            lemma_lex_le_total(a.drop_first(), b.drop_first());
        } else {
            assert(a[0] as u32 != b[0] as u32) by {
                vstd::utf8::char_u32_cast(a[0], a[0] as u32);
                vstd::utf8::char_u32_cast(b[0], b[0] as u32);
            }
        }
    }
}

/// The order is transitive.
pub proof fn lemma_lex_le_transitive(a: Seq<char>, b: Seq<char>, c: Seq<char>)
    requires
        lex_le(a, b),
        lex_le(b, c),
    ensures
        lex_le(a, c),
    decreases a.len(),
{
    if a.len() > 0 && b.len() > 0 && c.len() > 0 && a[0] == b[0] && b[0] == c[0] {
        lemma_lex_le_transitive(a.drop_first(), b.drop_first(), c.drop_first());
    }
}

/// Two texts that come no later than each other are the same text.
pub proof fn lemma_lex_le_antisymmetric(a: Seq<char>, b: Seq<char>)
    requires
        lex_le(a, b),
        lex_le(b, a),
    ensures
        a == b,
    decreases a.len(),
{
    if a.len() > 0 && b.len() > 0 {
        lemma_lex_le_antisymmetric(a.drop_first(), b.drop_first());
        assert(b =~= seq![b[0]] + b.drop_first());
    }
}

/// Whether `a` comes no later than `b`.
pub fn lex_le_chars(a: &Vec<char>, b: &Vec<char>) -> (le: bool)
    ensures
        le == lex_le(a@, b@),
{
    let mut i: usize = 0;
    assert(a@.skip(0) == a@);
    assert(b@.skip(0) == b@);
    while i < a.len() && i < b.len()
        invariant
            i <= a.len(),
            i <= b.len(),
            lex_le(a@, b@) == lex_le(a@.skip(i as int), b@.skip(i as int)),
        decreases a.len() - i,
    {
        let x = a[i];
        let y = b[i];
        proof {
            assert(a@.skip(i as int).drop_first() == a@.skip(i + 1));
            assert(b@.skip(i as int).drop_first() == b@.skip(i + 1));
        }
        if x != y {
            return (x as u32) < (y as u32);
        }
        i += 1;
    }
    i == a.len()
}

/// Puts `item` into the sorted `paths`, behind every path that comes no
/// later than it.
fn insert_sorted(paths: &mut Vec<Vec<char>>, item: Vec<char>)
    requires
        sorted_paths(pieces_view(old(paths)@)),
    ensures
        sorted_paths(pieces_view(final(paths)@)),
        pieces_view(final(paths)@).to_multiset() == pieces_view(old(paths)@).to_multiset().insert(
            item@,
        ),
{
    let ghost before = pieces_view(paths@);
    let mut p: usize = 0;
    while p < paths.len() && lex_le_chars(&paths[p], &item)
        invariant
            p <= paths.len(),
            before == pieces_view(paths@),
            forall|k: int| 0 <= k < p ==> lex_le(#[trigger] before[k], item@),
        decreases paths.len() - p,
    {
        p += 1;
    }
    paths.insert(p, item);
    proof {
        let after = pieces_view(paths@);
        assert(after =~= before.insert(p as int, item@));
        vstd::seq_lib::to_multiset_insert(before, p as int, item@);
        assert forall|i: int, j: int| 0 <= i < j < after.len() implies lex_le(
            after[i],
            after[j],
        ) by {
            if j < p {
                assert(after[i] == before[i] && after[j] == before[j]);
            } else if j == p {
                assert(after[i] == before[i]);
            } else if i == p {
                // Every path behind the item comes no earlier than the
                // first one that the scan stopped at.
                lemma_lex_le_total(before[p as int], item@);
                if j - 1 > p {
                    lemma_lex_le_transitive(item@, before[p as int], before[j - 1]);
                }
                assert(after[j] == before[j - 1]);
            } else if i < p {
                assert(after[i] == before[i] && after[j] == before[j - 1]);
            } else {
                assert(after[i] == before[i - 1] && after[j] == before[j - 1]);
            }
        }
    }
}

/// The catalog for a directory listing: the paths with the extension `xlsx`
/// or `csv`, in any case of letters, sorted. A path that the listing holds
/// twice is held twice.
pub fn catalog_of(listing: &Vec<String>) -> (files: Vec<String>)
    ensures
        sorted_paths(strings_view(files@)),
        strings_view(files@).to_multiset() == bill_paths(strings_view(listing@)).to_multiset(),
{
    let ghost all = strings_view(listing@);
    let mut sorted: Vec<Vec<char>> = Vec::new();
    let mut i: usize = 0;
    assert(pieces_view(sorted@) =~= bill_paths(all.take(0)));
    while i < listing.len()
        invariant
            i <= listing.len(),
            all == strings_view(listing@),
            sorted_paths(pieces_view(sorted@)),
            pieces_view(sorted@).to_multiset() == bill_paths(all.take(i as int)).to_multiset(),
        decreases listing.len() - i,
    {
        proof {
            assert(all.take(i + 1).drop_last() == all.take(i as int));
        }
        let path = listing[i].as_str();
        if parser_kind(path).is_ok() {
            proof {
                vstd::seq_lib::to_multiset_build(bill_paths(all.take(i as int)), path@);
            }
            insert_sorted(&mut sorted, chars_of(path));
        }
        i += 1;
    }
    assert(all.take(listing.len() as int) == all);
    let mut files: Vec<String> = Vec::new();
    let mut k: usize = 0;
    while k < sorted.len()
        invariant
            k <= sorted.len(),
            strings_view(files@) == pieces_view(sorted@).take(k as int),
        decreases sorted.len() - k,
    {
        let ghost before = strings_view(files@);
        let path = string_of(sorted[k].clone());
        files.push(path);
        assert(strings_view(files@) == before.push(sorted[k as int]@));
        k += 1;
    }
    assert(pieces_view(sorted@).take(sorted.len() as int) == pieces_view(sorted@));
    files
}

} // verus!
