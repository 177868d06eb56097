//! Text as sequences of characters: the few operations that rendering needs.

use vstd::prelude::*;
use crate::views::{lemma_views_push, views};

verus! {

/// Every part of `parts`, each one preceded by `sep`, in order.
pub open spec fn each_after(sep: Seq<char>, parts: Seq<Seq<char>>) -> Seq<char>
    decreases parts.len(),
{
    if parts.len() == 0 {
        Seq::empty()
    } else {
        each_after(sep, parts.drop_last()) + sep + parts.last()
    }
}

/// The parts of `parts` in order, with `sep` between neighbours.
pub open spec fn join(parts: Seq<Seq<char>>, sep: Seq<char>) -> Seq<char> {
    if parts.len() == 0 {
        Seq::empty()
    } else {
        parts.first() + each_after(sep, parts.skip(1))
    }
}

/// The text of a string that may be absent.
pub open spec fn opt_text(string: Option<String>) -> Option<Seq<char>> {
    match string {
        Some(s) => Some(s@),
        None => None,
    }
}

/// Owned copies of the string slices of `strs`, in order.
pub fn to_strings(strs: &[&str]) -> (strings: Vec<String>)
    ensures
        views(strings@) == views(strs@),
{
    let mut strings: Vec<String> = Vec::new();
    let mut i: usize = 0;
    while i < strs.len()
        invariant
            i <= strs.len(),
            views(strings@) == views(strs@).take(i as int),
        decreases strs.len() - i,
    {
        let owned = String::from_str(strs[i]);
        proof {
            lemma_views_push(strings@, owned);
        }
        strings.push(owned);
        i += 1;
        assert(views(strings@) =~= views(strs@).take(i as int));
    }
    assert(views(strs@).take(strs.len() as int) =~= views(strs@));
    strings
}

/// A copy of each string of `strings`, in order.
pub fn copy_strings(strings: &Vec<String>) -> (copies: Vec<String>)
    ensures
        views(copies@) == views(strings@),
{
    let mut copies: Vec<String> = Vec::new();
    let mut i: usize = 0;
    while i < strings.len()
        invariant
            i <= strings.len(),
            views(copies@) == views(strings@).take(i as int),
        decreases strings.len() - i,
    {
        let copy = strings[i].clone();
        proof {
            lemma_views_push(copies@, copy);
        }
        copies.push(copy);
        i += 1;
        assert(views(copies@) =~= views(strings@).take(i as int));
    }
    assert(views(strings@).take(strings.len() as int) =~= views(strings@));
    copies
}

/// Adding one more part to a joined text appends the separator and the part,
/// unless the part is the first.
pub proof fn lemma_join_push(parts: Seq<Seq<char>>, sep: Seq<char>, part: Seq<char>)
    ensures
        join(parts.push(part), sep) == if parts.len() == 0 {
            part
        } else {
            join(parts, sep) + sep + part
        },
{
    let longer = parts.push(part);
    if parts.len() == 0 {
        assert(longer.skip(1) =~= Seq::<Seq<char>>::empty());
        assert(join(longer, sep) =~= part);
    } else {
        assert(longer.skip(1).drop_last() =~= parts.skip(1));
        assert(longer.skip(1).last() == part);
        assert(longer.first() == parts.first());
        assert(join(longer, sep) =~= join(parts, sep) + sep + part);
    }
}

/// Whether two string slices hold the same text.
pub fn same_text(a: &str, b: &str) -> (r: bool)
    ensures
        r == (a@ == b@),
{
    let left = String::from_str(a);
    let right = String::from_str(b);
    left == right
}

/// Whether `s` begins with `prefix`.
pub fn begins_with(s: &str, prefix: &str) -> (r: bool)
    ensures
        r == prefix@.is_prefix_of(s@),
{
    let wanted = prefix.unicode_len();
    if s.unicode_len() < wanted {
        return false;
    }
    let mut i: usize = 0;
    while i < wanted
        invariant
            i <= wanted,
            wanted == prefix@.len(),
            wanted <= s@.len(),
            forall|j: int| 0 <= j < i ==> s@[j] == prefix@[j],
        decreases wanted - i,
    {
        if s.get_char(i) != prefix.get_char(i) {
            assert(s@.subrange(0, prefix@.len() as int)[i as int] != prefix@[i as int]);
            return false;
        }
        i += 1;
    }
    assert(s@.subrange(0, prefix@.len() as int) =~= prefix@);
    true
}

/// Appends to `out` the strings of `parts`, with `sep` between neighbours.
pub fn append_joined(out: &mut String, parts: &Vec<String>, sep: &str)
    ensures
        final(out)@ == old(out)@ + join(views(parts@), sep@),
{
    let ghost all = views(parts@);
    let mut i: usize = 0;
    while i < parts.len()
        invariant
            i <= parts.len(),
            all == views(parts@),
            out@ == old(out)@ + join(all.take(i as int), sep@),
        decreases parts.len() - i,
    {
        if i > 0 {
            out.append(sep);
        }
        out.append(parts[i].as_str());
        proof {
            assert(all.take(i + 1) =~= all.take(i as int).push(all[i as int]));
            lemma_join_push(all.take(i as int), sep@, all[i as int]);
        }
        i += 1;
    }
    proof {
        assert(all.take(parts.len() as int) =~= all);
    }
}

} // verus!
