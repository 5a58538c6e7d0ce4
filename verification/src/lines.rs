//! Splitting text into lines at each newline byte, and joining them back;
//! the two are inverse, so line-based edits account for every byte.

use vstd::prelude::*;
use crate::version::{find, lemma_find_char};

verus! {

/// The pieces of `s` between newline bytes: one more piece than newlines.
pub open spec fn split_lines(s: Seq<u8>) -> Seq<Seq<u8>>
    decreases s.len(),
{
    let k = find(s, 0x0a);
    if !(0 <= k < s.len()) {
        seq![s]
    } else {
        seq![s.take(k)] + split_lines(s.skip(k + 1))
    }
}

/// The lines joined with a newline byte between each pair.
pub open spec fn join_lines(ls: Seq<Seq<u8>>) -> Seq<u8>
    decreases ls.len(),
{
    if ls.len() == 0 {
        Seq::empty()
    } else if ls.len() == 1 {
        ls[0]
    } else {
        ls[0] + seq![0x0au8] + join_lines(ls.drop_first())
    }
}

/// Joining the split lines restores the text byte for byte.
pub proof fn lemma_join_split(s: Seq<u8>)
    ensures
        join_lines(split_lines(s)) == s,
        split_lines(s).len() >= 1,
    decreases s.len(),
{
    let k = find(s, 0x0a);
    lemma_find_char(s, 0x0a);
    if !(0 <= k < s.len()) {
    } else {
        lemma_join_split(s.skip(k + 1));
        let ls = split_lines(s);
        assert(ls.drop_first() =~= split_lines(s.skip(k + 1)));
        assert(join_lines(ls) == s.take(k) + seq![0x0au8] + s.skip(k + 1));
        assert(join_lines(ls) =~= s);
    }
}

pub open spec fn line_views(ls: Seq<Vec<u8>>) -> Seq<Seq<u8>> {
    ls.map_values(|l: Vec<u8>| l@)
}

fn split_from(s: &[u8], pos: usize) -> (r: Vec<Vec<u8>>)
    requires
        pos <= s@.len(),
    ensures
        line_views(r@) == split_lines(s@.skip(pos as int)),
    decreases s@.len() - pos,
{
    let ghost t = s@.skip(pos as int);
    let k = crate::version::find_byte(s, pos, 0x0a);
    if k == s.len() {
        let line = vstd::slice::slice_to_vec(vstd::slice::slice_subrange(s, pos, k));
        let r: Vec<Vec<u8>> = vec![line];
        proof {
            assert(s@.subrange(pos as int, k as int) =~= t);
            assert(line_views(r@) =~= seq![t]);
        }
        r
    } else {
        let line = vstd::slice::slice_to_vec(vstd::slice::slice_subrange(s, pos, k));
        let rest = split_from(s, k + 1);
        let mut r = rest;
        r.insert(0, line);
        proof {
            assert(s@.subrange(pos as int, k as int) =~= t.take(k - pos));
            assert(s@.skip(k + 1 as int) =~= t.skip(k - pos + 1));
            assert(line_views(r@) =~= seq![t.take(k - pos)] + split_lines(t.skip(k - pos + 1)));
        }
        r
    }
}

/// Splits `s` at each newline byte.
pub fn split_lines_exec(s: &[u8]) -> (r: Vec<Vec<u8>>)
    ensures
        line_views(r@) == split_lines(s@),
{
    proof {
        assert(s@.skip(0) =~= s@);
    }
    split_from(s, 0)
}

/// Joins lines with a newline byte between each pair.
pub fn join_lines_exec(ls: &Vec<Vec<u8>>) -> (r: Vec<u8>)
    ensures
        r@ == join_lines(line_views(ls@)),
{
    proof {
        assert(line_views(ls@).skip(0) =~= line_views(ls@));
    }
    join_from(ls, 0)
}

fn join_from(ls: &Vec<Vec<u8>>, i: usize) -> (r: Vec<u8>)
    requires
        i <= ls@.len(),
    ensures
        r@ == join_lines(line_views(ls@).skip(i as int)),
    decreases ls@.len() - i,
{
    let ghost tail = line_views(ls@).skip(i as int);
    let mut r: Vec<u8> = Vec::new();
    if i == ls.len() {
        proof {
            assert(tail.len() == 0);
            assert(r@ =~= join_lines(tail));
        }
        return r;
    }
    crate::version::append_bytes(&mut r, ls[i].as_slice());
    assert(r@ == tail[0]);
    if i < ls.len() - 1 {
        r.push(0x0a);
        let rest = join_from(ls, i + 1);
        crate::version::append_bytes(&mut r, rest.as_slice());
        proof {
            assert(tail.drop_first() =~= line_views(ls@).skip(i + 1));
            assert(r@ =~= tail[0] + seq![0x0au8] + join_lines(tail.drop_first()));
        }
    } else {
        proof {
            assert(tail.len() == 1);
            assert(r@ =~= join_lines(tail));
        }
    }
    r
}

} // verus!
