//! Character-level text handling: conversion between strings and character
//! vectors, trimming, prefix and substring tests, and splitting into lines.

use vstd::prelude::*;
use vstd::std_specs::iter::IteratorSpec;

verus! {

broadcast use vstd::string::group_string_axioms;

/// White space as Unicode defines it (the property `White_Space`).
pub open spec fn is_space(c: char) -> bool {
    let n = c as u32;
    n == 0x20 || (0x09 <= n <= 0x0D) || n == 0x85 || n == 0xA0 || n == 0x1680 || (0x2000 <= n
        <= 0x200A) || n == 0x2028 || n == 0x2029 || n == 0x202F || n == 0x205F || n == 0x3000
}

/// Whether `c` is white space.
pub fn space(c: char) -> (r: bool)
    ensures
        r == is_space(c),
{
    let n: u32 = c as u32;
    n == 0x20 || (0x09 <= n && n <= 0x0D) || n == 0x85 || n == 0xA0 || n == 0x1680 || (0x2000 <= n
        && n <= 0x200A) || n == 0x2028 || n == 0x2029 || n == 0x202F || n == 0x205F || n == 0x3000
}

/// The characters of `s`, in order.
pub fn chars_of(s: &str) -> (r: Vec<char>)
    ensures
        r@ == s@,
{
    let mut out: Vec<char> = Vec::new();
    let mut it = s.chars();
    loop
        invariant
            out@ + it.remaining() == s@,
            it.obeys_prophetic_iter_laws(),
            it.decrease() is Some,
        ensures
            out@ == s@,
        decreases it.decrease()->0,
    {
        let ghost before = it;
        let ghost sofar = out@;
        match it.next() {
            Some(c) => {
                out.push(c);
                proof {
                    assert(before.remaining() =~= seq![c] + it.remaining());
                    assert(out@ + it.remaining() =~= sofar + before.remaining());
                }
            },
            None => {
                proof {
                    assert(out@ + it.remaining() =~= out@);
                }
                break ;
            },
        }
    }
    out
}

/// `String::push` puts one character at the end of the string and leaves
/// the rest as it was.
pub assume_specification[ String::push ](s: &mut String, ch: char)
    ensures
        final(s)@ == old(s)@.push(ch),
;

/// The string made of the characters of `v`, in order.
pub fn string_of(v: &Vec<char>) -> (r: String)
    ensures
        r@ == v@,
{
    let mut out = String::new();
    let mut i: usize = 0;
    while i < v.len()
        invariant
            i <= v@.len(),
            out@ == v@.take(i as int),
        decreases v@.len() - i,
    {
        out.push(v[i]);
        proof {
            assert(v@.take(i + 1) =~= v@.take(i as int).push(v@[i as int]));
        }
        i += 1;
    }
    proof {
        assert(v@.take(v@.len() as int) =~= v@);
    }
    out
}

/// How much of `s` is left once the white space at its end is cut off.
pub open spec fn trim_end_len(s: Seq<char>) -> nat
    decreases s.len(),
{
    if s.len() > 0 && is_space(s.last()) {
        trim_end_len(s.drop_last())
    } else {
        s.len()
    }
}

/// How much white space `s` starts with.
pub open spec fn trim_start_len(s: Seq<char>) -> nat
    decreases s.len(),
{
    if s.len() > 0 && is_space(s[0]) {
        1 + trim_start_len(s.drop_first())
    } else {
        0
    }
}

/// `s` without the white space at its end.
pub open spec fn trim_end(s: Seq<char>) -> Seq<char> {
    s.take(trim_end_len(s) as int)
}

/// `s` without the white space at its start.
pub open spec fn trim_start(s: Seq<char>) -> Seq<char> {
    s.skip(trim_start_len(s) as int)
}

/// `s` without the white space at either end.
pub open spec fn trim(s: Seq<char>) -> Seq<char> {
    trim_end(trim_start(s))
}

/// Whether `s` begins with `prefix`.
pub open spec fn starts_with(s: Seq<char>, prefix: Seq<char>) -> bool {
    prefix.len() <= s.len() && s.take(prefix.len() as int) == prefix
}

/// Whether `needle` stands in `s` at place `at`.
pub open spec fn occurs_at(s: Seq<char>, needle: Seq<char>, at: int) -> bool {
    0 <= at && at + needle.len() <= s.len() && s.subrange(at, at + needle.len()) == needle
}

/// Whether `needle` stands somewhere in `s`.
pub open spec fn contains(s: Seq<char>, needle: Seq<char>) -> bool {
    exists|at: int| occurs_at(s, needle, at)
}

/// Where `v[start..end]` ends once the white space at its end is cut off.
fn end_of_text(v: &Vec<char>, start: usize, end: usize) -> (n: usize)
    requires
        start <= end <= v@.len(),
    ensures
        start <= n <= end,
        n - start == trim_end_len(v@.subrange(start as int, end as int)),
{
    let mut n: usize = end;
    while n > start && space(v[n - 1])
        invariant
            start <= n <= end <= v@.len(),
            trim_end_len(v@.subrange(start as int, end as int)) == trim_end_len(
                v@.subrange(start as int, n as int),
            ),
        decreases n,
    {
        proof {
            let cur = v@.subrange(start as int, n as int);
            assert(cur.last() == v@[n - 1]);
            assert(cur.drop_last() =~= v@.subrange(start as int, n - 1));
        }
        n -= 1;
    }
    proof {
        let cur = v@.subrange(start as int, n as int);
        if n > start {
            assert(cur.last() == v@[n - 1]);
        }
    }
    n
}

/// The place in `v[start..end]` where its leading white space stops.
fn start_of_text(v: &Vec<char>, start: usize, end: usize) -> (n: usize)
    requires
        start <= end <= v@.len(),
    ensures
        start <= n <= end,
        n - start == trim_start_len(v@.subrange(start as int, end as int)),
{
    let mut n: usize = start;
    while n < end && space(v[n])
        invariant
            start <= n <= end <= v@.len(),
            trim_start_len(v@.subrange(start as int, end as int)) == (n - start) + trim_start_len(
                v@.subrange(n as int, end as int),
            ),
        decreases end - n,
    {
        proof {
            let cur = v@.subrange(n as int, end as int);
            assert(cur[0] == v@[n as int]);
            assert(cur.drop_first() =~= v@.subrange(n + 1, end as int));
        }
        n += 1;
    }
    proof {
        let cur = v@.subrange(n as int, end as int);
        if n < end {
            assert(cur[0] == v@[n as int]);
        }
    }
    n
}

/// A copy of `v[start..end]`.
pub fn slice_of(v: &Vec<char>, start: usize, end: usize) -> (r: Vec<char>)
    requires
        start <= end <= v@.len(),
    ensures
        r@ == v@.subrange(start as int, end as int),
{
    let mut out: Vec<char> = Vec::new();
    let mut i: usize = start;
    while i < end
        invariant
            start <= i <= end <= v@.len(),
            out@ == v@.subrange(start as int, i as int),
        decreases end - i,
    {
        out.push(v[i]);
        proof {
            assert(v@.subrange(start as int, i + 1) =~= v@.subrange(start as int, i as int).push(
                v@[i as int],
            ));
        }
        i += 1;
    }
    out
}

/// `v` without the white space at its end.
pub fn trimmed_end(v: &Vec<char>) -> (r: Vec<char>)
    ensures
        r@ == trim_end(v@),
{
    let n = end_of_text(v, 0, v.len());
    proof {
        assert(v@.subrange(0, v@.len() as int) =~= v@);
    }
    slice_of(v, 0, n)
}

/// `v` without the white space at either end.
pub fn trimmed(v: &Vec<char>) -> (r: Vec<char>)
    ensures
        r@ == trim(v@),
{
    let a = start_of_text(v, 0, v.len());
    let b = end_of_text(v, a, v.len());
    proof {
        assert(v@.subrange(0, v@.len() as int) =~= v@);
        assert(v@.subrange(a as int, v@.len() as int) =~= trim_start(v@));
        assert(v@.subrange(a as int, b as int) =~= trim(v@));
    }
    slice_of(v, a, b)
}

/// Whether `needle` stands in `v` at place `at`.
pub fn stands_at(v: &Vec<char>, needle: &Vec<char>, at: usize) -> (r: bool)
    ensures
        r == occurs_at(v@, needle@, at as int),
{
    if needle.len() > v.len() || at > v.len() - needle.len() {
        return false;
    }
    let mut i: usize = 0;
    while i < needle.len()
        invariant
            i <= needle@.len(),
            at + needle@.len() <= v@.len() <= usize::MAX,
            forall|j: int| 0 <= j < i ==> v@[at + j] == needle@[j],
        decreases needle@.len() - i,
    {
        if v[at + i] != needle[i] {
            proof {
                let piece = v@.subrange(at as int, at + needle@.len());
                assert(piece[i as int] == v@[at + i]);
            }
            return false;
        }
        i += 1;
    }
    proof {
        assert(v@.subrange(at as int, at + needle@.len()) =~= needle@);
    }
    true
}

/// Whether `v` begins with `prefix`.
pub fn begins_with(v: &Vec<char>, prefix: &Vec<char>) -> (r: bool)
    ensures
        r == starts_with(v@, prefix@),
{
    let r = stands_at(v, prefix, 0);
    proof {
        if prefix@.len() <= v@.len() {
            assert(v@.subrange(0, prefix@.len() as int) =~= v@.take(prefix@.len() as int));
        }
    }
    r
}

/// Whether `needle` stands somewhere in `v`.
pub fn includes(v: &Vec<char>, needle: &Vec<char>) -> (r: bool)
    ensures
        r == contains(v@, needle@),
{
    if needle.len() > v.len() {
        return false;
    }
    let last = v.len() - needle.len();
    let mut at: usize = 0;
    loop
        invariant
            last == v@.len() - needle@.len(),
            at <= last,
            forall|j: int| 0 <= j < at ==> !occurs_at(v@, needle@, j),
        decreases last - at,
    {
        if stands_at(v, needle, at) {
            return true;
        }
        if at == last {
            return false;
        }
        at += 1;
    }
}

/// The place of the first line feed in `s`, or the length of `s` where it
/// has none.
pub open spec fn line_end(s: Seq<char>) -> int
    decreases s.len(),
{
    if s.len() == 0 || s[0] == '\n' {
        0
    } else {
        1 + line_end(s.drop_first())
    }
}

/// `line` without a carriage return at its end.
pub open spec fn strip_cr(line: Seq<char>) -> Seq<char> {
    if line.len() > 0 && line.last() == '\r' {
        line.drop_last()
    } else {
        line
    }
}

/// The lines of `s`. A line ends at a line feed, or at a carriage return
/// followed by one; neither belongs to the line. What follows the last line
/// feed is a line of its own unless it is empty.
pub open spec fn lines(s: Seq<char>) -> Seq<Seq<char>>
    decreases s.len(),
{
    if s.len() == 0 {
        Seq::empty()
    } else {
        let n = line_end(s);
        if n < 0 || n >= s.len() {
            seq![s]
        } else {
            seq![strip_cr(s.take(n))] + lines(s.skip(n + 1))
        }
    }
}

/// The character sequences that the strings of `v` hold.
pub open spec fn texts(v: Seq<String>) -> Seq<Seq<char>> {
    Seq::new(v.len(), |i: int| v[i]@)
}

/// The character sequences that the vectors of `v` hold.
pub open spec fn views(v: Seq<Vec<char>>) -> Seq<Seq<char>> {
    Seq::new(v.len(), |i: int| v[i]@)
}

/// The lines of `v`.
pub fn split_lines(v: &Vec<char>) -> (r: Vec<Vec<char>>)
    ensures
        views(r@) == lines(v@),
{
    let mut out: Vec<Vec<char>> = Vec::new();
    let mut start: usize = 0;
    proof {
        assert(v@.skip(0) =~= v@);
        assert(views(out@) + lines(v@) =~= lines(v@));
    }
    while start < v.len()
        invariant
            start <= v@.len(),
            lines(v@) == views(out@) + lines(v@.skip(start as int)),
        decreases v@.len() - start,
    {
        let ghost rest = v@.skip(start as int);
        let mut j: usize = start;
        proof {
            assert(v@.skip(j as int) =~= rest);
        }
        while j < v.len() && v[j] != '\n'
            invariant
                start <= j <= v@.len(),
                rest == v@.skip(start as int),
                line_end(rest) == (j - start) + line_end(v@.skip(j as int)),
            decreases v@.len() - j,
        {
            proof {
                let cur = v@.skip(j as int);
                assert(cur[0] == v@[j as int]);
                assert(cur.drop_first() =~= v@.skip(j + 1));
            }
            j += 1;
        }
        let ghost sofar = views(out@);
        if j == v.len() {
            let line = slice_of(v, start, j);
            proof {
                assert(v@.skip(j as int).len() == 0);
                assert(line_end(rest) == rest.len());
                assert(line@ =~= rest);
                assert(lines(rest) =~= seq![rest]);
                assert(lines(v@.skip(j as int)) =~= Seq::<Seq<char>>::empty());
            }
            out.push(line);
            proof {
                assert(views(out@) =~= sofar.push(rest));
                assert(views(out@) + lines(v@.skip(j as int)) =~= sofar + lines(rest));
            }
            start = j;
        } else {
            let mut end: usize = j;
            if end > start && v[end - 1] == '\r' {
                end -= 1;
            }
            let line = slice_of(v, start, end);
            proof {
                let cur = v@.skip(j as int);
                assert(cur[0] == v@[j as int]);
                assert(line_end(cur) == 0);
                let n = line_end(rest);
                assert(n == j - start);
                assert(rest.take(n) =~= v@.subrange(start as int, j as int));
                assert(line@ =~= strip_cr(rest.take(n)));
                assert(rest.skip(n + 1) =~= v@.skip(j + 1));
                assert(lines(rest) =~= seq![line@] + lines(v@.skip(j + 1)));
            }
            out.push(line);
            proof {
                assert(views(out@) =~= sofar.push(line@));
                assert(views(out@) + lines(v@.skip(j + 1)) =~= sofar + lines(rest));
            }
            start = j + 1;
        }
    }
    proof {
        assert(lines(v@.skip(start as int)) =~= Seq::<Seq<char>>::empty());
        assert(views(out@) + Seq::<Seq<char>>::empty() =~= views(out@));
    }
    out
}

} // verus!
