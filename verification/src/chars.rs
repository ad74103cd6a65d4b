//! Character-level helpers shared by the wire codecs: conversion between
//! `String` and `Vec<char>`, and the escaping scheme used inside quoted
//! strings of the structured-text encoding.

use vstd::prelude::*;

verus! {

/// The escape expansion of a single character: quote and backslash are
/// preceded by a backslash, every other character stands for itself.
pub open spec fn esc1(c: char) -> Seq<char> {
    if c == '"' || c == '\\' {
        seq!['\\', c]
    } else {
        seq![c]
    }
}

/// The escaped form of a string: each character expanded by `esc1`.
pub open spec fn esc(s: Seq<char>) -> Seq<char>
    decreases s.len(),
{
    if s.len() == 0 {
        Seq::empty()
    } else {
        esc1(s[0]) + esc(s.skip(1))
    }
}

pub proof fn lemma_esc_take_snoc(s: Seq<char>, i: int)
    requires
        0 <= i < s.len(),
    ensures
        esc(s.take(i + 1)) == esc(s.take(i)) + esc1(s[i]),
    decreases i,
{
    if i == 0 {
        assert(s.take(1)[0] == s[0]);
        assert(s.take(1).skip(1) =~= Seq::<char>::empty());
        assert(s.take(0) =~= Seq::<char>::empty());
        assert(esc(Seq::<char>::empty()) == Seq::<char>::empty());
        assert(esc(s.take(1)) == esc1(s[0]) + Seq::<char>::empty());
        assert(esc1(s[0]) + Seq::<char>::empty() =~= esc1(s[0]));
        assert(Seq::<char>::empty() + esc1(s[0]) =~= esc1(s[0]));
    } else {
        lemma_esc_take_snoc(s.skip(1), i - 1);
        assert(s.take(i + 1)[0] == s[0]);
        assert(s.take(i + 1).skip(1) =~= s.skip(1).take(i));
        assert(s.take(i).skip(1) =~= s.skip(1).take(i - 1));
        assert(esc(s.take(i + 1)) == esc1(s[0]) + esc(s.skip(1).take(i)));
        assert(esc(s.take(i)) == esc1(s[0]) + esc(s.skip(1).take(i - 1)));
        assert(s.skip(1)[i - 1] == s[i]);
        assert(esc1(s[0]) + (esc(s.skip(1).take(i - 1)) + esc1(s[i])) =~= (esc1(s[0]) + esc(
            s.skip(1).take(i - 1),
        )) + esc1(s[i]));
    }
}

/// Relies on `String::push`: appends one character to the string.
#[verifier::external_body]
pub fn push_char(s: &mut String, c: char)
    ensures
        final(s)@ == old(s)@.push(c),
{
    s.push(c);
}

/// Collects the characters of a string slice into a vector, in order.
pub fn to_chars(s: &str) -> (r: Vec<char>)
    ensures
        r@ == s@,
{
    let n = s.unicode_len();
    let mut r: Vec<char> = Vec::new();
    let mut i: usize = 0;
    while i < n
        invariant
            n == s@.len(),
            i <= n,
            r@ == s@.take(i as int),
        decreases n - i,
    {
        let c = s.get_char(i);
        r.push(c);
        assert(s@.take(i + 1) =~= s@.take(i as int).push(s@[i as int]));
        i = i + 1;
    }
    assert(s@.take(n as int) =~= s@);
    r
}

/// Builds a `String` from a vector of characters, in order.
pub fn chars_to_string(v: &Vec<char>) -> (r: String)
    ensures
        r@ == v@,
{
    let mut r = String::new();
    let mut i: usize = 0;
    while i < v.len()
        invariant
            i <= v@.len(),
            r@ == v@.take(i as int),
        decreases v@.len() - i,
    {
        push_char(&mut r, v[i]);
        assert(v@.take(i + 1) =~= v@.take(i as int).push(v@[i as int]));
        i = i + 1;
    }
    assert(v@.take(v@.len() as int) =~= v@);
    r
}

/// Appends the escaped form of `raw` to `out`.
pub fn append_escaped(out: &mut String, raw: &str)
    ensures
        final(out)@ == old(out)@ + esc(raw@),
{
    let n = raw.unicode_len();
    let mut i: usize = 0;
    while i < n
        invariant
            n == raw@.len(),
            i <= n,
            out@ == old(out)@ + esc(raw@.take(i as int)),
        decreases n - i,
    {
        let c = raw.get_char(i);
        if c == '"' || c == '\\' {
            push_char(out, '\\');
            push_char(out, c);
            assert(out@ =~= old(out)@ + (esc(raw@.take(i as int)) + esc1(raw@[i as int])));
        } else {
            push_char(out, c);
            assert(out@ =~= old(out)@ + (esc(raw@.take(i as int)) + esc1(raw@[i as int])));
        }
        proof {
            lemma_esc_take_snoc(raw@, i as int);
        }
        i = i + 1;
    }
    assert(raw@.take(n as int) =~= raw@);
}

} // verus!
