//! Texts: strings as lists of characters.

use vstd::prelude::*;

verus! {

/// The texts of a list of strings.
pub open spec fn strings(list: Seq<String>) -> Seq<Seq<char>> {
    Seq::new(list.len(), |i: int| list[i]@)
}

/// The text of an optional string.
pub open spec fn opt_str(s: Option<String>) -> Option<Seq<char>> {
    match s {
        Some(s) => Some(s@),
        None => None,
    }
}

/// Appends one character to a string. Rust's `String::push` puts the
/// character at the end and leaves the rest as it was.
#[verifier::external_body]
fn string_push(s: &mut String, c: char)
    ensures
        final(s)@ == old(s)@.push(c),
{
    s.push(c)
}

/// The characters of a string slice, in order.
pub fn chars_of(s: &str) -> (v: Vec<char>)
    ensures
        v@ == s@,
{
    let mut v: Vec<char> = Vec::new();
    for c in it: s.chars()
        invariant
            v@ == it.seq().take(it.index() as int),
    {
        v.push(c);
    }
    v
}

/// The string made of the given characters.
pub fn string_of(v: &Vec<char>) -> (s: String)
    ensures
        s@ == v@,
{
    let mut s = String::new();
    let mut i: usize = 0;
    while i < v.len()
        invariant
            i <= v.len(),
            s@ == v@.take(i as int),
        decreases v.len() - i,
    {
        string_push(&mut s, v[i]);
        i += 1;
    }
    assert(v@.take(v.len() as int) =~= v@);
    s
}

/// Puts the characters of `more` behind `into`.
pub fn push_chars(into: &mut Vec<char>, more: &Vec<char>)
    ensures
        final(into)@ == old(into)@ + more@,
{
    let mut k: usize = 0;
    assert(old(into)@ + more@.take(0) =~= old(into)@);
    while k < more.len()
        invariant
            k <= more.len(),
            into@ == old(into)@ + more@.take(k as int),
        decreases more.len() - k,
    {
        into.push(more[k]);
        assert(into@ =~= old(into)@ + more@.take(k + 1));
        k += 1;
    }
    assert(more@.take(more.len() as int) =~= more@);
}

/// Puts the characters of a string slice behind `into`.
pub fn push_str(into: &mut Vec<char>, more: &str)
    ensures
        final(into)@ == old(into)@ + more@,
{
    push_chars(into, &chars_of(more));
}

} // verus!
