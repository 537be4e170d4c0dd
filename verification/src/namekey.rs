//! Name keys: the dotted, case-insensitive identifiers by which records of
//! different tables refer to one another.
//!
//! A name such as `Pets.Wolf_Powers.Bite` has up to three segments (category,
//! power set, power). Two names are the same key when they differ at most in
//! the case of ASCII letters. A segment that is the single character `*`
//! stands for every name at its position.

use vstd::prelude::*;
use crate::text::{chars_of, string_of};

verus! {

/// The lower-case form of an ASCII letter; every other character is itself.
pub open spec fn fold_char(c: char) -> char {
    if 'A' <= c && c <= 'Z' {
        ((c as u8) + 32) as char
    } else {
        c
    }
}

/// A text with every ASCII letter in lower case.
pub open spec fn fold_case(s: Seq<char>) -> Seq<char> {
    Seq::new(s.len(), |i: int| fold_char(s[i]))
}

/// Two texts name the same key: they are equal once case is folded.
pub open spec fn same_key(a: Seq<char>, b: Seq<char>) -> bool {
    fold_case(a) == fold_case(b)
}

/// The segments of a dotted name, split at every `.`. A name without a dot is
/// its own single segment; empty segments are kept.
pub open spec fn segments(s: Seq<char>) -> Seq<Seq<char>>
    decreases s.len(),
{
    if s.len() == 0 {
        seq![Seq::<char>::empty()]
    } else {
        let before = segments(s.drop_last());
        if s.last() == '.' {
            before.push(Seq::<char>::empty())
        } else {
            before.drop_last().push(before.last().push(s.last()))
        }
    }
}

/// The text that is only the wildcard character.
pub open spec fn wildcard() -> Seq<char> {
    seq!['*']
}

/// Two names joined by a dot.
pub open spec fn dotted(a: Seq<char>, b: Seq<char>) -> Seq<char> {
    a + seq!['.'] + b
}

/// A pattern segment accepts a segment of a name: it is the wildcard or the
/// same key.
pub open spec fn segment_accepts(pattern: Seq<char>, segment: Seq<char>) -> bool {
    pattern == wildcard() || same_key(pattern, segment)
}

/// A name is matched by a pattern that is no longer than the name and
/// accepts, segment by segment, the name's leading segments.
pub open spec fn partial_match(name: Seq<char>, pattern: Seq<char>) -> bool {
    let n = segments(name);
    let p = segments(pattern);
    p.len() <= n.len() && forall|i: int| 0 <= i < p.len() ==> segment_accepts(#[trigger] p[i], n[i])
}

/// The texts of a sequence of keys.
pub open spec fn texts(keys: Seq<NameKey>) -> Seq<Seq<char>> {
    Seq::new(keys.len(), |i: int| keys[i]@)
}

/// The text of an optional key.
pub open spec fn opt_text(key: Option<NameKey>) -> Option<Seq<char>> {
    match key {
        Some(k) => Some(k@),
        None => None,
    }
}

/// A name always has at least one segment, so every name has a first
/// segment.
pub proof fn law_a_name_has_a_segment(s: Seq<char>)
    ensures
        segments(s).len() >= 1,
    decreases s.len(),
{
    if s.len() > 0 {
        law_a_name_has_a_segment(s.drop_last());
    }
}

/// Being the same key is an equivalence: every name is the same key as
/// itself, and names that are the same key as one name are the same key as
/// each other.
pub proof fn law_same_key_is_an_equivalence(a: Seq<char>, b: Seq<char>, c: Seq<char>)
    ensures
        same_key(a, a),
        same_key(a, b) ==> same_key(b, a),
        same_key(a, b) && same_key(b, c) ==> same_key(a, c),
{
}

/// Executable form of [`fold_char`].
pub fn fold_char_exec(c: char) -> (r: char)
    ensures
        r == fold_char(c),
{
    if 'A' <= c && c <= 'Z' {
        ((c as u8) + 32) as char
    } else {
        c
    }
}

/// A name used to find a record in a table.
#[derive(Debug)]
pub struct NameKey {
    chars: Vec<char>,
}

impl View for NameKey {
    type V = Seq<char>;

    closed spec fn view(&self) -> Seq<char> {
        self.chars@
    }
}

impl Clone for NameKey {
    fn clone(&self) -> (r: Self)
        ensures
            r@ == self@,
    {
        let mut chars: Vec<char> = Vec::new();
        let mut i: usize = 0;
        while i < self.chars.len()
            invariant
                i <= self.chars.len(),
                chars@ == self.chars@.take(i as int),
            decreases self.chars.len() - i,
        {
            chars.push(self.chars[i]);
            i += 1;
        }
        assert(self.chars@.take(self.chars.len() as int) =~= self.chars@);
        NameKey { chars }
    }
}

impl PartialEq for NameKey {
    fn eq(&self, other: &Self) -> (r: bool) {
        self.eq_key(other)
    }
}

impl Eq for NameKey {

}

impl vstd::std_specs::cmp::PartialEqSpecImpl for NameKey {
    open spec fn obeys_eq_spec() -> bool {
        true
    }

    open spec fn eq_spec(&self, other: &Self) -> bool {
        same_key(self@, other@)
    }
}

impl NameKey {
    /// The key with the given text.
    pub fn new(s: &str) -> (k: NameKey)
        ensures
            k@ == s@,
    {
        NameKey { chars: chars_of(s) }
    }

    /// The key with the given characters as its text.
    pub fn from_chars(chars: Vec<char>) -> (k: NameKey)
        ensures
            k@ == chars@,
    {
        NameKey { chars }
    }

    /// The text of the key as it was written.
    pub fn to_string(&self) -> (s: String)
        ensures
            s@ == self@,
    {
        string_of(&self.chars)
    }

    /// The characters of the text.
    pub fn chars(&self) -> (r: &Vec<char>)
        ensures
            r@ == self@,
    {
        &self.chars
    }

    /// The number of characters of the text.
    pub fn len(&self) -> (n: usize)
        ensures
            n == self@.len(),
    {
        self.chars.len()
    }

    /// Whether the two names are the same key.
    pub fn eq_key(&self, other: &NameKey) -> (r: bool)
        ensures
            r == same_key(self@, other@),
    {
        let n = self.chars.len();
        if n != other.chars.len() {
            assert(fold_case(self@).len() != fold_case(other@).len());
            return false;
        }
        let mut i: usize = 0;
        while i < n
            invariant
                i <= n,
                n == self.chars@.len(),
                n == other.chars@.len(),
                forall|j: int| 0 <= j < i ==> fold_char(self.chars@[j]) == fold_char(other.chars@[j]),
            decreases n - i,
        {
            if fold_char_exec(self.chars[i]) != fold_char_exec(other.chars[i]) {
                assert(fold_case(self@)[i as int] != fold_case(other@)[i as int]);
                return false;
            }
            i += 1;
        }
        assert(fold_case(self@) =~= fold_case(other@));
        true
    }

    /// Whether the name is the wildcard.
    pub fn is_wildcard(&self) -> (r: bool)
        ensures
            r == (self@ == wildcard()),
    {
        if self.chars.len() == 1 && self.chars[0] == '*' {
            assert(self@ =~= wildcard());
            true
        } else {
            false
        }
    }

    /// The name with a further segment appended after a dot.
    pub fn join(&self, other: &NameKey) -> (k: NameKey)
        ensures
            k@ == dotted(self@, other@),
    {
        let mut chars = self.clone().chars;
        chars.push('.');
        let mut i: usize = 0;
        while i < other.chars.len()
            invariant
                i <= other.chars.len(),
                chars@ == self.chars@ + seq!['.'] + other.chars@.take(i as int),
            decreases other.chars.len() - i,
        {
            chars.push(other.chars[i]);
            assert(other.chars@.take(i + 1) =~= other.chars@.take(i as int).push(other.chars@[i as int]));
            i += 1;
        }
        assert(other.chars@.take(other.chars.len() as int) =~= other.chars@);
        NameKey { chars }
    }

    /// The name with one character put in front of it.
    pub fn prefixed(&self, sigil: char) -> (k: NameKey)
        ensures
            k@ == seq![sigil] + self@,
    {
        let mut chars: Vec<char> = Vec::new();
        chars.push(sigil);
        let mut i: usize = 0;
        while i < self.chars.len()
            invariant
                i <= self.chars.len(),
                chars@ == seq![sigil] + self.chars@.take(i as int),
            decreases self.chars.len() - i,
        {
            chars.push(self.chars[i]);
            assert(self.chars@.take(i + 1) =~= self.chars@.take(i as int).push(self.chars@[i as int]));
            i += 1;
        }
        assert(self.chars@.take(self.chars.len() as int) =~= self.chars@);
        NameKey { chars }
    }

    /// The segments of the name.
    pub fn split(&self) -> (parts: Vec<NameKey>)
        ensures
            texts(parts@) == segments(self@),
            parts@.len() >= 1,
    {
        let mut parts: Vec<NameKey> = Vec::new();
        let mut current: Vec<char> = Vec::new();
        let mut i: usize = 0;
        while i < self.chars.len()
            invariant
                i <= self.chars.len(),
                texts(parts@).push(current@) == segments(self.chars@.take(i as int)),
            decreases self.chars.len() - i,
        {
            let c = self.chars[i];
            proof {
                let next = self.chars@.take(i + 1);
                assert(next.drop_last() =~= self.chars@.take(i as int));
                assert(next.last() == c);
            }
            if c == '.' {
                let ghost before = texts(parts@).push(current@);
                parts.push(NameKey { chars: current });
                current = Vec::new();
                assert(texts(parts@) =~= before);
            } else {
                let ghost before = texts(parts@).push(current@);
                current.push(c);
                assert(texts(parts@).push(current@) =~= before.drop_last().push(
                    before.last().push(c),
                ));
            }
            i += 1;
        }
        assert(self.chars@.take(self.chars.len() as int) =~= self.chars@);
        let ghost before = texts(parts@).push(current@);
        parts.push(NameKey { chars: current });
        assert(texts(parts@) =~= before);
        parts
    }

    /// Whether the pattern matches the name: see [`partial_match`].
    pub fn partial_match(&self, pattern: &NameKey) -> (r: bool)
        ensures
            r == partial_match(self@, pattern@),
    {
        let name_parts = self.split();
        let pattern_parts = pattern.split();
        if pattern_parts.len() > name_parts.len() {
            return false;
        }
        let mut i: usize = 0;
        while i < pattern_parts.len()
            invariant
                i <= pattern_parts.len(),
                pattern_parts.len() <= name_parts.len(),
                texts(name_parts@) == segments(self@),
                texts(pattern_parts@) == segments(pattern@),
                forall|j: int|
                    0 <= j < i ==> segment_accepts(
                        #[trigger] segments(pattern@)[j],
                        segments(self@)[j],
                    ),
            decreases pattern_parts.len() - i,
        {
            assert(texts(pattern_parts@)[i as int] == pattern_parts@[i as int]@);
            assert(texts(name_parts@)[i as int] == name_parts@[i as int]@);
            if !pattern_parts[i].is_wildcard() && !pattern_parts[i].eq_key(&name_parts[i]) {
                return false;
            }
            i += 1;
        }
        true
    }
}

} // verus!
