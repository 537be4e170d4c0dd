//! Requirement expressions.
//!
//! The tables hold a requirement as a list of tokens in postfix order: the
//! operands come first and the operator last. For the output the list is
//! turned into one line in the usual order, with the operator between its
//! operands and the arguments of a function in brackets behind its name.

use vstd::prelude::*;
use vstd::string::*;
use crate::text::{chars_of, opt_str, push_chars, push_str, string_of, strings};

verus! {

/// The texts of a list of tokens.
pub open spec fn lines(tokens: Seq<Vec<char>>) -> Seq<Seq<char>> {
    Seq::new(tokens.len(), |i: int| tokens[i]@)
}

/// The text ends with the character.
pub open spec fn ends_with(t: Seq<char>, c: char) -> bool {
    t.len() > 0 && t.last() == c
}

/// The text begins with the other text.
pub open spec fn starts_with(t: Seq<char>, p: Seq<char>) -> bool {
    t.len() >= p.len() && t.take(p.len() as int) == p
}

/// The other text stands in the text at a position before `upto`.
pub open spec fn holds_before(t: Seq<char>, p: Seq<char>, upto: int) -> bool {
    exists|i: int|
        0 <= i < upto && i + p.len() <= t.len() && #[trigger] t.skip(i).take(p.len() as int) == p
}

/// The other text stands somewhere in the text.
pub open spec fn holds(t: Seq<char>, p: Seq<char>) -> bool {
    holds_before(t, p, (t.len() + 1) as int)
}

/// The token is an operator with two operands.
pub open spec fn is_binary(t: Seq<char>) -> bool {
    t == "=="@ || t == "eq"@ || t == "||"@ || t == "&&"@ || t == "/"@ || t == "+"@ || t == "-"@
        || t == "*"@ || t == "<"@ || t == "<="@ || t == ">"@ || t == ">="@
}

/// The token is a function without arguments.
pub open spec fn is_nullary(t: Seq<char>) -> bool {
    t == "drop"@ || t == "dup"@ || t == "rand"@
}

/// An operator as it is shown: the comparison of texts, `eq`, is shown as
/// `==`.
pub open spec fn shown_operator(t: Seq<char>) -> Seq<char> {
    if t == "eq"@ {
        "=="@
    } else {
        t
    }
}

/// The token is one of the two references of a source that are shown
/// without the angle at their end.
pub open spec fn is_plain_source(t: Seq<char>) -> bool {
    t == "source.MapTeamArea>"@ || t == "source.VillainName>"@
}

/// A function whose name ends in `?` takes the token before it as its
/// argument, unless it is a test (its name, or the part behind a dot,
/// begins with `is`).
pub open spec fn takes_argument(t: Seq<char>) -> bool {
    !(holds(t, ".is"@) || holds(t, ".Is"@)) && !(starts_with(t, "is"@) || starts_with(t, "Is"@))
}

/// The text of an optional text; nothing where there is none.
pub open spec fn or_empty(s: Option<Seq<char>>) -> Seq<char> {
    match s {
        Some(s) => s,
        None => Seq::empty(),
    }
}

/// The smaller of two numbers.
pub open spec fn at_most(a: nat, b: nat) -> nat {
    if a <= b {
        a
    } else {
        b
    }
}

/// The expression that ends with the last of the first `remaining` tokens,
/// and how many tokens stand before it. Without tokens there is none.
///
/// - `!` negates the expression before it;
/// - an operator with two operands stands between them, in brackets;
/// - `drop`, `dup` and `rand` are functions without arguments, `negate` has
///   one and `minmax` three, of which the value stands first;
/// - a token that ends in `>` refers to a part of the token before it and
///   is joined to it, but for two references that are shown alone, without
///   the angle;
/// - a token that ends in `?` is a function: see [`takes_argument`];
/// - another token stands for itself.
///
/// An operand that is missing is left out.
pub open spec fn render(tokens: Seq<Seq<char>>, remaining: nat) -> (Option<Seq<char>>, nat)
    decreases remaining,
{
    if remaining == 0 {
        (None, 0)
    } else {
        let token = tokens[remaining - 1];
        let rest = (remaining - 1) as nat;
        if token == "!"@ {
            let arg = render(tokens, rest);
            (Some(token + or_empty(arg.0)), at_most(arg.1, rest))
        } else if is_binary(token) {
            let second = render(tokens, rest);
            let first = render(tokens, at_most(second.1, rest));
            (
                Some(
                    "("@ + or_empty(first.0) + " "@ + shown_operator(token) + " "@ + or_empty(
                        second.0,
                    ) + ")"@,
                ),
                at_most(first.1, rest),
            )
        } else if is_nullary(token) {
            (Some(token + "()"@), rest)
        } else if token == "negate"@ {
            let arg = render(tokens, rest);
            (Some(token + "("@ + or_empty(arg.0) + ")"@), at_most(arg.1, rest))
        } else if token == "minmax"@ {
            let max = render(tokens, rest);
            let min = render(tokens, at_most(max.1, rest));
            let val = render(tokens, at_most(min.1, rest));
            (
                Some(
                    token + "("@ + or_empty(val.0) + ", "@ + or_empty(min.0) + ", "@ + or_empty(
                        max.0,
                    ) + ")"@,
                ),
                at_most(val.1, rest),
            )
        } else if is_plain_source(token) {
            (Some(token.drop_last()), rest)
        } else if ends_with(token, '>') {
            if rest > 0 {
                (Some(token + tokens[rest - 1]), (rest - 1) as nat)
            } else {
                (Some(token), rest)
            }
        } else if ends_with(token, '?') {
            if takes_argument(token) && rest > 0 {
                (Some(token + "("@ + tokens[rest - 1] + ")"@), (rest - 1) as nat)
            } else {
                (Some(token + "()"@), rest)
            }
        } else {
            (Some(token), rest)
        }
    }
}

/// A requirement in one line: the expression that ends with the last token,
/// without the brackets around the whole of it. A requirement that is only
/// `1` always holds, and so has no line; neither has one without tokens.
pub open spec fn requirement(tokens: Seq<Seq<char>>) -> Option<Seq<char>> {
    if tokens.len() == 1 && tokens[0] == "1"@ {
        None
    } else {
        match render(tokens, tokens.len()).0 {
            Some(e) => Some(
                if starts_with(e, "("@) && ends_with(e, ')') {
                    e.subrange(1, e.len() - 1)
                } else {
                    e
                },
            ),
            None => None,
        }
    }
}

/// The text of an optional list of characters.
pub open spec fn opt_chars(s: Option<Vec<char>>) -> Option<Seq<char>> {
    match s {
        Some(s) => Some(s@),
        None => None,
    }
}

/// Whether the token is the word.
fn is_word(token: &Vec<char>, word: &str) -> (r: bool)
    ensures
        r == (token@ == word@),
{
    let w = chars_of(word);
    if token.len() != w.len() {
        return false;
    }
    let mut k: usize = 0;
    while k < token.len()
        invariant
            k <= token.len(),
            token.len() == w.len(),
            w@ == word@,
            forall|j: int| 0 <= j < k ==> token@[j] == w@[j],
        decreases token.len() - k,
    {
        if token[k] != w[k] {
            return false;
        }
        k += 1;
    }
    assert(token@ =~= w@);
    true
}

/// Whether the token begins with the word.
fn begins_with(token: &Vec<char>, word: &str) -> (r: bool)
    ensures
        r == starts_with(token@, word@),
{
    let w = chars_of(word);
    if token.len() < w.len() {
        return false;
    }
    let mut k: usize = 0;
    while k < w.len()
        invariant
            k <= w.len(),
            token.len() >= w.len(),
            w@ == word@,
            forall|j: int| 0 <= j < k ==> token@[j] == w@[j],
        decreases w.len() - k,
    {
        if token[k] != w[k] {
            assert(token@.take(w@.len() as int)[k as int] != w@[k as int]);
            return false;
        }
        k += 1;
    }
    assert(token@.take(w@.len() as int) =~= w@);
    true
}

/// Whether the word stands somewhere in the token.
fn has_word(token: &Vec<char>, word: &str) -> (r: bool)
    ensures
        r == holds(token@, word@),
{
    let w = chars_of(word);
    if token.len() < w.len() {
        return false;
    }
    let last = token.len() - w.len();
    let mut i: usize = 0;
    loop
        invariant_except_break
            i <= last,
            !holds_before(token@, word@, i as int),
        invariant
            last == token.len() - w.len(),
            token.len() >= w.len(),
            w@ == word@,
        ensures
            !holds_before(token@, word@, (token@.len() + 1) as int),
        decreases last - i,
    {
        let mut k: usize = 0;
        let mut same = true;
        while k < w.len()
            invariant
                k <= w.len(),
                i <= last,
                last == token.len() - w.len(),
                token.len() >= w.len(),
                same == (forall|j: int| 0 <= j < k ==> token@[i + j] == w@[j]),
            decreases w.len() - k,
        {
            if token[i + k] != w[k] {
                same = false;
            }
            k += 1;
        }
        if same {
            proof {
                assert(token@.skip(i as int).take(w@.len() as int) =~= w@);
                assert(holds_before(token@, word@, (token@.len() + 1) as int));
            }
            return true;
        }
        proof {
            let j = choose|j: int| 0 <= j < w@.len() && token@[i + j] != w@[j];
            assert(token@.skip(i as int).take(w@.len() as int)[j] != w@[j]);
            if holds_before(token@, word@, i + 1) {
                let at = choose|at: int|
                    0 <= at < i + 1 && at + word@.len() <= token@.len() && #[trigger] token@.skip(
                        at,
                    ).take(word@.len() as int) == word@;
                assert(at == i);
            }
        }
        if i == last {
            proof {
                if holds_before(token@, word@, (token@.len() + 1) as int) {
                    let at = choose|at: int|
                        0 <= at < token@.len() + 1 && at + word@.len() <= token@.len()
                            && #[trigger] token@.skip(at).take(word@.len() as int) == word@;
                    assert(at <= last);
                    assert(holds_before(token@, word@, i + 1));
                }
            }
            break;
        }
        i += 1;
    }
    false
}

/// Puts the characters of an operand behind `into`, if there is one.
fn push_operand(into: &mut Vec<char>, operand: &Option<Vec<char>>)
    ensures
        final(into)@ == old(into)@ + or_empty(opt_chars(*operand)),
{
    match operand {
        Some(text) => {
            push_chars(into, text);
        },
        None => {
            assert(old(into)@ + Seq::<char>::empty() =~= old(into)@);
        },
    }
}

/// Whether the token is an operator with two operands.
fn binary(token: &Vec<char>) -> (r: bool)
    ensures
        r == is_binary(token@),
{
    is_word(token, "==") || is_word(token, "eq") || is_word(token, "||") || is_word(token, "&&")
        || is_word(token, "/") || is_word(token, "+") || is_word(token, "-") || is_word(token, "*")
        || is_word(token, "<") || is_word(token, "<=") || is_word(token, ">") || is_word(
        token,
        ">=",
    )
}

/// The expression that ends with the last of the first `remaining` tokens,
/// and how many tokens stand before it: see [`render`].
pub fn requires_to_string_inner(tokens: &Vec<Vec<char>>, remaining: usize) -> (r: (
    Option<Vec<char>>,
    usize,
))
    requires
        remaining <= tokens.len(),
    ensures
        opt_chars(r.0) == render(lines(tokens@), remaining as nat).0,
        r.1 == render(lines(tokens@), remaining as nat).1,
        r.1 <= remaining,
        remaining > 0 ==> r.1 < remaining,
    decreases remaining,
{
    if remaining == 0 {
        return (None, 0);
    }
    let token = &tokens[remaining - 1];
    let rest = remaining - 1;
    assert(lines(tokens@)[remaining - 1] == token@);
    let mut expression: Vec<char> = Vec::new();
    assert(expression@ + token@ =~= token@);
    if is_word(token, "!") {
        // unary operators
        push_chars(&mut expression, token);
        let (arg, left) = requires_to_string_inner(tokens, rest);
        push_operand(&mut expression, &arg);
        (Some(expression), left)
    } else if binary(token) {
        // binary operators/functions
        push_str(&mut expression, "(");
        let (arg2, left) = requires_to_string_inner(tokens, rest);
        let (arg1, left) = requires_to_string_inner(tokens, left);
        push_operand(&mut expression, &arg1);
        push_str(&mut expression, " ");
        // internally, 'eq' is actually a string comparison function
        if is_word(token, "eq") {
            push_str(&mut expression, "==");
        } else {
            push_chars(&mut expression, token);
        }
        push_str(&mut expression, " ");
        push_operand(&mut expression, &arg2);
        push_str(&mut expression, ")");
        assert(expression@ =~= "("@ + or_empty(opt_chars(arg1)) + " "@ + shown_operator(token@)
            + " "@ + or_empty(opt_chars(arg2)) + ")"@);
        (Some(expression), left)
    } else if is_word(token, "drop") || is_word(token, "dup") || is_word(token, "rand") {
        // no-argument functions
        push_chars(&mut expression, token);
        push_str(&mut expression, "()");
        (Some(expression), rest)
    } else if is_word(token, "negate") {
        // single-argument functions
        push_chars(&mut expression, token);
        push_str(&mut expression, "(");
        let (arg, left) = requires_to_string_inner(tokens, rest);
        push_operand(&mut expression, &arg);
        push_str(&mut expression, ")");
        (Some(expression), left)
    } else if is_word(token, "minmax") {
        // minmax(val, min, max)
        push_chars(&mut expression, token);
        push_str(&mut expression, "(");
        let (max, left) = requires_to_string_inner(tokens, rest);
        let (min, left) = requires_to_string_inner(tokens, left);
        let (val, left) = requires_to_string_inner(tokens, left);
        push_operand(&mut expression, &val);
        push_str(&mut expression, ", ");
        push_operand(&mut expression, &min);
        push_str(&mut expression, ", ");
        push_operand(&mut expression, &max);
        push_str(&mut expression, ")");
        assert(expression@ =~= token@ + "("@ + or_empty(opt_chars(val)) + ", "@ + or_empty(
            opt_chars(min),
        ) + ", "@ + or_empty(opt_chars(max)) + ")"@);
        (Some(expression), left)
    } else if is_word(token, "source.MapTeamArea>") || is_word(token, "source.VillainName>") {
        // shown without the angle
        let mut k: usize = 0;
        proof {
            reveal_strlit("source.MapTeamArea>");
            reveal_strlit("source.VillainName>");
        }
        while k + 1 < token.len()
            invariant
                k + 1 <= token.len(),
                expression@ == token@.take(k as int),
            decreases token.len() - k,
        {
            expression.push(token[k]);
            assert(expression@ =~= token@.take(k + 1));
            k += 1;
        }
        assert(token@.take(token@.len() - 1) =~= token@.drop_last());
        (Some(expression), rest)
    } else if token.len() > 0 && token[token.len() - 1] == '>' {
        // a reference to a part of the token before
        push_chars(&mut expression, token);
        if rest > 0 {
            assert(lines(tokens@)[rest - 1] == tokens@[rest - 1]@);
            push_chars(&mut expression, &tokens[rest - 1]);
            (Some(expression), rest - 1)
        } else {
            (Some(expression), rest)
        }
    } else if token.len() > 0 && token[token.len() - 1] == '?' {
        // function
        push_chars(&mut expression, token);
        push_str(&mut expression, "(");
        let test = has_word(token, ".is") || has_word(token, ".Is") || begins_with(token, "is")
            || begins_with(token, "Is");
        if !test && rest > 0 {
            assert(lines(tokens@)[rest - 1] == tokens@[rest - 1]@);
            push_chars(&mut expression, &tokens[rest - 1]);
            push_str(&mut expression, ")");
            (Some(expression), rest - 1)
        } else {
            push_str(&mut expression, ")");
            proof {
                reveal_strlit("(");
                reveal_strlit(")");
                reveal_strlit("()");
                assert("("@ + ")"@ =~= "()"@);
                assert(expression@ =~= token@ + "()"@);
            }
            (Some(expression), rest)
        }
    } else {
        // some other token
        push_chars(&mut expression, token);
        (Some(expression), rest)
    }
}

/// Converts a stacked requirements expression into a concise string
/// representation: see [`requirement`].
pub fn requires_to_string(stacked: &Vec<String>) -> (r: Option<String>)
    ensures
        opt_str(r) == requirement(strings(stacked@)),
{
    let mut tokens: Vec<Vec<char>> = Vec::new();
    let mut k: usize = 0;
    while k < stacked.len()
        invariant
            k <= stacked.len(),
            tokens.len() == k,
            forall|j: int| 0 <= j < k ==> tokens@[j]@ == stacked@[j]@,
        decreases stacked.len() - k,
    {
        tokens.push(chars_of(stacked[k].as_str()));
        k += 1;
    }
    assert(lines(tokens@) =~= strings(stacked@));
    if tokens.len() == 1 && is_word(&tokens[0], "1") {
        // always evaluates to true, dump it
        return None;
    }
    let (expression, _) = requires_to_string_inner(&tokens, tokens.len());
    match expression {
        Some(e) => {
            // remove excess parens
            if begins_with(&e, "(") && e.len() > 0 && e[e.len() - 1] == ')' {
                proof {
                    reveal_strlit("(");
                    assert(e@.take(1)[0] == '(');
                    assert(e@.last() == ')');
                }
                let mut inner: Vec<char> = Vec::new();
                let mut i: usize = 1;
                assert(e@.subrange(1, 1) =~= Seq::empty());
                while i + 1 < e.len()
                    invariant
                        1 <= i,
                        i + 1 <= e.len(),
                        inner@ == e@.subrange(1, i as int),
                    decreases e.len() - i,
                {
                    inner.push(e[i]);
                    assert(inner@ =~= e@.subrange(1, i + 1));
                    i += 1;
                }
                Some(string_of(&inner))
            } else {
                Some(string_of(&e))
            }
        },
        None => None,
    }
}

} // verus!
