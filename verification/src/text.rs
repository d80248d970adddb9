//! Text helpers shared by the expansions: joining parts with a separator and
//! rendering numbers in decimal.
use vstd::prelude::*;

verus! {

/// `parts` joined by `separator`.
pub open spec fn join(parts: Seq<Seq<char>>, separator: Seq<char>) -> Seq<char>
    decreases parts.len(),
{
    if parts.len() == 0 {
        Seq::empty()
    } else if parts.len() == 1 {
        parts[0]
    } else {
        join(parts.drop_last(), separator) + separator + parts.last()
    }
}

/// Adding a part to a joined list appends the separator and the part.
pub proof fn lemma_join_push(parts: Seq<Seq<char>>, separator: Seq<char>, part: Seq<char>)
    ensures
        join(parts.push(part), separator) == if parts.len() == 0 {
            part
        } else {
            join(parts, separator) + separator + part
        },
{
    assert(parts.push(part).drop_last() =~= parts);
}

/// The decimal digit `d`.
pub open spec fn digit(d: nat) -> char {
    if d == 0 {
        '0'
    } else if d == 1 {
        '1'
    } else if d == 2 {
        '2'
    } else if d == 3 {
        '3'
    } else if d == 4 {
        '4'
    } else if d == 5 {
        '5'
    } else if d == 6 {
        '6'
    } else if d == 7 {
        '7'
    } else if d == 8 {
        '8'
    } else {
        '9'
    }
}

/// `n` written in decimal, without leading zeros.
pub open spec fn decimal(n: nat) -> Seq<char>
    decreases n,
{
    if n < 10 {
        seq![digit(n)]
    } else {
        decimal(n / 10).push(digit(n % 10))
    }
}

/// Appends `ch` to `text`.
///
/// Trusted: calls `String::push`, which std documents as appending the given
/// character to the end of the string.
#[verifier::external_body]
pub fn push_char(text: &mut String, ch: char)
    ensures
        final(text)@ == old(text)@.push(ch),
{
    text.push(ch);
}

/// The text that `name` names, compared with the literal `expected`.
pub fn text_is(name: &String, expected: &str) -> (same: bool)
    ensures
        same == (name@ == expected@),
{
    let expected_text = String::from_str(expected);
    name.eq(&expected_text)
}

/// Writes `n` in decimal.
pub fn decimal_string(n: usize) -> (text: String)
    ensures
        text@ == decimal(n as nat),
    decreases n,
{
    let mut text = if n < 10 {
        String::new()
    } else {
        decimal_string(n / 10)
    };
    let d = n % 10;
    let ch = if d == 0 {
        '0'
    } else if d == 1 {
        '1'
    } else if d == 2 {
        '2'
    } else if d == 3 {
        '3'
    } else if d == 4 {
        '4'
    } else if d == 5 {
        '5'
    } else if d == 6 {
        '6'
    } else if d == 7 {
        '7'
    } else if d == 8 {
        '8'
    } else {
        '9'
    };
    push_char(&mut text, ch);
    text
}

/// `part` occurs somewhere in `text`.
pub open spec fn contains_text(text: Seq<char>, part: Seq<char>) -> bool {
    exists|i: int| 0 <= i && i + part.len() <= text.len() && #[trigger] text.subrange(i, i + part.len()) == part
}

/// What stands between a prefix and a suffix occurs in the whole.
pub proof fn lemma_contains_middle(prefix: Seq<char>, part: Seq<char>, suffix: Seq<char>)
    ensures
        contains_text(prefix + part + suffix, part),
{
    let text = prefix + part + suffix;
    let i = prefix.len() as int;
    assert(text.subrange(i, i + part.len()) =~= part);
}

/// Joining `a + b` joins `a`, then `b`, with one separator between them.
pub proof fn lemma_join_concat(a: Seq<Seq<char>>, b: Seq<Seq<char>>, separator: Seq<char>)
    requires
        a.len() > 0,
        b.len() > 0,
    ensures
        join(a + b, separator) == join(a, separator) + separator + join(b, separator),
    decreases b.len(),
{
    assert((a + b).drop_last() =~= a + b.drop_last());
    assert((a + b).last() == b.last());
    if b.len() == 1 {
        assert(a + b.drop_last() =~= a);
    } else {
        lemma_join_concat(a, b.drop_last(), separator);
    }
}

} // verus!
