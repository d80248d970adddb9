//! The token model that the `client!` and `Depends` expansions read, and the
//! token-level helpers they share.
//!
//! A token carries exactly what the expansions inspect: an identifier's text,
//! a punctuation character with its spacing, a literal's text, or a delimited
//! group with its inner tokens and its rendered text.
use crate::text::{push_char, text_is};
use vstd::prelude::*;

verus! {

/// How a group of tokens is delimited.
#[derive(Clone, Copy, Debug, PartialEq, Eq, Structural)]
pub enum Delimiter {
    Parenthesis,
    Brace,
    Bracket,
    /// No visible delimiter.
    Invisible,
}

/// Whether a punctuation character is directly followed by another one.
#[derive(Clone, Copy, Debug, PartialEq, Eq, Structural)]
pub enum Spacing {
    Alone,
    Joint,
}

/// One token of a macro input.
#[derive(Debug)]
pub enum TokenTree {
    /// A delimited group: its delimiter, its inner tokens and its rendered text.
    Group(Delimiter, Vec<TokenTree>, String),
    /// An identifier, by its text.
    Ident(String),
    /// A punctuation character and its spacing.
    Punct(char, Spacing),
    /// A literal, by its source text.
    Literal(String),
}

/// The text a token renders as.
pub open spec fn token_text(token: TokenTree) -> Seq<char> {
    match token {
        TokenTree::Group(_, _, text) => text@,
        TokenTree::Ident(name) => name@,
        TokenTree::Punct(ch, _) => seq![ch],
        TokenTree::Literal(text) => text@,
    }
}

/// `token` is the identifier `name`.
pub open spec fn is_ident_named(token: TokenTree, name: Seq<char>) -> bool {
    token matches TokenTree::Ident(text) && text@ == name
}

/// `token` is the punctuation character `ch`, whatever its spacing.
pub open spec fn is_punct_char(token: TokenTree, ch: char) -> bool {
    token matches TokenTree::Punct(c, _) && c == ch
}

/// The index of the first identifier `name` at or after `from`.
pub open spec fn first_ident(tokens: Seq<TokenTree>, name: Seq<char>, from: int) -> Option<int>
    decreases tokens.len() - from,
{
    if from < 0 || from >= tokens.len() {
        None
    } else if is_ident_named(tokens[from], name) {
        Some(from)
    } else {
        first_ident(tokens, name, from + 1)
    }
}

/// The index of the first punctuation character `ch` at or after `from`.
pub open spec fn first_punct(tokens: Seq<TokenTree>, ch: char, from: int) -> Option<int>
    decreases tokens.len() - from,
{
    if from < 0 || from >= tokens.len() {
        None
    } else if is_punct_char(tokens[from], ch) {
        Some(from)
    } else {
        first_punct(tokens, ch, from + 1)
    }
}

/// The text of the last identifier among the first `end` tokens.
pub open spec fn last_ident_before(tokens: Seq<TokenTree>, end: int) -> Option<Seq<char>>
    decreases end,
{
    if end <= 0 || end > tokens.len() {
        None
    } else {
        match tokens[end - 1] {
            TokenTree::Ident(name) => Some(name@),
            _ => last_ident_before(tokens, end - 1),
        }
    }
}

/// The texts of `tokens`, separated by single spaces.
pub open spec fn joined_text(tokens: Seq<TokenTree>) -> Seq<char>
    decreases tokens.len(),
{
    if tokens.len() == 0 {
        Seq::empty()
    } else if tokens.len() == 1 {
        token_text(tokens[0])
    } else {
        joined_text(tokens.drop_last()) + seq![' '] + token_text(tokens.last())
    }
}

/// The texts of `tokens` laid out in this library's stream layout: a single
/// space between two tokens, except after a punctuation character that is
/// joined to the next.
pub open spec fn stream_text(tokens: Seq<TokenTree>) -> Seq<char>
    decreases tokens.len(),
{
    if tokens.len() == 0 {
        Seq::empty()
    } else if tokens.len() == 1 {
        token_text(tokens[0])
    } else if tokens[tokens.len() - 2] matches TokenTree::Punct(_, Spacing::Joint) {
        stream_text(tokens.drop_last()) + token_text(tokens.last())
    } else {
        stream_text(tokens.drop_last()) + seq![' '] + token_text(tokens.last())
    }
}

/// `token` starts a two-character arrow: a `-` or `=` joined to the next
/// character, so that a `>` right after it belongs to `->` or `=>`.
pub open spec fn starts_arrow(token: TokenTree) -> bool {
    token matches TokenTree::Punct(c, Spacing::Joint) && (c == '-' || c == '=')
}

/// The angle-bracket depth after reading `token`, which follows a token that
/// starts an arrow when `after_arrow_start` holds: a `<` opens a bracket, a
/// `>` closes one unless it is the end of `->` or `=>`, and a `>` with
/// nothing open leaves the depth at zero.
pub open spec fn angle_step(depth: nat, after_arrow_start: bool, token: TokenTree) -> nat {
    if is_punct_char(token, '<') {
        depth + 1
    } else if is_punct_char(token, '>') && !after_arrow_start {
        if depth > 0 {
            (depth - 1) as nat
        } else {
            0
        }
    } else {
        depth
    }
}

/// `token` separates pieces: it is `separator`, standing alone, outside any
/// angle brackets.
pub open spec fn separates(token: TokenTree, separator: char, depth: nat) -> bool {
    token matches TokenTree::Punct(c, Spacing::Alone) && c == separator && depth == 0
}

/// The state after scanning `tokens` for top-level separators: the finished
/// pieces, the piece being collected and the angle-bracket depth.
pub open spec fn split_scan(tokens: Seq<TokenTree>, separator: char) -> (
    Seq<Seq<TokenTree>>,
    Seq<TokenTree>,
    nat,
)
    decreases tokens.len(),
{
    if tokens.len() == 0 {
        (Seq::empty(), Seq::empty(), 0)
    } else {
        let (pieces, current, depth) = split_scan(tokens.drop_last(), separator);
        let token = tokens.last();
        if separates(token, separator, depth) {
            if current.len() > 0 {
                (pieces.push(current), Seq::empty(), depth)
            } else {
                (pieces, current, depth)
            }
        } else {
            let after_arrow_start = tokens.len() >= 2 && starts_arrow(tokens[tokens.len() - 2]);
            (pieces, current.push(token), angle_step(depth, after_arrow_start, token))
        }
    }
}

/// `tokens` cut at every top-level `separator`, empty pieces dropped.
pub open spec fn split_pieces(tokens: Seq<TokenTree>, separator: char) -> Seq<Seq<TokenTree>> {
    let (pieces, current, _) = split_scan(tokens, separator);
    if current.len() > 0 {
        pieces.push(current)
    } else {
        pieces
    }
}

/// The contents of a list of token lists.
pub open spec fn lists_view(lists: Seq<Vec<TokenTree>>) -> Seq<Seq<TokenTree>> {
    lists.map_values(|list: Vec<TokenTree>| list@)
}

/// A text result by the views of its strings.
pub open spec fn text_result(result: Result<String, String>) -> Result<Seq<char>, Seq<char>> {
    match result {
        Ok(text) => Ok(text@),
        Err(message) => Err(message@),
    }
}

/// What `ident_at` gives: the identifier at `index`, or the message that one
/// was expected.
pub open spec fn ident_at_result(tokens: Seq<TokenTree>, index: int, expected: Seq<char>) -> Result<
    Seq<char>,
    Seq<char>,
> {
    if 0 <= index < tokens.len() {
        match tokens[index] {
            TokenTree::Ident(name) => Ok(name@),
            _ => Err("expected "@ + expected),
        }
    } else {
        Err("expected "@ + expected)
    }
}

/// `tokens[index]` is `#` and `tokens[index + 1]` is a bracketed group whose
/// first token is the identifier `name`: the attribute `#[name ...]`.
pub open spec fn is_attribute(tokens: Seq<TokenTree>, index: int, name: Seq<char>) -> bool {
    &&& 0 <= index
    &&& index + 1 < tokens.len()
    &&& is_punct_char(tokens[index], '#')
    &&& tokens[index + 1] matches TokenTree::Group(Delimiter::Bracket, inner, _)
    &&& inner@.len() > 0
    &&& is_ident_named(inner@[0], name)
}

/// Returns `true` when the token is an identifier matching `expected`.
pub fn is_ident(token: &TokenTree, expected: &str) -> (matches: bool)
    ensures
        matches == is_ident_named(*token, expected@),
{
    match token {
        TokenTree::Ident(name) => text_is(name, expected),
        _ => false,
    }
}

/// Returns `true` when the token is the punctuation character `ch`.
pub fn is_punct(token: &TokenTree, ch: char) -> (matches: bool)
    ensures
        matches == is_punct_char(*token, ch),
{
    match token {
        TokenTree::Punct(c, _) => *c == ch,
        _ => false,
    }
}

/// Appends the text of `token` to `out`.
pub fn push_token_text(out: &mut String, token: &TokenTree)
    ensures
        final(out)@ == old(out)@ + token_text(*token),
{
    match token {
        TokenTree::Group(_, _, text) => out.append(text.as_str()),
        TokenTree::Ident(name) => out.append(name.as_str()),
        TokenTree::Punct(ch, _) => {
            push_char(out, *ch);
            assert(out@ =~= old(out)@ + seq![*ch]);
        },
        TokenTree::Literal(text) => out.append(text.as_str()),
    }
}

/// Serializes a token slice into a whitespace-normalized source fragment:
/// the token texts joined by single spaces.
pub fn tokens_to_string(tokens: &[TokenTree]) -> (text: String)
    ensures
        text@ == joined_text(tokens@),
{
    let mut out = String::new();
    let mut i: usize = 0;
    while i < tokens.len()
        invariant
            i <= tokens@.len(),
            out@ == joined_text(tokens@.take(i as int)),
        decreases tokens@.len() - i,
    {
        if i > 0 {
            push_char(&mut out, ' ');
        }
        push_token_text(&mut out, &tokens[i]);
        assert(tokens@.take(i + 1).drop_last() =~= tokens@.take(i as int));
        assert(tokens@.take(i + 1).last() == tokens@[i as int]);
        i = i + 1;
    }
    assert(tokens@.take(tokens@.len() as int) =~= tokens@);
    out
}

/// Renders a token slice the way a token stream prints: single spaces
/// between tokens, none after a joined punctuation character.
pub fn stream_to_string(tokens: &[TokenTree]) -> (text: String)
    ensures
        text@ == stream_text(tokens@),
{
    let mut out = String::new();
    let mut i: usize = 0;
    while i < tokens.len()
        invariant
            i <= tokens@.len(),
            out@ == stream_text(tokens@.take(i as int)),
        decreases tokens@.len() - i,
    {
        if i > 0 {
            let joint = match &tokens[i - 1] {
                TokenTree::Punct(_, Spacing::Joint) => true,
                _ => false,
            };
            if !joint {
                push_char(&mut out, ' ');
            }
        }
        push_token_text(&mut out, &tokens[i]);
        assert(tokens@.take(i + 1).drop_last() =~= tokens@.take(i as int));
        assert(tokens@.take(i + 1).last() == tokens@[i as int]);
        i = i + 1;
    }
    assert(tokens@.take(tokens@.len() as int) =~= tokens@);
    out
}

/// The index of the first identifier `name`.
pub fn position_of_ident(tokens: &[TokenTree], name: &str) -> (index: Option<usize>)
    ensures
        index matches Some(i) ==> first_ident(tokens@, name@, 0) == Some(i as int) && i
            < tokens@.len() && is_ident_named(tokens@[i as int], name@),
        index is None ==> first_ident(tokens@, name@, 0) is None,
{
    let mut i: usize = 0;
    while i < tokens.len()
        invariant
            i <= tokens@.len(),
            first_ident(tokens@, name@, 0) == first_ident(tokens@, name@, i as int),
        decreases tokens@.len() - i,
    {
        if is_ident(&tokens[i], name) {
            return Some(i);
        }
        i = i + 1;
    }
    None
}

/// The index of the first punctuation character `ch`.
pub fn position_of_punct(tokens: &[TokenTree], ch: char) -> (index: Option<usize>)
    ensures
        index matches Some(i) ==> first_punct(tokens@, ch, 0) == Some(i as int) && i
            < tokens@.len() && is_punct_char(tokens@[i as int], ch),
        index is None ==> first_punct(tokens@, ch, 0) is None,
{
    let mut i: usize = 0;
    while i < tokens.len()
        invariant
            i <= tokens@.len(),
            first_punct(tokens@, ch, 0) == first_punct(tokens@, ch, i as int),
        decreases tokens@.len() - i,
    {
        if is_punct(&tokens[i], ch) {
            return Some(i);
        }
        i = i + 1;
    }
    None
}

/// The text of the last identifier before `end`.
pub fn last_ident_text(tokens: &[TokenTree], end: usize) -> (name: Option<String>)
    requires
        end <= tokens@.len(),
    ensures
        match name {
            Some(text) => last_ident_before(tokens@, end as int) == Some(text@),
            None => last_ident_before(tokens@, end as int) is None,
        },
{
    let mut i = end;
    while i > 0
        invariant
            i <= end <= tokens@.len(),
            last_ident_before(tokens@, end as int) == last_ident_before(tokens@, i as int),
        decreases i,
    {
        match &tokens[i - 1] {
            TokenTree::Ident(text) => {
                return Some(text.clone());
            },
            _ => {},
        }
        i = i - 1;
    }
    None
}

/// Reads an identifier from a token slice at a specific index.
pub fn ident_at(tokens: &[TokenTree], index: usize, expected: &str) -> (result: Result<
    String,
    String,
>)
    ensures
        text_result(result) == ident_at_result(tokens@, index as int, expected@),
{
    if index < tokens.len() {
        match &tokens[index] {
            TokenTree::Ident(name) => {
                return Ok(name.clone());
            },
            _ => {},
        }
    }
    let mut message = String::from_str("expected ");
    message.append(expected);
    Err(message)
}

/// Returns `true` when the tokens at `index` spell the attribute `#[name ...]`.
pub fn matches_attribute(tokens: &[TokenTree], index: usize, name: &str) -> (matches: bool)
    ensures
        matches == is_attribute(tokens@, index as int, name@),
{
    if index >= tokens.len() || index + 1 >= tokens.len() {
        return false;
    }
    if !is_punct(&tokens[index], '#') {
        return false;
    }
    match &tokens[index + 1] {
        TokenTree::Group(Delimiter::Bracket, inner, _) => {
            if inner.len() == 0 {
                false
            } else {
                is_ident(&inner[0], name)
            }
        },
        _ => false,
    }
}

/// Returns `true` when the tokens at `index` spell `#[dep]`.
pub fn matches_dep_attribute(tokens: &[TokenTree], index: usize) -> (matches: bool)
    ensures
        matches == is_attribute(tokens@, index as int, "dep"@),
{
    matches_attribute(tokens, index, "dep")
}

/// Splits a token list at a top-level punctuation separator.
///
/// Token groups already isolate parentheses, brackets and braces, but generic
/// type arguments are raw punctuation, so this also tracks angle-bracket
/// nesting in order not to split commas inside types like
/// `Vec<Result<T, E>>` or `HashMap<fn() -> u8, u8>`: the `>` of an arrow
/// (`->`, `=>`) closes no bracket. Empty pieces are dropped.
pub fn split_top_level(stream: Vec<TokenTree>, separator: char) -> (pieces: Vec<Vec<TokenTree>>)
    ensures
        lists_view(pieces@) == split_pieces(stream@, separator),
{
    let ghost all = stream@;
    let total = stream.len();
    let mut items: Vec<Vec<TokenTree>> = Vec::new();
    let mut current: Vec<TokenTree> = Vec::new();
    let mut angle_depth: usize = 0;
    let mut after_arrow_start = false;
    let ghost mut seen: int = 0;
    for token in it: stream.into_iter()
        invariant
            it.seq() == all,
            all.len() == total,
            seen == it.index(),
            seen <= all.len(),
            angle_depth <= seen,
            after_arrow_start == (seen > 0 && starts_arrow(all[seen - 1])),
            split_scan(all.take(seen as int), separator) == (
                lists_view(items@),
                current@,
                angle_depth as nat,
            ),
    {
        assert(seen < all.len());
        proof {
            assert(all.take(seen + 1).drop_last() =~= all.take(seen as int));
            assert(all.take(seen + 1).last() == all[seen as int]);
        }
        let should_split = match &token {
            TokenTree::Punct(ch, Spacing::Alone) => *ch == separator && angle_depth == 0,
            _ => false,
        };
        if should_split {
            if current.len() > 0 {
                let ghost before = items@;
                items.push(current);
                current = Vec::new();
                proof {
                    assert(lists_view(items@) =~= lists_view(before).push(
                        split_scan(all.take(seen as int), separator).1,
                    ));
                    assert(current@ =~= Seq::<TokenTree>::empty());
                }
            }
        } else {
            match &token {
                TokenTree::Punct(ch, _) => {
                    if *ch == '<' {
                        angle_depth = angle_depth + 1;
                    } else if *ch == '>' && !after_arrow_start {
                        if angle_depth > 0 {
                            angle_depth = angle_depth - 1;
                        }
                    }
                },
                _ => {},
            }
        }
        after_arrow_start = match &token {
            TokenTree::Punct(ch, Spacing::Joint) => *ch == '-' || *ch == '=',
            _ => false,
        };
        if !should_split {
            current.push(token);
        }
        proof {
            seen = seen + 1;
        }
    }
    proof {
        assert(all.take(all.len() as int) =~= all);
    }
    if current.len() > 0 {
        let ghost before = items@;
        items.push(current);
        proof {
            assert(lists_view(items@) =~= lists_view(before).push(split_scan(all, separator).1));
        }
    }
    items
}

/// Scanning never finishes an empty piece.
proof fn lemma_scan_pieces_nonempty(tokens: Seq<TokenTree>, separator: char)
    ensures
        forall|i: int|
            0 <= i < split_scan(tokens, separator).0.len() ==> #[trigger] split_scan(
                tokens,
                separator,
            ).0[i].len() > 0,
    decreases tokens.len(),
{
    if tokens.len() > 0 {
        lemma_scan_pieces_nonempty(tokens.drop_last(), separator);
        let prev = split_scan(tokens.drop_last(), separator);
        let now = split_scan(tokens, separator);
        assert forall|i: int| 0 <= i < now.0.len() implies #[trigger] now.0[i].len() > 0 by {
            if i < prev.0.len() {
                assert(now.0[i] == prev.0[i]);
            }
        }
    }
}

/// Splitting never yields an empty piece.
pub proof fn lemma_split_pieces_nonempty(tokens: Seq<TokenTree>, separator: char)
    ensures
        forall|i: int|
            0 <= i < split_pieces(tokens, separator).len() ==> #[trigger] split_pieces(
                tokens,
                separator,
            )[i].len() > 0,
{
    lemma_scan_pieces_nonempty(tokens, separator);
}

/// A token list in which no token separates at the top level (for example a
/// comma inside `Vec<Result<T, E>>`) is kept as one piece.
pub proof fn lemma_no_top_level_separator_keeps_one_piece(tokens: Seq<TokenTree>, separator: char)
    requires
        tokens.len() > 0,
        forall|i: int|
            0 <= i < tokens.len() ==> !separates(
                #[trigger] tokens[i],
                separator,
                split_scan(tokens.take(i), separator).2,
            ),
    ensures
        split_pieces(tokens, separator) == seq![tokens],
{
    lemma_scan_keeps_everything(tokens, separator, tokens.len() as int);
    assert(tokens.take(tokens.len() as int) =~= tokens);
}

/// Without a top-level separator among the first `n` tokens, the scan has
/// finished no piece and collects exactly those tokens.
proof fn lemma_scan_keeps_everything(tokens: Seq<TokenTree>, separator: char, n: int)
    requires
        0 <= n <= tokens.len(),
        forall|i: int|
            0 <= i < tokens.len() ==> !separates(
                #[trigger] tokens[i],
                separator,
                split_scan(tokens.take(i), separator).2,
            ),
    ensures
        split_scan(tokens.take(n), separator).0.len() == 0,
        split_scan(tokens.take(n), separator).1 == tokens.take(n),
    decreases n,
{
    if n > 0 {
        lemma_scan_keeps_everything(tokens, separator, n - 1);
        assert(tokens.take(n).drop_last() =~= tokens.take(n - 1));
        assert(tokens.take(n).last() == tokens[n - 1]);
        assert(tokens.take(n - 1).push(tokens[n - 1]) =~= tokens.take(n));
    } else {
        assert(tokens.take(0) =~= Seq::<TokenTree>::empty());
    }
}

/// Laying out `a + b` lays out `a`, then `b`, with nothing between them when
/// `a` ends with a joined punctuation character and a single space otherwise.
pub proof fn lemma_stream_text_concat(a: Seq<TokenTree>, b: Seq<TokenTree>)
    requires
        a.len() > 0,
        b.len() > 0,
    ensures
        stream_text(a + b) == stream_text(a) + (if a.last() matches TokenTree::Punct(_, Spacing::Joint) {
            Seq::<char>::empty()
        } else {
            seq![' ']
        }) + stream_text(b),
    decreases b.len(),
{
    let ab = a + b;
    assert(ab.drop_last() =~= a + b.drop_last());
    assert(ab.last() == b.last());
    if b.len() == 1 {
        assert(a + b.drop_last() =~= a);
        assert(ab[ab.len() - 2] == a.last());
        assert(stream_text(b) == token_text(b[0]));
    } else {
        lemma_stream_text_concat(a, b.drop_last());
        assert(ab[ab.len() - 2] == b[b.len() - 2]);
    }
}

/// Laying out `a + b` puts exactly one space between the text of `a` and
/// that of `b`, whatever the spacing of the tokens.
pub proof fn lemma_joined_text_concat(a: Seq<TokenTree>, b: Seq<TokenTree>)
    requires
        a.len() > 0,
        b.len() > 0,
    ensures
        joined_text(a + b) == joined_text(a) + seq![' '] + joined_text(b),
    decreases b.len(),
{
    let ab = a + b;
    assert(ab.drop_last() =~= a + b.drop_last());
    assert(ab.last() == b.last());
    if b.len() == 1 {
        assert(a + b.drop_last() =~= a);
    } else {
        lemma_joined_text_concat(a, b.drop_last());
    }
}

/// `first_punct` finds the first `ch` at or after `from`: every token before
/// it is something else, and `None` means no token from `from` on is `ch`.
pub proof fn lemma_first_punct_is_first(tokens: Seq<TokenTree>, ch: char, from: int)
    requires
        0 <= from,
    ensures
        first_punct(tokens, ch, from) matches Some(k) ==> from <= k < tokens.len()
            && is_punct_char(tokens[k], ch) && forall|i: int|
            from <= i < k ==> !#[trigger] is_punct_char(tokens[i], ch),
        first_punct(tokens, ch, from) is None ==> forall|i: int|
            from <= i < tokens.len() ==> !#[trigger] is_punct_char(tokens[i], ch),
    decreases tokens.len() - from,
{
    if from < tokens.len() && !is_punct_char(tokens[from], ch) {
        lemma_first_punct_is_first(tokens, ch, from + 1);
    }
}

/// `last_ident_before` finds the last identifier among the first `end`
/// tokens: no identifier stands after it, and `None` means there is none.
pub proof fn lemma_last_ident_before_is_last(tokens: Seq<TokenTree>, end: int)
    requires
        0 <= end <= tokens.len(),
    ensures
        last_ident_before(tokens, end) matches Some(name) ==> exists|j: int|
            0 <= j < end && (#[trigger] tokens[j] matches TokenTree::Ident(text) && text@ == name)
                && forall|i: int| j < i < end ==> !(#[trigger] tokens[i] is Ident),
        last_ident_before(tokens, end) is None ==> forall|i: int|
            0 <= i < end ==> !(#[trigger] tokens[i] is Ident),
    decreases end,
{
    if end > 0 {
        if !(tokens[end - 1] is Ident) {
            lemma_last_ident_before_is_last(tokens, end - 1);
            if last_ident_before(tokens, end) is Some {
                let name = last_ident_before(tokens, end)->Some_0;
                let j = choose|j: int|
                    0 <= j < end - 1 && (#[trigger] tokens[j] matches TokenTree::Ident(text)
                        && text@ == name) && forall|i: int|
                        j < i < end - 1 ==> !(#[trigger] tokens[i] is Ident);
                assert(forall|i: int| j < i < end ==> !(#[trigger] tokens[i] is Ident));
            }
        } else {
            let j = end - 1;
            assert(tokens[j] matches TokenTree::Ident(text) && text@ == last_ident_before(tokens, end)->Some_0);
        }
    }
}

} // verus!
