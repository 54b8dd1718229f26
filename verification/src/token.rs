//! The lexical layer: a scene description is cut into words, numbers, quoted
//! strings and brackets.

use crate::number::{lemma_number_window, number_end, scan_number};
use crate::text::{is_letter, is_space, is_word_byte, letter, space, word_byte};
use vstd::prelude::*;

verus! {

/// What a token is.
#[derive(Clone, Copy, Debug, PartialEq, Eq, Structural)]
pub enum TokenKind {
    /// A bare word: a keyword of the language.
    Word,
    /// A number literal.
    Number,
    /// A quoted string; the token spans both quotes.
    Text,
    /// The opening bracket of a value list.
    Open,
    /// The closing bracket of a value list.
    Close,
    /// No token starts here: the text is malformed from `start` on.
    Invalid,
    /// The end of the text.
    End,
}

/// A token and the bytes of the text that it spans, from `start` up to `end`.
#[derive(Clone, Copy, Debug, PartialEq, Eq, Structural)]
pub struct Token {
    pub kind: TokenKind,
    pub start: usize,
    pub end: usize,
}

/// The first index at or after `i` that holds no white space.
pub open spec fn spaces_end(s: Seq<u8>, i: int) -> int
    decreases s.len() - i,
{
    if 0 <= i < s.len() && is_space(s[i]) {
        spaces_end(s, i + 1)
    } else {
        i
    }
}

/// The first index at or after `i` that holds no word byte.
pub open spec fn word_end(s: Seq<u8>, i: int) -> int
    decreases s.len() - i,
{
    if 0 <= i < s.len() && is_word_byte(s[i]) {
        word_end(s, i + 1)
    } else {
        i
    }
}

/// The first index at or after `i` that holds a quote, or the length of the
/// text where none follows.
pub open spec fn quote_at(s: Seq<u8>, i: int) -> int
    decreases s.len() - i,
{
    if 0 <= i < s.len() && s[i] != 34 {
        quote_at(s, i + 1)
    } else {
        i
    }
}

/// The token that starts at `i`, where `i` holds a byte that is no white
/// space. A word and a number are the longest that start there; a string
/// runs to the next quote. `Invalid` where no token starts at `i`.
pub open spec fn token_at(s: Seq<u8>, i: int) -> Token {
    let b = s[i];
    if b == 91 {
        Token { kind: TokenKind::Open, start: i as usize, end: (i + 1) as usize }
    } else if b == 93 {
        Token { kind: TokenKind::Close, start: i as usize, end: (i + 1) as usize }
    } else if b == 34 {
        let q = quote_at(s, i + 1);
        if q < s.len() {
            Token { kind: TokenKind::Text, start: i as usize, end: (q + 1) as usize }
        } else {
            Token { kind: TokenKind::Invalid, start: i as usize, end: i as usize }
        }
    } else if is_letter(b) {
        Token { kind: TokenKind::Word, start: i as usize, end: word_end(s, i + 1) as usize }
    } else {
        match number_end(s, i) {
            Some(e) => Token { kind: TokenKind::Number, start: i as usize, end: e as usize },
            None => Token { kind: TokenKind::Invalid, start: i as usize, end: i as usize },
        }
    }
}

/// The tokens of `s` from index `i` on. The last of them is `End`, at the
/// length of the text, or `Invalid`, at the first byte where no token
/// starts; no other token of these kinds occurs.
pub open spec fn tokens_from(s: Seq<u8>, i: int) -> Seq<Token>
    recommends
        0 <= i <= s.len() <= usize::MAX,
    decreases s.len() - i,
    when 0 <= i <= s.len() <= usize::MAX
    via tokens_from_decreases
{
    let p = spaces_end(s, i);
    if p >= s.len() {
        seq![Token { kind: TokenKind::End, start: p as usize, end: p as usize }]
    } else {
        let t = token_at(s, p);
        if t.kind == TokenKind::Invalid {
            seq![t]
        } else {
            seq![t] + tokens_from(s, t.end as int)
        }
    }
}

#[via_fn]
proof fn tokens_from_decreases(s: Seq<u8>, i: int) {
    let p = spaces_end(s, i);
    lemma_spaces_end(s, i);
    if p < s.len() {
        lemma_token_at(s, p);
    }
}

/// The tokens of a scene description.
pub open spec fn tokens_of(s: Seq<u8>) -> Seq<Token> {
    tokens_from(s, 0)
}

pub proof fn lemma_spaces_end(s: Seq<u8>, i: int)
    requires
        0 <= i <= s.len(),
    ensures
        i <= spaces_end(s, i) <= s.len(),
        spaces_end(s, i) < s.len() ==> !is_space(s[spaces_end(s, i)]),
    decreases s.len() - i,
{
    if i < s.len() && is_space(s[i]) {
        lemma_spaces_end(s, i + 1);
    }
}

pub proof fn lemma_word_end(s: Seq<u8>, i: int)
    requires
        0 <= i <= s.len(),
    ensures
        i <= word_end(s, i) <= s.len(),
        forall|j: int| i <= j < word_end(s, i) ==> is_word_byte(#[trigger] s[j]),
    decreases s.len() - i,
{
    if i < s.len() && is_word_byte(s[i]) {
        lemma_word_end(s, i + 1);
    }
}

pub proof fn lemma_quote_at(s: Seq<u8>, i: int)
    requires
        0 <= i <= s.len(),
    ensures
        i <= quote_at(s, i) <= s.len(),
        quote_at(s, i) < s.len() ==> s[quote_at(s, i)] == 34,
    decreases s.len() - i,
{
    if i < s.len() && s[i] != 34 {
        lemma_quote_at(s, i + 1);
    }
}

/// A token that is not `Invalid` spans at least one byte of the text.
pub proof fn lemma_token_at(s: Seq<u8>, i: int)
    requires
        0 <= i < s.len() <= usize::MAX,
    ensures
        token_at(s, i).start == i,
        token_at(s, i).kind != TokenKind::End,
        token_at(s, i).kind != TokenKind::Invalid ==> i < token_at(s, i).end <= s.len(),
        token_at(s, i).kind == TokenKind::Invalid ==> token_at(s, i).end == i,
        token_at(s, i).kind == TokenKind::Text ==> i + 2 <= token_at(s, i).end,
        token_at(s, i).kind == TokenKind::Number ==> number_end(s, i) == Some(
            token_at(s, i).end as int,
        ),
{
    lemma_quote_at(s, i + 1);
    lemma_word_end(s, i + 1);
    if number_end(s, i) is Some {
        lemma_number_window(s, i, number_end(s, i)->0);
    }
}

/// The first index at or after `i` that holds no white space.
pub fn skip_spaces(s: &[u8], i: usize) -> (r: usize)
    requires
        i <= s.len(),
    ensures
        r == spaces_end(s@, i as int),
        i <= r <= s.len(),
{
    let mut k: usize = i;
    while k < s.len() && space(s[k])
        invariant
            i <= k <= s.len(),
            spaces_end(s@, i as int) == spaces_end(s@, k as int),
        decreases s.len() - k,
    {
        k += 1;
    }
    k
}

/// The first index at or after `i` that holds no word byte.
pub fn scan_word(s: &[u8], i: usize) -> (r: usize)
    requires
        i <= s.len(),
    ensures
        r == word_end(s@, i as int),
        i <= r <= s.len(),
{
    let mut k: usize = i;
    while k < s.len() && word_byte(s[k])
        invariant
            i <= k <= s.len(),
            word_end(s@, i as int) == word_end(s@, k as int),
        decreases s.len() - k,
    {
        k += 1;
    }
    k
}

/// The first index at or after `i` that holds a quote.
pub fn find_quote(s: &[u8], i: usize) -> (r: usize)
    requires
        i <= s.len(),
    ensures
        r == quote_at(s@, i as int),
        i <= r <= s.len(),
{
    let mut k: usize = i;
    while k < s.len() && s[k] != 34
        invariant
            i <= k <= s.len(),
            quote_at(s@, i as int) == quote_at(s@, k as int),
        decreases s.len() - k,
    {
        k += 1;
    }
    k
}

/// The token that starts at `i`.
pub fn read_token(s: &[u8], i: usize) -> (t: Token)
    requires
        i < s.len(),
    ensures
        t == token_at(s@, i as int),
{
    let b: u8 = s[i];
    if b == 91 {
        Token { kind: TokenKind::Open, start: i, end: i + 1 }
    } else if b == 93 {
        Token { kind: TokenKind::Close, start: i, end: i + 1 }
    } else if b == 34 {
        let q: usize = find_quote(s, i + 1);
        if q < s.len() {
            Token { kind: TokenKind::Text, start: i, end: q + 1 }
        } else {
            Token { kind: TokenKind::Invalid, start: i, end: i }
        }
    } else if letter(b) {
        Token { kind: TokenKind::Word, start: i, end: scan_word(s, i + 1) }
    } else {
        match scan_number(s, i) {
            Some(e) => Token { kind: TokenKind::Number, start: i, end: e },
            None => Token { kind: TokenKind::Invalid, start: i, end: i },
        }
    }
}

/// Cuts a scene description into its tokens.
pub fn tokenize(s: &[u8]) -> (r: Vec<Token>)
    ensures
        r@ == tokens_of(s@),
{
    let mut r: Vec<Token> = Vec::new();
    let mut i: usize = 0;
    loop
        invariant
            i <= s.len(),
            tokens_of(s@) == r@ + tokens_from(s@, i as int),
        decreases s.len() - i,
    {
        let p: usize = skip_spaces(s, i);
        if p >= s.len() {
            r.push(Token { kind: TokenKind::End, start: p, end: p });
            assert(r@ =~= tokens_of(s@));
            return r;
        }
        let t: Token = read_token(s, p);
        proof {
            lemma_token_at(s@, p as int);
        }
        let ghost before = r@;
        r.push(t);
        if t.kind == TokenKind::Invalid {
            assert(r@ =~= tokens_of(s@));
            return r;
        }
        assert(r@ + tokens_from(s@, t.end as int) =~= before + (seq![t] + tokens_from(
            s@,
            t.end as int,
        )));
        i = t.end;
    }
}

} // verus!
