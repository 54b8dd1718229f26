//! The grammar of the scene language, stated over the tokens of a text.
//!
//! ```text
//! scene      := statement* "WorldEnd" END
//! statement  := "LookAt" NUMBER*9 | "Rotate" NUMBER*4
//!             | "Translate" NUMBER*3 | "Scale" NUMBER*3
//!             | "ConcatTransform" "[" NUMBER*16 "]"
//!             | "Identity" | "AttributeBegin" | "AttributeEnd"
//!             | "TransformBegin" | "TransformEnd" | "WorldBegin"
//!             | OBJECT name param*
//!             | "Texture" name name name param*
//!             | "NamedMaterial" name
//!             | STUB argument*
//! param      := declaration ( "[" value+ "]" | name )
//! argument   := value | "[" value* "]"
//! value      := NUMBER | name
//! ```
//!
//! A name is a quoted string that holds a letter followed by word bytes and
//! dots. A declaration is a quoted string that holds one identifier, the
//! type, or two that white space separates, the type and the name.

use crate::directive::{keyword_of, DirectiveView, Keyword, StatementView};
use crate::error::SceneError;
use crate::number::number_end;
use crate::params::{RawParamView, RawValueView};
use crate::text::{is_letter, is_name};
use crate::token::{
    lemma_spaces_end, lemma_token_at, spaces_end, token_at, tokens_from, tokens_of, word_end,
    Token, TokenKind,
};
use crate::transform::{transform_arity, TransformKind};
use vstd::prelude::*;

verus! {

/// Whether a token kind ends a token list.
pub open spec fn is_final(kind: TokenKind) -> bool {
    kind == TokenKind::End || kind == TokenKind::Invalid
}

/// What holds of the tokens of a text: the list ends with its only `End` or
/// `Invalid` token, every token lies inside the text, a string token spans
/// its two quotes, and a number token spans a number literal.
#[verifier::opaque]
pub open spec fn wf_tokens(s: Seq<u8>, toks: Seq<Token>) -> bool {
    &&& toks.len() >= 1
    &&& is_final(toks.last().kind)
    &&& forall|i: int|
        0 <= i < toks.len() ==> {
            &&& (#[trigger] toks[i]).start <= toks[i].end <= s.len()
            &&& i < toks.len() - 1 ==> !is_final(toks[i].kind)
            &&& toks[i].kind == TokenKind::Text ==> toks[i].start + 2 <= toks[i].end
            &&& toks[i].kind == TokenKind::Number ==> number_end(s, toks[i].start as int) == Some(
                toks[i].end as int,
            )
        }
}

/// The bytes that a token spans.
pub open spec fn token_text(s: Seq<u8>, t: Token) -> Seq<u8> {
    s.subrange(t.start as int, t.end as int)
}

/// The bytes between the quotes of a string token.
pub open spec fn quoted(s: Seq<u8>, t: Token) -> Seq<u8> {
    s.subrange(t.start + 1, t.end - 1)
}

/// The kind of the token at index `k`.
pub open spec fn kind_at(toks: Seq<Token>, k: int) -> TokenKind {
    if 0 <= k < toks.len() {
        toks[k].kind
    } else {
        TokenKind::End
    }
}

/// The byte offset of the token at index `k`.
pub open spec fn start_at(toks: Seq<Token>, k: int) -> usize {
    if 0 <= k < toks.len() {
        toks[k].start
    } else {
        0
    }
}

/// Whether the token at index `k` is a name.
pub open spec fn is_name_at(s: Seq<u8>, toks: Seq<Token>, k: int) -> bool {
    kind_at(toks, k) == TokenKind::Text && is_name(quoted(s, toks[k]))
}

/// Whether the token at index `k` is a value: a number or a name.
pub open spec fn is_value_at(s: Seq<u8>, toks: Seq<Token>, k: int) -> bool {
    kind_at(toks, k) == TokenKind::Number || is_name_at(s, toks, k)
}

/// The value that the token at index `k` is.
pub open spec fn value_at(s: Seq<u8>, toks: Seq<Token>, k: int) -> RawValueView {
    if toks[k].kind == TokenKind::Number {
        RawValueView::Number { position: toks[k].start, value: token_text(s, toks[k]) }
    } else {
        RawValueView::Text { position: toks[k].start, value: quoted(s, toks[k]) }
    }
}

/// The first index from `k` on that holds no number token, or `k + n` where
/// `n` numbers follow.
pub open spec fn numbers_stop(toks: Seq<Token>, k: int, n: nat) -> int
    decreases n,
{
    if n > 0 && kind_at(toks, k) == TokenKind::Number {
        numbers_stop(toks, k + 1, (n - 1) as nat)
    } else {
        k
    }
}

/// The first index from `k` on that holds no value.
pub open spec fn values_stop(s: Seq<u8>, toks: Seq<Token>, k: int) -> int
    decreases toks.len() - k,
{
    if is_value_at(s, toks, k) {
        values_stop(s, toks, k + 1)
    } else {
        k
    }
}

/// Exactly `n` numbers from index `k` on: their literals and the index
/// after them, or the offset of the first token that is no number.
pub open spec fn numbers_at(s: Seq<u8>, toks: Seq<Token>, k: int, n: nat) -> Result<
    (Seq<Seq<u8>>, int),
    usize,
> {
    let e = numbers_stop(toks, k, n);
    if e == k + n {
        Ok((Seq::new(n, |i: int| token_text(s, toks[k + i])), e))
    } else {
        Err(start_at(toks, e))
    }
}

/// A name at index `k`: what it holds and the index after it.
pub open spec fn name_at(s: Seq<u8>, toks: Seq<Token>, k: int) -> Result<(Seq<u8>, int), usize> {
    if is_name_at(s, toks, k) {
        Ok((quoted(s, toks[k]), k + 1))
    } else {
        Err(start_at(toks, k))
    }
}

/// The type and the name that a declaration holds; the name is empty where
/// the declaration holds the type alone.
pub open spec fn split_declaration(d: Seq<u8>) -> Option<(Seq<u8>, Seq<u8>)> {
    if d.len() > 0 && is_letter(d[0]) {
        let w = word_end(d, 1);
        if w == d.len() {
            Some((d, Seq::empty()))
        } else {
            let b = spaces_end(d, w);
            if w < b < d.len() && is_letter(d[b]) && word_end(d, b + 1) == d.len() {
                Some((d.subrange(0, w), d.subrange(b, d.len() as int)))
            } else {
                None
            }
        }
    } else {
        None
    }
}

/// The values from index `from` up to `to`.
pub open spec fn values_between(s: Seq<u8>, toks: Seq<Token>, from: int, to: int) -> Seq<
    RawValueView,
> {
    Seq::new((to - from) as nat, |i: int| value_at(s, toks, from + i))
}

/// A parameter that starts with the string token at index `k`: the
/// declaration, then a bracketed list of at least one value or a single
/// name.
pub open spec fn param_at(s: Seq<u8>, toks: Seq<Token>, k: int) -> Result<
    (RawParamView, int),
    usize,
> {
    match split_declaration(quoted(s, toks[k])) {
        None => Err(start_at(toks, k)),
        Some((declared, name)) => {
            if kind_at(toks, k + 1) == TokenKind::Open {
                let e = values_stop(s, toks, k + 2);
                if e > k + 2 && kind_at(toks, e) == TokenKind::Close {
                    Ok(
                        (
                            RawParamView {
                                declared,
                                name,
                                values: values_between(s, toks, k + 2, e),
                            },
                            e + 1,
                        ),
                    )
                } else {
                    Err(start_at(toks, e))
                }
            } else if is_name_at(s, toks, k + 1) {
                Ok(
                    (
                        RawParamView {
                            declared,
                            name,
                            values: values_between(s, toks, k + 1, k + 2),
                        },
                        k + 2,
                    ),
                )
            } else {
                Err(start_at(toks, k + 1))
            }
        },
    }
}

/// The parameters from index `k` on, behind those of `acc`: a parameter
/// starts with every string token, and the list ends before the first token
/// of another kind.
pub open spec fn params_from(
    s: Seq<u8>,
    toks: Seq<Token>,
    k: int,
    acc: Seq<RawParamView>,
) -> Result<(Seq<RawParamView>, int), usize>
    decreases toks.len() - k,
    via params_from_decreases
{
    if kind_at(toks, k) == TokenKind::Text {
        match param_at(s, toks, k) {
            Err(p) => Err(p),
            Ok((param, next)) => params_from(s, toks, next, acc.push(param)),
        }
    } else {
        Ok((acc, k))
    }
}

#[via_fn]
proof fn params_from_decreases(s: Seq<u8>, toks: Seq<Token>, k: int, acc: Seq<RawParamView>) {
    if kind_at(toks, k) == TokenKind::Text {
        lemma_param_at(s, toks, k);
    }
}

/// The index after the arguments of a directive that is passed over.
pub open spec fn arguments_end(s: Seq<u8>, toks: Seq<Token>, k: int) -> Result<int, usize>
    decreases toks.len() - k,
    via arguments_end_decreases
{
    if is_value_at(s, toks, k) {
        arguments_end(s, toks, k + 1)
    } else if kind_at(toks, k) == TokenKind::Open {
        let e = values_stop(s, toks, k + 1);
        if kind_at(toks, e) == TokenKind::Close {
            arguments_end(s, toks, e + 1)
        } else {
            Err(start_at(toks, e))
        }
    } else {
        Ok(k)
    }
}

#[via_fn]
proof fn arguments_end_decreases(s: Seq<u8>, toks: Seq<Token>, k: int) {
    if 0 <= k < toks.len() {
        lemma_values_stop(s, toks, k + 1);
    }
}

/// The arguments of the directive whose keyword stands before index `k`:
/// the directive and the index after it.
#[verifier::opaque]
pub open spec fn statement_at(s: Seq<u8>, toks: Seq<Token>, k: int, keyword: Keyword) -> Result<
    (DirectiveView, int),
    usize,
> {
    match keyword {
        Keyword::Compose(TransformKind::Concat) => {
            if kind_at(toks, k) == TokenKind::Open {
                match numbers_at(s, toks, k + 1, 16) {
                    Err(p) => Err(p),
                    Ok((args, e)) => {
                        if kind_at(toks, e) == TokenKind::Close {
                            Ok(
                                (
                                    DirectiveView::Compose {
                                        transform: TransformKind::Concat,
                                        args,
                                    },
                                    e + 1,
                                ),
                            )
                        } else {
                            Err(start_at(toks, e))
                        }
                    },
                }
            } else {
                Err(start_at(toks, k))
            }
        },
        Keyword::Compose(transform) => {
            match numbers_at(s, toks, k, transform_arity(transform)) {
                Err(p) => Err(p),
                Ok((args, e)) => Ok((DirectiveView::Compose { transform, args }, e)),
            }
        },
        Keyword::Identity => Ok((DirectiveView::Identity, k)),
        Keyword::AttributeBegin => Ok((DirectiveView::AttributeBegin, k)),
        Keyword::AttributeEnd => Ok((DirectiveView::AttributeEnd, k)),
        Keyword::TransformBegin => Ok((DirectiveView::TransformBegin, k)),
        Keyword::TransformEnd => Ok((DirectiveView::TransformEnd, k)),
        Keyword::WorldBegin => Ok((DirectiveView::WorldBegin, k)),
        Keyword::WorldEnd => Ok((DirectiveView::WorldEnd, k)),
        Keyword::Object(object) => {
            match name_at(s, toks, k) {
                Err(p) => Err(p),
                Ok((name, k1)) => match params_from(s, toks, k1, Seq::empty()) {
                    Err(p) => Err(p),
                    Ok((params, e)) => Ok((DirectiveView::Object { object, name, params }, e)),
                },
            }
        },
        Keyword::Texture => {
            match name_at(s, toks, k) {
                Err(p) => Err(p),
                Ok((name, k1)) => match name_at(s, toks, k1) {
                    Err(p) => Err(p),
                    Ok((value_type, k2)) => match name_at(s, toks, k2) {
                        Err(p) => Err(p),
                        Ok((class, k3)) => match params_from(s, toks, k3, Seq::empty()) {
                            Err(p) => Err(p),
                            Ok((params, e)) => Ok(
                                (DirectiveView::Texture { name, value_type, class, params }, e),
                            ),
                        },
                    },
                },
            }
        },
        Keyword::NamedMaterial => {
            match name_at(s, toks, k) {
                Err(p) => Err(p),
                Ok((name, e)) => Ok((DirectiveView::NamedMaterial { name }, e)),
            }
        },
        Keyword::Stub(keyword) => {
            match arguments_end(s, toks, k) {
                Err(p) => Err(p),
                Ok(e) => Ok((DirectiveView::Stub { keyword }, e)),
            }
        },
    }
}

/// The statements from index `k` on, behind those of `acc`. Every statement
/// starts with a keyword; `WorldEnd` is the last one, and nothing but white
/// space follows it. The failure holds the offset of the first token that
/// the grammar cannot accept.
#[verifier::opaque]
pub open spec fn scene_from(
    s: Seq<u8>,
    toks: Seq<Token>,
    k: int,
    acc: Seq<StatementView>,
) -> Result<Seq<StatementView>, SceneError>
    decreases toks.len() - k,
    via scene_from_decreases
{
    if kind_at(toks, k) == TokenKind::Word {
        match keyword_of(token_text(s, toks[k])) {
            None => Err(SceneError::ParseError { position: start_at(toks, k) }),
            Some(keyword) => match statement_at(s, toks, k + 1, keyword) {
                Err(p) => Err(SceneError::ParseError { position: p }),
                Ok((directive, e)) => {
                    let all = acc.push(StatementView { position: toks[k].start, directive });
                    if keyword == Keyword::WorldEnd {
                        if kind_at(toks, e) == TokenKind::End {
                            Ok(all)
                        } else {
                            Err(SceneError::ParseError { position: start_at(toks, e) })
                        }
                    } else {
                        scene_from(s, toks, e, all)
                    }
                },
            },
        }
    } else {
        Err(SceneError::ParseError { position: start_at(toks, k) })
    }
}

#[via_fn]
proof fn scene_from_decreases(s: Seq<u8>, toks: Seq<Token>, k: int, acc: Seq<StatementView>) {
    if kind_at(toks, k) == TokenKind::Word {
        match keyword_of(token_text(s, toks[k])) {
            None => {},
            Some(keyword) => {
                lemma_statement_at(s, toks, k + 1, keyword);
            },
        }
    }
}

/// The statements of a scene description, or the failure of the grammar.
pub open spec fn parse_spec(s: Seq<u8>) -> Result<Seq<StatementView>, SceneError> {
    scene_from(s, tokens_of(s), 0, Seq::empty())
}

pub proof fn lemma_numbers_stop(toks: Seq<Token>, k: int, n: nat)
    requires
        0 <= k <= toks.len(),
    ensures
        k <= numbers_stop(toks, k, n) <= k + n,
        numbers_stop(toks, k, n) <= toks.len(),
        forall|i: int| k <= i < numbers_stop(toks, k, n) ==> kind_at(toks, i) == TokenKind::Number,
        numbers_stop(toks, k, n) < k + n ==> kind_at(toks, numbers_stop(toks, k, n))
            != TokenKind::Number,
    decreases n,
{
    if n > 0 && kind_at(toks, k) == TokenKind::Number {
        lemma_numbers_stop(toks, k + 1, (n - 1) as nat);
    }
}

pub proof fn lemma_values_stop(s: Seq<u8>, toks: Seq<Token>, k: int)
    requires
        0 <= k,
    ensures
        k <= values_stop(s, toks, k),
        values_stop(s, toks, k) <= toks.len() || values_stop(s, toks, k) == k,
        forall|i: int| k <= i < values_stop(s, toks, k) ==> is_value_at(s, toks, i),
        !is_value_at(s, toks, values_stop(s, toks, k)),
    decreases toks.len() - k,
{
    if is_value_at(s, toks, k) {
        lemma_values_stop(s, toks, k + 1);
    }
}

/// A parameter spans at least two tokens.
pub proof fn lemma_param_at(s: Seq<u8>, toks: Seq<Token>, k: int)
    requires
        0 <= k < toks.len(),
    ensures
        param_at(s, toks, k) matches Ok((_, next)) ==> k + 2 <= next <= toks.len(),
{
    lemma_values_stop(s, toks, k + 2);
}

pub proof fn lemma_params_from(s: Seq<u8>, toks: Seq<Token>, k: int, acc: Seq<RawParamView>)
    requires
        0 <= k <= toks.len(),
    ensures
        params_from(s, toks, k, acc) matches Ok((_, next)) ==> k <= next <= toks.len(),
    decreases toks.len() - k,
{
    if kind_at(toks, k) == TokenKind::Text {
        lemma_param_at(s, toks, k);
        match param_at(s, toks, k) {
            Err(p) => {},
            Ok((param, next)) => {
                lemma_params_from(s, toks, next, acc.push(param));
            },
        }
    }
}

pub proof fn lemma_arguments_end(s: Seq<u8>, toks: Seq<Token>, k: int)
    requires
        0 <= k <= toks.len(),
    ensures
        arguments_end(s, toks, k) matches Ok(next) ==> k <= next <= toks.len(),
    decreases toks.len() - k,
{
    if is_value_at(s, toks, k) {
        lemma_arguments_end(s, toks, k + 1);
    } else if kind_at(toks, k) == TokenKind::Open {
        lemma_values_stop(s, toks, k + 1);
        let e = values_stop(s, toks, k + 1);
        if kind_at(toks, e) == TokenKind::Close {
            lemma_arguments_end(s, toks, e + 1);
        }
    }
}

/// No statement ends before the index at which its arguments start.
pub proof fn lemma_statement_at(s: Seq<u8>, toks: Seq<Token>, k: int, keyword: Keyword)
    requires
        0 <= k <= toks.len(),
    ensures
        statement_at(s, toks, k, keyword) matches Ok((_, next)) ==> k <= next <= toks.len(),
{
    reveal(statement_at);
    match keyword {
        Keyword::Compose(TransformKind::Concat) => {
            if k < toks.len() {
                lemma_numbers_stop(toks, k + 1, 16);
            }
        },
        Keyword::Compose(transform) => {
            lemma_numbers_stop(toks, k, transform_arity(transform));
        },
        Keyword::Object(_) => {
            if k < toks.len() {
                lemma_params_from(s, toks, k + 1, Seq::empty());
            }
        },
        Keyword::Texture => {
            if k + 2 < toks.len() {
                lemma_params_from(s, toks, k + 3, Seq::empty());
            }
        },
        Keyword::Stub(_) => {
            lemma_arguments_end(s, toks, k);
        },
        _ => {},
    }
}

/// What well-formedness says of the token at index `k`.
pub proof fn lemma_token(s: Seq<u8>, toks: Seq<Token>, k: int)
    requires
        wf_tokens(s, toks),
        0 <= k < toks.len(),
    ensures
        toks[k].start <= toks[k].end <= s.len(),
        is_final(toks[k].kind) <==> k + 1 == toks.len(),
        toks[k].kind == TokenKind::Text ==> toks[k].start + 2 <= toks[k].end,
        toks[k].kind == TokenKind::Number ==> number_end(s, toks[k].start as int) == Some(
            toks[k].end as int,
        ),
{
    reveal(wf_tokens);
}

/// A well-formed token list holds at least its final token.
pub proof fn lemma_tokens_nonempty(s: Seq<u8>, toks: Seq<Token>)
    requires
        wf_tokens(s, toks),
    ensures
        toks.len() >= 1,
{
    reveal(wf_tokens);
}

/// The tokens of a text are well formed.
pub proof fn lemma_tokens_wf(s: Seq<u8>, i: int)
    requires
        0 <= i <= s.len() <= usize::MAX,
    ensures
        wf_tokens(s, tokens_from(s, i)),
    decreases s.len() - i,
{
    reveal(wf_tokens);
    let p = spaces_end(s, i);
    lemma_spaces_end(s, i);
    if p < s.len() {
        let t = token_at(s, p);
        lemma_token_at(s, p);
        if t.kind != TokenKind::Invalid {
            lemma_tokens_wf(s, t.end as int);
            let rest = tokens_from(s, t.end as int);
            let all = seq![t] + rest;
            assert(all.last() == rest.last());
            assert forall|j: int| 0 <= j < all.len() implies {
                &&& (#[trigger] all[j]).start <= all[j].end <= s.len()
                &&& j < all.len() - 1 ==> !is_final(all[j].kind)
                &&& all[j].kind == TokenKind::Text ==> all[j].start + 2 <= all[j].end
                &&& all[j].kind == TokenKind::Number ==> number_end(s, all[j].start as int) == Some(
                    all[j].end as int,
                )
            } by {
                if j > 0 {
                    assert(all[j] == rest[j - 1]);
                }
            }
        }
    }
}

} // verus!
