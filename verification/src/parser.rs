//! The grammar layer: the parser that turns the tokens of a scene
//! description into directives.

use crate::directive::{keyword, Directive, Keyword, Statement};
use crate::error::SceneError;
use crate::grammar::{
    arguments_end, is_name_at, is_value_at, lemma_statement_at, lemma_token, lemma_tokens_nonempty,
    lemma_tokens_wf, name_at, numbers_at, numbers_stop, param_at, params_from, parse_spec,
    scene_from, split_declaration, statement_at, token_text, value_at, values_between, values_stop,
    wf_tokens,
};
use crate::number::Number;
use crate::params::{RawParam, RawParamView, RawValue};
use crate::text::{copy_bytes, letter, name, views};
use crate::token::{scan_word, skip_spaces, tokenize, Token, TokenKind};
use crate::transform::TransformKind;
use vstd::prelude::*;
use vstd::slice::slice_subrange;

verus! {

/// Exactly `n` numbers from index `k` on.
fn parse_numbers(s: &[u8], toks: &Vec<Token>, k: usize, n: usize) -> (r: Result<
    (Vec<Number>, usize),
    usize,
>)
    requires
        wf_tokens(s@, toks@),
        k < toks.len(),
    ensures
        match numbers_at(s@, toks@, k as int, n as nat) {
            Ok((args, e)) => r matches Ok((v, next)) && views(v@) == args && next == e && next
                < toks.len(),
            Err(p) => r matches Err(q) && q == p,
        },
{
    let mut args: Vec<Number> = Vec::new();
    let mut i: usize = 0;
    while i < n
        invariant
            wf_tokens(s@, toks@),
            i <= n,
            k + i < toks.len(),
            args.len() == i,
            numbers_stop(toks@, k as int, n as nat) == numbers_stop(
                toks@,
                k + i,
                (n - i) as nat,
            ),
            forall|j: int| 0 <= j < i ==> (#[trigger] args[j])@ == token_text(s@, toks@[k + j]),
        decreases n - i,
    {
        proof {
            lemma_token(s@, toks@, k + i);
        }
        let t: Token = toks[k + i];
        if t.kind != TokenKind::Number {
            return Err(t.start);
        }
        args.push(Number::from_scan(s, t.start, t.end));
        i += 1;
    }
    assert(views(args@) =~= Seq::new(n as nat, |j: int| token_text(s@, toks@[k + j])));
    Ok((args, k + n))
}

/// Whether the token at index `k` is a name.
fn name_here(s: &[u8], toks: &Vec<Token>, k: usize) -> (r: bool)
    requires
        wf_tokens(s@, toks@),
        k < toks.len(),
    ensures
        r == is_name_at(s@, toks@, k as int),
        r ==> k + 1 < toks.len(),
{
    proof {
        lemma_token(s@, toks@, k as int);
    }
    let t: Token = toks[k];
    t.kind == TokenKind::Text && name(slice_subrange(s, t.start + 1, t.end - 1))
}

/// Whether the token at index `k` is a value.
fn value_here(s: &[u8], toks: &Vec<Token>, k: usize) -> (r: bool)
    requires
        wf_tokens(s@, toks@),
        k < toks.len(),
    ensures
        r == is_value_at(s@, toks@, k as int),
        r ==> k + 1 < toks.len(),
{
    proof {
        lemma_token(s@, toks@, k as int);
    }
    toks[k].kind == TokenKind::Number || name_here(s, toks, k)
}

/// A name at index `k`.
fn parse_name(s: &[u8], toks: &Vec<Token>, k: usize) -> (r: Result<(Vec<u8>, usize), usize>)
    requires
        wf_tokens(s@, toks@),
        k < toks.len(),
    ensures
        match name_at(s@, toks@, k as int) {
            Ok((n, e)) => r matches Ok((v, next)) && v@ == n && next == e && next < toks.len(),
            Err(p) => r matches Err(q) && q == p,
        },
{
    proof {
        lemma_token(s@, toks@, k as int);
    }
    if name_here(s, toks, k) {
        let t: Token = toks[k];
        Ok((copy_bytes(s, t.start + 1, t.end - 1), k + 1))
    } else {
        Err(toks[k].start)
    }
}

/// The value that the token at index `k` is.
fn read_value(s: &[u8], toks: &Vec<Token>, k: usize) -> (r: RawValue)
    requires
        wf_tokens(s@, toks@),
        k < toks.len(),
        is_value_at(s@, toks@, k as int),
    ensures
        r@ == value_at(s@, toks@, k as int),
{
    proof {
        lemma_token(s@, toks@, k as int);
    }
    let t: Token = toks[k];
    if t.kind == TokenKind::Number {
        RawValue::Number { position: t.start, number: Number::from_scan(s, t.start, t.end) }
    } else {
        RawValue::Text { position: t.start, text: copy_bytes(s, t.start + 1, t.end - 1) }
    }
}

/// The type and the name that a declaration holds.
pub fn split(d: &[u8]) -> (r: Option<(Vec<u8>, Vec<u8>)>)
    ensures
        match split_declaration(d@) {
            Some((declared, name)) => r matches Some((a, b)) && a@ == declared && b@ == name,
            None => r is None,
        },
{
    if d.len() == 0 || !letter(d[0]) {
        return None;
    }
    let w: usize = scan_word(d, 1);
    if w == d.len() {
        let all = copy_bytes(d, 0, w);
        assert(all@ =~= d@);
        return Some((all, Vec::new()));
    }
    let b: usize = skip_spaces(d, w);
    if w < b && b < d.len() && letter(d[b]) && scan_word(d, b + 1) == d.len() {
        Some((copy_bytes(d, 0, w), copy_bytes(d, b, d.len())))
    } else {
        None
    }
}

/// The values from index `from` up to `to`.
fn read_values(s: &[u8], toks: &Vec<Token>, from: usize, to: usize) -> (r: Vec<RawValue>)
    requires
        wf_tokens(s@, toks@),
        from <= to <= toks.len(),
        forall|i: int| from <= i < to ==> is_value_at(s@, toks@, i),
    ensures
        views(r@) == values_between(s@, toks@, from as int, to as int),
{
    let mut values: Vec<RawValue> = Vec::new();
    let mut i: usize = from;
    while i < to
        invariant
            wf_tokens(s@, toks@),
            from <= i <= to <= toks.len(),
            values.len() == i - from,
            forall|j: int| from <= j < to ==> is_value_at(s@, toks@, j),
            forall|j: int| 0 <= j < i - from ==> (#[trigger] values[j])@ == value_at(
                s@,
                toks@,
                from + j,
            ),
        decreases to - i,
    {
        values.push(read_value(s, toks, i));
        i += 1;
    }
    assert(views(values@) =~= values_between(s@, toks@, from as int, to as int));
    values
}

/// The first index from `k` on that holds no value.
fn skip_values(s: &[u8], toks: &Vec<Token>, k: usize) -> (r: usize)
    requires
        wf_tokens(s@, toks@),
        k < toks.len(),
    ensures
        r == values_stop(s@, toks@, k as int),
        k <= r < toks.len(),
        forall|i: int| k <= i < r ==> is_value_at(s@, toks@, i),
{
    let mut e: usize = k;
    while value_here(s, toks, e)
        invariant
            wf_tokens(s@, toks@),
            k <= e < toks.len(),
            values_stop(s@, toks@, k as int) == values_stop(s@, toks@, e as int),
            forall|i: int| k <= i < e ==> is_value_at(s@, toks@, i),
        decreases toks.len() - e,
    {
        e += 1;
    }
    e
}

/// The parameter that starts with the string token at index `k`.
fn parse_param(s: &[u8], toks: &Vec<Token>, k: usize) -> (r: Result<(RawParam, usize), usize>)
    requires
        wf_tokens(s@, toks@),
        k < toks.len(),
        toks[k as int].kind == TokenKind::Text,
    ensures
        match param_at(s@, toks@, k as int) {
            Ok((param, e)) => r matches Ok((v, next)) && v@ == param && next == e && k < next
                < toks.len(),
            Err(p) => r matches Err(q) && q == p,
        },
{
    proof {
        lemma_token(s@, toks@, k as int);
    }
    proof {
        lemma_token(s@, toks@, k + 1);
    }
    let t: Token = toks[k];
    let (declared, name) = match split(slice_subrange(s, t.start + 1, t.end - 1)) {
        Some(pair) => pair,
        None => { return Err(t.start); },
    };
    if toks[k + 1].kind == TokenKind::Open {
        let e: usize = skip_values(s, toks, k + 2);
        proof {
            lemma_token(s@, toks@, e as int);
        }
        if e > k + 2 && toks[e].kind == TokenKind::Close {
            let values = read_values(s, toks, k + 2, e);
            Ok((RawParam { declared, name, values }, e + 1))
        } else {
            Err(toks[e].start)
        }
    } else if name_here(s, toks, k + 1) {
        let values = read_values(s, toks, k + 1, k + 2);
        Ok((RawParam { declared, name, values }, k + 2))
    } else {
        Err(toks[k + 1].start)
    }
}

/// The parameters from index `k` on.
fn parse_params(s: &[u8], toks: &Vec<Token>, k: usize) -> (r: Result<
    (Vec<RawParam>, usize),
    usize,
>)
    requires
        wf_tokens(s@, toks@),
        k < toks.len(),
    ensures
        match params_from(s@, toks@, k as int, Seq::empty()) {
            Ok((params, e)) => r matches Ok((v, next)) && views(v@) == params && next == e && next
                < toks.len(),
            Err(p) => r matches Err(q) && q == p,
        },
{
    let mut params: Vec<RawParam> = Vec::new();
    let mut i: usize = k;
    assert(views(params@) =~= Seq::<RawParamView>::empty());
    while toks[i].kind == TokenKind::Text
        invariant
            wf_tokens(s@, toks@),
            k <= i < toks.len(),
            params_from(s@, toks@, k as int, Seq::empty()) == params_from(
                s@,
                toks@,
                i as int,
                views(params@),
            ),
        decreases toks.len() - i,
    {
        let ghost before = views(params@);
        match parse_param(s, toks, i) {
            Ok((param, next)) => {
                params.push(param);
                assert(views(params@) =~= before.push(param@));
                i = next;
            },
            Err(p) => {
                return Err(p);
            },
        }
    }
    Ok((params, i))
}

/// The index after the arguments of a directive that is passed over.
fn skip_arguments(s: &[u8], toks: &Vec<Token>, k: usize) -> (r: Result<usize, usize>)
    requires
        wf_tokens(s@, toks@),
        k < toks.len(),
    ensures
        match arguments_end(s@, toks@, k as int) {
            Ok(e) => r matches Ok(next) && next == e && next < toks.len(),
            Err(p) => r matches Err(q) && q == p,
        },
{
    let mut i: usize = k;
    loop
        invariant
            wf_tokens(s@, toks@),
            k <= i < toks.len(),
            arguments_end(s@, toks@, k as int) == arguments_end(s@, toks@, i as int),
        decreases toks.len() - i,
    {
        proof {
            lemma_token(s@, toks@, i as int);
        }
        if value_here(s, toks, i) {
            i += 1;
        } else if toks[i].kind == TokenKind::Open {
            let e: usize = skip_values(s, toks, i + 1);
            proof {
                lemma_token(s@, toks@, e as int);
            }
            if toks[e].kind == TokenKind::Close {
                i = e + 1;
            } else {
                return Err(toks[e].start);
            }
        } else {
            return Ok(i);
        }
    }
}

/// The arguments of the directive whose keyword stands before index `k`.
fn parse_statement(s: &[u8], toks: &Vec<Token>, k: usize, keyword: Keyword) -> (r: Result<
    (Directive, usize),
    usize,
>)
    requires
        wf_tokens(s@, toks@),
        k < toks.len(),
    ensures
        match statement_at(s@, toks@, k as int, keyword) {
            Ok((d, e)) => r matches Ok((v, next)) && v@ == d && next == e && next < toks.len(),
            Err(p) => r matches Err(q) && q == p,
        },
{
    reveal(statement_at);
    proof {
        lemma_token(s@, toks@, k as int);
    }
    match keyword {
        Keyword::Compose(TransformKind::Concat) => {
            if toks[k].kind != TokenKind::Open {
                return Err(toks[k].start);
            }
            match parse_numbers(s, toks, k + 1, 16) {
                Err(p) => Err(p),
                Ok((args, e)) => {
                    proof {
                        lemma_token(s@, toks@, e as int);
                    }
                    if toks[e].kind == TokenKind::Close {
                        Ok((Directive::Compose { transform: TransformKind::Concat, args }, e + 1))
                    } else {
                        Err(toks[e].start)
                    }
                },
            }
        },
        Keyword::Compose(transform) => {
            let n: usize = match transform {
                TransformKind::LookAt => 9,
                TransformKind::Rotate => 4,
                TransformKind::Translate => 3,
                TransformKind::Scale => 3,
                TransformKind::Concat => 16,
            };
            match parse_numbers(s, toks, k, n) {
                Err(p) => Err(p),
                Ok((args, e)) => Ok((Directive::Compose { transform, args }, e)),
            }
        },
        Keyword::Identity => Ok((Directive::Identity, k)),
        Keyword::AttributeBegin => Ok((Directive::AttributeBegin, k)),
        Keyword::AttributeEnd => Ok((Directive::AttributeEnd, k)),
        Keyword::TransformBegin => Ok((Directive::TransformBegin, k)),
        Keyword::TransformEnd => Ok((Directive::TransformEnd, k)),
        Keyword::WorldBegin => Ok((Directive::WorldBegin, k)),
        Keyword::WorldEnd => Ok((Directive::WorldEnd, k)),
        Keyword::Object(object) => {
            let (name, k1) = match parse_name(s, toks, k) {
                Ok(pair) => pair,
                Err(p) => { return Err(p); },
            };
            match parse_params(s, toks, k1) {
                Err(p) => Err(p),
                Ok((params, e)) => Ok((Directive::Object { object, name, params }, e)),
            }
        },
        Keyword::Texture => {
            let (name, k1) = match parse_name(s, toks, k) {
                Ok(pair) => pair,
                Err(p) => { return Err(p); },
            };
            let (value_type, k2) = match parse_name(s, toks, k1) {
                Ok(pair) => pair,
                Err(p) => { return Err(p); },
            };
            let (class, k3) = match parse_name(s, toks, k2) {
                Ok(pair) => pair,
                Err(p) => { return Err(p); },
            };
            match parse_params(s, toks, k3) {
                Err(p) => Err(p),
                Ok((params, e)) => Ok((Directive::Texture { name, value_type, class, params }, e)),
            }
        },
        Keyword::NamedMaterial => {
            match parse_name(s, toks, k) {
                Err(p) => Err(p),
                Ok((name, e)) => Ok((Directive::NamedMaterial { name }, e)),
            }
        },
        Keyword::Stub(keyword) => {
            match skip_arguments(s, toks, k) {
                Err(p) => Err(p),
                Ok(e) => Ok((Directive::Stub { keyword }, e)),
            }
        },
    }
}

/// The statements that the tokens of a text spell.
fn parse_tokens(s: &[u8], toks: &Vec<Token>) -> (r: Result<Vec<Statement>, SceneError>)
    requires
        wf_tokens(s@, toks@),
    ensures
        match scene_from(s@, toks@, 0, Seq::empty()) {
            Ok(statements) => r matches Ok(v) && views(v@) == statements,
            Err(e) => r matches Err(x) && x == e,
        },
{
    let mut statements: Vec<Statement> = Vec::new();
    let mut k: usize = 0;
    proof {
        lemma_tokens_nonempty(s@, toks@);
    }
    assert(views(statements@) =~= Seq::empty());
    loop
        invariant
            wf_tokens(s@, toks@),
            k < toks.len(),
            scene_from(s@, toks@, 0, Seq::empty()) == scene_from(
                s@,
                toks@,
                k as int,
                views(statements@),
            ),
        decreases toks.len() - k,
    {
        proof {
            lemma_token(s@, toks@, k as int);
            reveal(scene_from);
        }
        let t: Token = toks[k];
        if t.kind != TokenKind::Word {
            return Err(SceneError::ParseError { position: t.start });
        }
        let kw: Keyword = match keyword(slice_subrange(s, t.start, t.end)) {
            Some(kw) => kw,
            None => { return Err(SceneError::ParseError { position: t.start }); },
        };
        let ghost before = views(statements@);
        proof {
            lemma_statement_at(s@, toks@, k + 1, kw);
        }
        match parse_statement(s, toks, k + 1, kw) {
            Err(p) => {
                return Err(SceneError::ParseError { position: p });
            },
            Ok((directive, e)) => {
                let statement = Statement { position: t.start, directive };
                statements.push(statement);
                assert(views(statements@) =~= before.push(statement@));
                if kw == Keyword::WorldEnd {
                    if toks[e].kind == TokenKind::End {
                        return Ok(statements);
                    } else {
                        return Err(SceneError::ParseError { position: toks[e].start });
                    }
                }
                k = e;
            },
        }
    }
}

/// Reads a scene description: cuts the text into tokens and groups them
/// into statements. Fails with a `ParseError` at the first token that the
/// grammar cannot accept.
pub fn parse_scene(s: &[u8]) -> (r: Result<Vec<Statement>, SceneError>)
    ensures
        match parse_spec(s@) {
            Ok(statements) => r matches Ok(v) && views(v@) == statements,
            Err(e) => r matches Err(x) && x == e,
        },
{
    let n: usize = s.len();
    let toks = tokenize(s);
    proof {
        assert(s@.len() == n);
        lemma_tokens_wf(s@, 0);
    }
    parse_tokens(s, &toks)
}

} // verus!
