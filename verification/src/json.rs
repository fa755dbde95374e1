//! Structural parser: from the token stream to a generic JSON-like value.
//!
//! The grammar is the one the tokenizer defines: a value is a quoted
//! literal, a numeric literal, an array of comma-separated values in square
//! braces, or an object of comma-separated `"key": value` members in curly
//! braces.  Parsing is all-or-nothing: either the whole token stream up to
//! the end-of-input token forms one value, or a parse error is returned.

use vstd::prelude::*;
use vstd::string::StringExecFns;

use crate::lexer::SpecTok;
use crate::lexer::Token;
use crate::lexer::TokenKind;
use crate::lexer::toks_abs;
use crate::parser::ParserError;

verus! {

/// A generic structured-data value.
#[derive(Debug)]
pub enum JsonValue {
    /// A quoted literal.
    Str(String),
    /// A numeric literal, kept as the exact text of the number.
    Num(String),
    /// An array of values, in declaration order.
    Arr(Vec<JsonValue>),
    /// An object: its members in declaration order.
    Obj(Vec<(String, JsonValue)>),
}

/// The mathematical abstraction of a `JsonValue`.
pub ghost enum JsonVal {
    Str(Seq<char>),
    Num(Seq<char>),
    Arr(Seq<JsonVal>),
    Obj(Seq<(Seq<char>, JsonVal)>),
}

impl JsonValue {
    /// The abstraction of this value.
    pub open spec fn abs(self) -> JsonVal
        decreases self,
    {
        match self {
            JsonValue::Str(s) => JsonVal::Str(s@),
            JsonValue::Num(s) => JsonVal::Num(s@),
            JsonValue::Arr(vs) => JsonVal::Arr(vals_abs(vs@)),
            JsonValue::Obj(ms) => JsonVal::Obj(membs_abs(ms@)),
        }
    }
}

/// The abstraction of a sequence of values.
pub open spec fn vals_abs(vs: Seq<JsonValue>) -> Seq<JsonVal>
    decreases vs,
{
    Seq::new(
        vs.len(),
        |i: int|
            if 0 <= i < vs.len() {
                vs[i].abs()
            } else {
                JsonVal::Num(Seq::empty())
            },
    )
}

/// The abstraction of a sequence of object members.
pub open spec fn membs_abs(ms: Seq<(String, JsonValue)>) -> Seq<(Seq<char>, JsonVal)>
    decreases ms,
{
    Seq::new(
        ms.len(),
        |i: int|
            if 0 <= i < ms.len() {
                (ms[i].0@, ms[i].1.abs())
            } else {
                (Seq::empty(), JsonVal::Num(Seq::empty()))
            },
    )
}

/// Parse one value beginning at token `i`: the value and the position of
/// the first token after it, or nothing if no value starts there.
pub open spec fn sp_parse_value(ts: Seq<SpecTok>, i: int) -> Option<(JsonVal, int)>
    decreases ts.len() - i, 2int,
{
    if i < 0 || i >= ts.len() {
        None
    } else {
        let t = ts[i];
        match t.kind {
            TokenKind::LiteralStringsKeyOrValue => Some((JsonVal::Str(t.lit), i + 1)),
            TokenKind::Number => Some((JsonVal::Num(t.lit), i + 1)),
            TokenKind::LeftSquareBrace => {
                if i + 1 < ts.len() && ts[i + 1].kind is RightSquareBrace {
                    Some((JsonVal::Arr(Seq::empty()), i + 2))
                } else {
                    match sp_parse_elems(ts, i + 1) {
                        Some((es, j)) => {
                            if 0 <= j < ts.len() && ts[j].kind is RightSquareBrace {
                                Some((JsonVal::Arr(es), j + 1))
                            } else {
                                None
                            }
                        },
                        None => None,
                    }
                }
            },
            TokenKind::LeftCurlyBrace => {
                if i + 1 < ts.len() && ts[i + 1].kind is RightCurlyBrace {
                    Some((JsonVal::Obj(Seq::empty()), i + 2))
                } else {
                    match sp_parse_members(ts, i + 1) {
                        Some((ms, j)) => {
                            if 0 <= j < ts.len() && ts[j].kind is RightCurlyBrace {
                                Some((JsonVal::Obj(ms), j + 1))
                            } else {
                                None
                            }
                        },
                        None => None,
                    }
                }
            },
            _ => None,
        }
    }
}

/// Parse one or more comma-separated values beginning at token `i`.
pub open spec fn sp_parse_elems(ts: Seq<SpecTok>, i: int) -> Option<(Seq<JsonVal>, int)>
    decreases ts.len() - i, 3int,
{
    match sp_parse_value(ts, i) {
        Some((v, j)) => {
            if !(i < j <= ts.len()) {
                None
            } else if j < ts.len() && ts[j].kind is Comma {
                match sp_parse_elems(ts, j + 1) {
                    Some((vs, k)) => Some((seq![v] + vs, k)),
                    None => None,
                }
            } else {
                Some((seq![v], j))
            }
        },
        None => None,
    }
}

/// Parse one or more comma-separated `"key": value` members beginning at
/// token `i`.
pub open spec fn sp_parse_members(ts: Seq<SpecTok>, i: int) -> Option<
    (Seq<(Seq<char>, JsonVal)>, int),
>
    decreases ts.len() - i, 3int,
{
    if i < 0 || i + 1 >= ts.len() {
        None
    } else if !(ts[i].kind is LiteralStringsKeyOrValue) {
        None
    } else if !(ts[i + 1].kind is Colon) {
        None
    } else {
        match sp_parse_value(ts, i + 2) {
            Some((v, j)) => {
                if !(i + 2 < j <= ts.len()) {
                    None
                } else if j < ts.len() && ts[j].kind is Comma {
                    match sp_parse_members(ts, j + 1) {
                        Some((ms, k)) => Some((seq![(ts[i].lit, v)] + ms, k)),
                        None => None,
                    }
                } else {
                    Some((seq![(ts[i].lit, v)], j))
                }
            },
            None => None,
        }
    }
}

/// Parse a whole token stream: one value followed by the end-of-input
/// token.
pub open spec fn sp_parse_json(ts: Seq<SpecTok>) -> Option<JsonVal> {
    match sp_parse_value(ts, 0) {
        Some((v, j)) => {
            if 0 <= j < ts.len() && ts[j].kind is Eof {
                Some(v)
            } else {
                None
            }
        },
        None => None,
    }
}

/// A successful parse always consumes at least one token and never runs
/// past the end of the stream.
pub proof fn lemma_parse_value_progress(ts: Seq<SpecTok>, i: int)
    ensures
        sp_parse_value(ts, i) matches Some(p) ==> i < p.1 <= ts.len(),
    decreases ts.len() - i, 2int,
{
    if 0 <= i < ts.len() {
        match ts[i].kind {
            TokenKind::LeftSquareBrace => {
                lemma_parse_elems_progress(ts, i + 1);
            },
            TokenKind::LeftCurlyBrace => {
                lemma_parse_members_progress(ts, i + 1);
            },
            _ => {},
        }
    }
}

/// Progress for comma-separated value lists.
pub proof fn lemma_parse_elems_progress(ts: Seq<SpecTok>, i: int)
    ensures
        sp_parse_elems(ts, i) matches Some(p) ==> i < p.1 <= ts.len(),
    decreases ts.len() - i, 3int,
{
    lemma_parse_value_progress(ts, i);
    match sp_parse_value(ts, i) {
        Some((v, j)) => {
            if i < j <= ts.len() && j < ts.len() && ts[j].kind is Comma {
                lemma_parse_elems_progress(ts, j + 1);
            }
        },
        None => {},
    }
}

/// Progress for comma-separated member lists.
pub proof fn lemma_parse_members_progress(ts: Seq<SpecTok>, i: int)
    ensures
        sp_parse_members(ts, i) matches Some(p) ==> i < p.1 <= ts.len(),
    decreases ts.len() - i, 3int,
{
    if 0 <= i && i + 1 < ts.len() && ts[i].kind is LiteralStringsKeyOrValue && ts[i + 1].kind
        is Colon {
        lemma_parse_value_progress(ts, i + 2);
        match sp_parse_value(ts, i + 2) {
            Some((v, j)) => {
                if i + 2 < j <= ts.len() && j < ts.len() && ts[j].kind is Comma {
                    lemma_parse_members_progress(ts, j + 1);
                }
            },
            None => {},
        }
    }
}

/// The value of the first member of `ms` named `key`, if any.
pub open spec fn sp_obj_get(ms: Seq<(Seq<char>, JsonVal)>, key: Seq<char>) -> Option<JsonVal>
    decreases ms.len(),
{
    if ms.len() == 0 {
        None
    } else if ms[0].0 == key {
        Some(ms[0].1)
    } else {
        sp_obj_get(ms.drop_first(), key)
    }
}

/// Look a key up among the members of an object, returning the value of
/// the first member with that name.
pub fn obj_get<'a>(ms: &'a Vec<(String, JsonValue)>, key: &String) -> (r: Option<&'a JsonValue>)
    ensures
        match r {
            Some(v) => sp_obj_get(membs_abs(ms@), key@) == Some(v.abs()),
            None => sp_obj_get(membs_abs(ms@), key@) is None,
        },
{
    let ghost sms = membs_abs(ms@);
    let n = ms.len();
    proof {
        assert(sms.subrange(0, n as int) =~= sms);
    }
    let mut i: usize = 0;
    while i < n
        invariant
            i <= n,
            n == ms@.len(),
            sms == membs_abs(ms@),
            sp_obj_get(sms, key@) == sp_obj_get(sms.subrange(i as int, n as int), key@),
        decreases n - i,
    {
        proof {
            assert(sms.subrange(i as int, n as int).drop_first() =~= sms.subrange(
                i + 1,
                n as int,
            ));
        }
        let p = &ms[i];
        if p.0.eq(key) {
            return Some(&p.1);
        }
        i = i + 1;
    }
    proof {
        assert(sms.subrange(n as int, n as int).len() == 0);
    }
    None
}

/// A structural parse error with the given cause.
fn parse_err(cause: &str) -> (r: ParserError)
    ensures
        r is JSONParseError,
{
    ParserError::JSONParseError(String::from_str(cause))
}

/// Parse one value beginning at token `i`.
fn parse_value(toks: &Vec<Token>, i: usize) -> (r: Result<(JsonValue, usize), ParserError>)
    requires
        i <= toks@.len(),
    ensures
        r matches Ok(p) ==> sp_parse_value(toks_abs(toks@), i as int) == Some(
            (p.0.abs(), p.1 as int),
        ) && i < p.1 <= toks@.len(),
        r matches Err(e) ==> sp_parse_value(toks_abs(toks@), i as int) is None && e
            is JSONParseError,
    decreases toks@.len() - i, 2int,
{
    let ghost sts = toks_abs(toks@);
    let n = toks.len();
    if i >= n {
        return Err(parse_err("unexpected end of token stream"));
    }
    let kind = toks[i].kind;
    match kind {
        TokenKind::LiteralStringsKeyOrValue => {
            let s = toks[i].span.literal.clone();
            Ok((JsonValue::Str(s), i + 1))
        },
        TokenKind::Number => {
            let s = toks[i].span.literal.clone();
            Ok((JsonValue::Num(s), i + 1))
        },
        TokenKind::LeftSquareBrace => {
            if i + 1 < n && matches!(toks[i + 1].kind, TokenKind::RightSquareBrace) {
                let vs: Vec<JsonValue> = Vec::new();
                proof {
                    assert(vals_abs(vs@) =~= Seq::<JsonVal>::empty());
                }
                Ok((JsonValue::Arr(vs), i + 2))
            } else {
                match parse_elems(toks, i + 1) {
                    Ok((vs, j)) => {
                        if j < n && matches!(toks[j].kind, TokenKind::RightSquareBrace) {
                            Ok((JsonValue::Arr(vs), j + 1))
                        } else {
                            Err(parse_err("expected a closing square brace"))
                        }
                    },
                    Err(e) => Err(e),
                }
            }
        },
        TokenKind::LeftCurlyBrace => {
            if i + 1 < n && matches!(toks[i + 1].kind, TokenKind::RightCurlyBrace) {
                let ms: Vec<(String, JsonValue)> = Vec::new();
                proof {
                    assert(membs_abs(ms@) =~= Seq::<(Seq<char>, JsonVal)>::empty());
                }
                Ok((JsonValue::Obj(ms), i + 2))
            } else {
                match parse_members(toks, i + 1) {
                    Ok((ms, j)) => {
                        if j < n && matches!(toks[j].kind, TokenKind::RightCurlyBrace) {
                            Ok((JsonValue::Obj(ms), j + 1))
                        } else {
                            Err(parse_err("expected a closing curly brace"))
                        }
                    },
                    Err(e) => Err(e),
                }
            }
        },
        _ => Err(parse_err("expected a value")),
    }
}

/// Parse one or more comma-separated values beginning at token `start`.
fn parse_elems(toks: &Vec<Token>, start: usize) -> (r: Result<
    (Vec<JsonValue>, usize),
    ParserError,
>)
    requires
        start <= toks@.len(),
    ensures
        r matches Ok(p) ==> sp_parse_elems(toks_abs(toks@), start as int) == Some(
            (vals_abs(p.0@), p.1 as int),
        ) && start < p.1 <= toks@.len(),
        r matches Err(e) ==> sp_parse_elems(toks_abs(toks@), start as int) is None && e
            is JSONParseError,
    decreases toks@.len() - start, 3int,
{
    let ghost sts = toks_abs(toks@);
    let n = toks.len();
    let mut acc: Vec<JsonValue> = Vec::new();
    let mut cur = start;

    loop
        invariant_except_break
            sts == toks_abs(toks@),
            n == toks@.len(),
            start <= cur <= toks@.len(),
            toks@.len() - cur < toks@.len() - start || (cur == start && acc@.len() == 0),
            match sp_parse_elems(sts, cur as int) {
                Some(p) => sp_parse_elems(sts, start as int) == Some(
                    (vals_abs(acc@) + p.0, p.1),
                ),
                None => sp_parse_elems(sts, start as int) is None,
            },
        decreases toks@.len() - cur,
    {
        let ghost acc0 = acc@;
        let ghost cur0 = cur as int;
        match parse_value(toks, cur) {
            Ok((v, j)) => {
                proof {
                    lemma_parse_value_progress(sts, cur0);
                }
                acc.push(v);
                proof {
                    assert(vals_abs(acc0.push(v)) =~= vals_abs(acc0) + seq![v.abs()]);
                }
                if j < n && matches!(toks[j].kind, TokenKind::Comma) {
                    proof {
                        let rest = sp_parse_elems(sts, j + 1);
                        match rest {
                            Some(p) => {
                                assert(vals_abs(acc0) + (seq![v.abs()] + p.0) =~= vals_abs(
                                    acc0.push(v),
                                ) + p.0);
                            },
                            None => {},
                        }
                    }
                    cur = j + 1;
                } else {
                    proof {
                        assert(vals_abs(acc0) + seq![v.abs()] =~= vals_abs(acc0.push(v)));
                    }
                    return Ok((acc, j));
                }
            },
            Err(e) => {
                return Err(e);
            },
        }
    }
}

/// Parse one or more comma-separated `"key": value` members beginning at
/// token `start`.
fn parse_members(toks: &Vec<Token>, start: usize) -> (r: Result<
    (Vec<(String, JsonValue)>, usize),
    ParserError,
>)
    requires
        start <= toks@.len(),
    ensures
        r matches Ok(p) ==> sp_parse_members(toks_abs(toks@), start as int) == Some(
            (membs_abs(p.0@), p.1 as int),
        ) && start < p.1 <= toks@.len(),
        r matches Err(e) ==> sp_parse_members(toks_abs(toks@), start as int) is None && e
            is JSONParseError,
    decreases toks@.len() - start, 3int,
{
    let ghost sts = toks_abs(toks@);
    let n = toks.len();
    let mut acc: Vec<(String, JsonValue)> = Vec::new();
    let mut cur = start;

    loop
        invariant_except_break
            sts == toks_abs(toks@),
            n == toks@.len(),
            start <= cur <= toks@.len(),
            toks@.len() - cur < toks@.len() - start || (cur == start && acc@.len() == 0),
            match sp_parse_members(sts, cur as int) {
                Some(p) => sp_parse_members(sts, start as int) == Some(
                    (membs_abs(acc@) + p.0, p.1),
                ),
                None => sp_parse_members(sts, start as int) is None,
            },
        decreases toks@.len() - cur,
    {
        let ghost acc0 = acc@;
        let ghost cur0 = cur as int;
        if n - cur < 2 {
            return Err(parse_err("expected a member"));
        }
        if !matches!(toks[cur].kind, TokenKind::LiteralStringsKeyOrValue) {
            return Err(parse_err("expected a quoted member key"));
        }
        if !matches!(toks[cur + 1].kind, TokenKind::Colon) {
            return Err(parse_err("expected a colon after a member key"));
        }
        let key = toks[cur].span.literal.clone();
        match parse_value(toks, cur + 2) {
            Ok((v, j)) => {
                proof {
                    lemma_parse_value_progress(sts, cur0 + 2);
                }
                acc.push((key, v));
                proof {
                    assert(membs_abs(acc0.push((key, v))) =~= membs_abs(acc0) + seq![
                        (key@, v.abs()),
                    ]);
                }
                if j < n && matches!(toks[j].kind, TokenKind::Comma) {
                    proof {
                        let rest = sp_parse_members(sts, j + 1);
                        match rest {
                            Some(p) => {
                                assert(membs_abs(acc0) + (seq![(key@, v.abs())] + p.0) =~= membs_abs(
                                    acc0.push((key, v)),
                                ) + p.0);
                            },
                            None => {},
                        }
                    }
                    cur = j + 1;
                } else {
                    proof {
                        assert(membs_abs(acc0) + seq![(key@, v.abs())] =~= membs_abs(
                            acc0.push((key, v)),
                        ));
                    }
                    return Ok((acc, j));
                }
            },
            Err(e) => {
                return Err(e);
            },
        }
    }
}

/// Parse a whole token stream into one value: the stream must hold exactly
/// one value followed by the end-of-input token.
pub fn parse_json_tokens(toks: &Vec<Token>) -> (r: Result<JsonValue, ParserError>)
    ensures
        r matches Ok(v) ==> sp_parse_json(toks_abs(toks@)) == Some(v.abs()),
        r matches Err(e) ==> sp_parse_json(toks_abs(toks@)) is None && e is JSONParseError,
{
    match parse_value(toks, 0) {
        Ok((v, j)) => {
            if j < toks.len() && matches!(toks[j].kind, TokenKind::Eof) {
                Ok(v)
            } else {
                Err(parse_err("trailing tokens after the top-level value"))
            }
        },
        Err(e) => Err(e),
    }
}

} // verus!
