//! The parser: single-token-lookahead recursive descent over the token
//! sequence, producing an ordered list of typed field declarations.
//!
//! Grammar:
//! ```text
//! FieldList := Field (',' Field)*
//! Field     := Identifier ':' Type '?'?
//! Type      := Primitive | ArrayType | StructType | MapType
//! Primitive := 'string'|'long'|'int'|'short'|'byte'|'float'|'double'
//!            | 'boolean'|'binary'|'date'|'timestamp'
//! ArrayType := 'array' '<' Type '?'? '>'
//! StructType:= 'struct' '<' FieldList '>'
//! MapType   := 'map' '<' Type ',' Type '?'? '>'
//! ```
//!
//! Parsing is fail-fast: the first failed expectation aborts the parse and
//! returns a structured error; no partial field list is returned.

use vstd::prelude::*;

use crate::text::str_eq;
use crate::tokenizer::{spec_tokenize, tokenize, Token, TokenView};
use crate::types::{
    field_view, fields_view, type_node_view, Field, FieldView, PrimitiveKind, TypeNode,
    TypeNodeView,
};

verus! {

/// What went wrong during a parse.
#[derive(Clone, Copy, Debug, PartialEq, Eq, Structural)]
pub enum ParseErrorKind {
    /// The tokens ran out in the middle of a production.
    UnexpectedEndOfInput,
    /// A production's expectation (name, `:`, `,`, `<`, `>`) was not met by
    /// the next token.
    UnexpectedToken,
    /// An identifier in type position is not one of the known primitive or
    /// composite keywords.
    UnknownTypeKeyword,
    /// A struct's `<` has no corresponding `>` among the remaining tokens.
    UnmatchedOpenBracket,
}

/// A parse error: its kind, the character offset of the offending token where
/// one exists, and, for an unknown type keyword, the offending word.
#[derive(Debug, PartialEq)]
pub struct ParseError {
    pub kind: ParseErrorKind,
    pub offset: Option<usize>,
    pub word: String,
}

/// Mathematical model of a `ParseError`.
pub struct ParseErrorView {
    pub kind: ParseErrorKind,
    pub offset: Option<nat>,
    pub word: Seq<char>,
}

impl DeepView for ParseError {
    type V = ParseErrorView;

    open spec fn deep_view(&self) -> ParseErrorView {
        ParseErrorView {
            kind: self.kind,
            offset: match self.offset {
                Some(o) => Some(o as nat),
                None => None,
            },
            word: self.word@,
        }
    }
}

impl ParseError {
    /// A parse error of the given kind at the given offset, with no
    /// offending word.
    pub fn new(kind: ParseErrorKind, offset: Option<usize>) -> (e: ParseError)
        ensures
            e.deep_view() == (ParseErrorView {
                kind,
                offset: match offset {
                    Some(o) => Some(o as nat),
                    None => None,
                },
                word: Seq::<char>::empty(),
            }),
    {
        let e = ParseError { kind, offset, word: String::new() };
        e
    }
}

/// Tokens ran out mid-production.
pub open spec fn err_eoi() -> ParseErrorView {
    ParseErrorView {
        kind: ParseErrorKind::UnexpectedEndOfInput,
        offset: None,
        word: Seq::empty(),
    }
}

/// The token at offset `off` was not what the production expected.
pub open spec fn err_unexpected(off: nat) -> ParseErrorView {
    ParseErrorView {
        kind: ParseErrorKind::UnexpectedToken,
        offset: Some(off),
        word: Seq::empty(),
    }
}

/// The identifier `word` at offset `off` names no known type.
pub open spec fn err_unknown(off: nat, word: Seq<char>) -> ParseErrorView {
    ParseErrorView { kind: ParseErrorKind::UnknownTypeKeyword, offset: Some(off), word }
}

/// A `<` has no matching `>` among the remaining tokens.
pub open spec fn err_unmatched() -> ParseErrorView {
    ParseErrorView {
        kind: ParseErrorKind::UnmatchedOpenBracket,
        offset: None,
        word: Seq::empty(),
    }
}

/// The primitive kind named by a type keyword, if any.
pub open spec fn primitive_of(text: Seq<char>) -> Option<PrimitiveKind> {
    if text == "string"@ {
        Some(PrimitiveKind::String)
    } else if text == "long"@ {
        Some(PrimitiveKind::Long)
    } else if text == "int"@ {
        Some(PrimitiveKind::Integer)
    } else if text == "short"@ {
        Some(PrimitiveKind::Short)
    } else if text == "byte"@ {
        Some(PrimitiveKind::Byte)
    } else if text == "float"@ {
        Some(PrimitiveKind::Float)
    } else if text == "double"@ {
        Some(PrimitiveKind::Double)
    } else if text == "boolean"@ {
        Some(PrimitiveKind::Boolean)
    } else if text == "binary"@ {
        Some(PrimitiveKind::Binary)
    } else if text == "date"@ {
        Some(PrimitiveKind::Date)
    } else if text == "timestamp"@ {
        Some(PrimitiveKind::Timestamp)
    } else {
        None
    }
}

/// The kinds of single-character tokens a production can demand.
#[derive(Clone, Copy, Debug, PartialEq, Eq, Structural)]
pub enum ExpectedToken {
    Colon,
    Comma,
    Lt,
    Gt,
}

/// Whether the token is of the demanded kind.
pub open spec fn token_matches(t: TokenView, kind: ExpectedToken) -> bool {
    match kind {
        ExpectedToken::Colon => t is Colon,
        ExpectedToken::Comma => t is Comma,
        ExpectedToken::Lt => t is Lt,
        ExpectedToken::Gt => t is Gt,
    }
}

/// Demanding a token of the given kind at position `i`: the position after
/// it, or the error the demand raises.
pub open spec fn sp_expect(
    toks: Seq<TokenView>,
    i: nat,
    bound: nat,
    kind: ExpectedToken,
) -> Result<nat, ParseErrorView> {
    if i >= bound {
        Err(err_eoi())
    } else if token_matches(toks[i as int], kind) {
        Ok((i + 1) as nat)
    } else {
        Err(err_unexpected(toks[i as int].offset()))
    }
}

/// An optional trailing `?`: whether it is there, and the position after it.
pub open spec fn sp_nullable(toks: Seq<TokenView>, i: nat, bound: nat) -> (bool, nat) {
    if i < bound && toks[i as int] is Question {
        (true, (i + 1) as nat)
    } else {
        (false, i)
    }
}

/// The position of the `>` that balances an already-consumed `<`, scanning
/// from `k` with `depth` open brackets, or `None` when the brackets never
/// balance before `bound`.
pub open spec fn sp_matching_gt(
    toks: Seq<TokenView>,
    k: nat,
    bound: nat,
    depth: nat,
) -> Option<nat>
    decreases bound - k,
{
    if k >= bound {
        None
    } else {
        match toks[k as int] {
            TokenView::Lt(_) => sp_matching_gt(toks, (k + 1) as nat, bound, (depth + 1) as nat),
            TokenView::Gt(_) => if depth == 1 {
                Some(k)
            } else {
                sp_matching_gt(toks, (k + 1) as nat, bound, (depth - 1) as nat)
            },
            _ => sp_matching_gt(toks, (k + 1) as nat, bound, depth),
        }
    }
}

/// One type expression starting at `i`: the type tree it denotes and the
/// position after it, or the first error.
pub open spec fn sp_type(toks: Seq<TokenView>, i: nat, bound: nat) -> Result<
    (TypeNodeView, nat),
    ParseErrorView,
>
    decreases bound - i, 0int,
{
    if i >= bound {
        Err(err_eoi())
    } else {
        match toks[i as int] {
            TokenView::Ident(off, text) => match primitive_of(text) {
                Some(k) => Ok((TypeNodeView::Primitive(k), (i + 1) as nat)),
                None => if text == "array"@ {
                    sp_array(toks, (i + 1) as nat, bound)
                } else if text == "struct"@ {
                    sp_struct(toks, (i + 1) as nat, bound)
                } else if text == "map"@ {
                    sp_map(toks, (i + 1) as nat, bound)
                } else {
                    Err(err_unknown(off, text))
                },
            },
            t => Err(err_unexpected(t.offset())),
        }
    }
}

/// An array type's tail, `'<' Type '?'? '>'`, starting at the `<`.
pub open spec fn sp_array(toks: Seq<TokenView>, i: nat, bound: nat) -> Result<
    (TypeNodeView, nat),
    ParseErrorView,
>
    decreases bound - i, 3int,
{
    match sp_expect(toks, i, bound, ExpectedToken::Lt) {
        Ok(j) => match sp_type(toks, j, bound) {
            Ok((elem, j2)) => {
                let (nullable, j3) = sp_nullable(toks, j2, bound);
                match sp_expect(toks, j3, bound, ExpectedToken::Gt) {
                    Ok(j4) => Ok((TypeNodeView::Array(Box::new(elem), nullable), j4)),
                    Err(e) => Err(e),
                }
            },
            Err(e) => Err(e),
        },
        Err(e) => Err(e),
    }
}

/// A struct type's tail, `'<' FieldList '>'`, starting at the `<`. The field
/// list is parsed only up to the `>` that balances the `<`; without that
/// bound a nested field list could not tell where it ends and an enclosing
/// one resumes.
pub open spec fn sp_struct(toks: Seq<TokenView>, i: nat, bound: nat) -> Result<
    (TypeNodeView, nat),
    ParseErrorView,
>
    decreases bound - i, 3int,
{
    match sp_expect(toks, i, bound, ExpectedToken::Lt) {
        Ok(j) => match sp_matching_gt(toks, j, bound, 1) {
            Some(g) => if j <= g && g < bound {
                match sp_fields(toks, j, g) {
                    Ok((fields, j2)) => match sp_expect(toks, j2, bound, ExpectedToken::Gt) {
                        Ok(j3) => Ok((TypeNodeView::Struct(fields), j3)),
                        Err(e) => Err(e),
                    },
                    Err(e) => Err(e),
                }
            } else {
                // the matching `>` always lies in `j .. bound`; never taken
                Err(err_unmatched())
            },
            None => Err(err_unmatched()),
        },
        Err(e) => Err(e),
    }
}

/// A map type's tail, `'<' Type ',' Type '?'? '>'`, starting at the `<`.
pub open spec fn sp_map(toks: Seq<TokenView>, i: nat, bound: nat) -> Result<
    (TypeNodeView, nat),
    ParseErrorView,
>
    decreases bound - i, 3int,
{
    match sp_expect(toks, i, bound, ExpectedToken::Lt) {
        Ok(j) => match sp_type(toks, j, bound) {
            Ok((key, j2)) => if j2 <= i {
                // a type expression consumes at least one token; never taken
                Err(err_eoi())
            } else {
                match sp_expect(toks, j2, bound, ExpectedToken::Comma) {
                    Ok(j3) => match sp_type(toks, j3, bound) {
                        Ok((value, j4)) => {
                            let (nullable, j5) = sp_nullable(toks, j4, bound);
                            match sp_expect(toks, j5, bound, ExpectedToken::Gt) {
                                Ok(j6) => Ok((
                                    TypeNodeView::Mapping(Box::new(key), Box::new(value), nullable),
                                    j6,
                                )),
                                Err(e) => Err(e),
                            }
                        },
                        Err(e) => Err(e),
                    },
                    Err(e) => Err(e),
                }
            },
            Err(e) => Err(e),
        },
        Err(e) => Err(e),
    }
}

/// One field declaration, `Identifier ':' Type '?'?`, starting at `i`.
pub open spec fn sp_field(toks: Seq<TokenView>, i: nat, bound: nat) -> Result<
    (FieldView, nat),
    ParseErrorView,
>
    decreases bound - i, 1int,
{
    if i >= bound {
        Err(err_eoi())
    } else {
        match toks[i as int] {
            TokenView::Ident(_, name) => match sp_expect(
                toks,
                (i + 1) as nat,
                bound,
                ExpectedToken::Colon,
            ) {
                Ok(j) => match sp_type(toks, j, bound) {
                    Ok((t, j2)) => {
                        let (nullable, j3) = sp_nullable(toks, j2, bound);
                        Ok((FieldView { name, data_type: t, nullable }, j3))
                    },
                    Err(e) => Err(e),
                },
                Err(e) => Err(e),
            },
            t => Err(err_unexpected(t.offset())),
        }
    }
}

/// A field list, `Field (',' Field)*`, starting at `i` and filling
/// `i .. bound` exactly: the fields in order and the position after them, or
/// the first error. At least one field is demanded, and every separating
/// comma must be followed by another field.
pub open spec fn sp_fields(toks: Seq<TokenView>, i: nat, bound: nat) -> Result<
    (Seq<FieldView>, nat),
    ParseErrorView,
>
    decreases bound - i, 2int,
{
    match sp_field(toks, i, bound) {
        Ok((f, j)) => if j <= i || j > bound {
            // a field consumes at least one token and stays in bounds; never taken
            Err(err_eoi())
        } else {
            match sp_fields_rest(toks, j, bound) {
                Ok((rest, k)) => Ok((seq![f] + rest, k)),
                Err(e) => Err(e),
            }
        },
        Err(e) => Err(e),
    }
}

/// What remains of a field list after a field: nothing when the bound is
/// reached, else a separating comma and at least one more field.
pub open spec fn sp_fields_rest(toks: Seq<TokenView>, j: nat, bound: nat) -> Result<
    (Seq<FieldView>, nat),
    ParseErrorView,
>
    decreases bound - j, 3int,
{
    if j >= bound {
        Ok((Seq::empty(), j))
    } else {
        match toks[j as int] {
            TokenView::Comma(_) => sp_fields(toks, (j + 1) as nat, bound),
            t => Err(err_unexpected(t.offset())),
        }
    }
}

/// The parse of a whole schema string: its token sequence parsed as a field
/// list that must fill the whole sequence.
pub open spec fn spec_parse_schema(s: Seq<char>) -> Result<Seq<FieldView>, ParseErrorView> {
    let toks = spec_tokenize(s);
    match sp_fields(toks, 0, toks.len()) {
        Ok((fields, _)) => Ok(fields),
        Err(e) => Err(e),
    }
}

/// The token at the cursor, without consuming it.
fn peek_token<'a>(token_list: &'a Vec<Token>, i: usize, bound: usize) -> (r: Option<&'a Token>)
    requires
        bound <= token_list@.len(),
    ensures
        match r {
            Some(t) => i < bound && *t == token_list@[i as int],
            None => i >= bound,
        },
{
    if i < bound {
        Some(&token_list[i])
    } else {
        None
    }
}

/// The token at the cursor, consuming it; end of input is an error.
fn next_token<'a>(token_list: &'a Vec<Token>, i: &mut usize, bound: usize) -> (r: Result<
    &'a Token,
    ParseError,
>)
    requires
        *old(i) <= bound,
        bound <= token_list@.len(),
    ensures
        match r {
            Ok(t) => *old(i) < bound && *final(i) == *old(i) + 1 && *t == token_list@[*old(i) as int],
            Err(e) => *old(i) >= bound && *final(i) == *old(i) && e.deep_view() == err_eoi(),
        },
{
    if *i < bound {
        let t = &token_list[*i];
        *i = *i + 1;
        Ok(t)
    } else {
        Err(ParseError::new(ParseErrorKind::UnexpectedEndOfInput, None))
    }
}

/// Demands the next token to be of the given kind and consumes it.
fn expect(token_list: &Vec<Token>, i: &mut usize, bound: usize, kind: ExpectedToken) -> (r: Result<
    (),
    ParseError,
>)
    requires
        *old(i) <= bound,
        bound <= token_list@.len(),
    ensures
        *old(i) <= *final(i) <= bound,
        match r {
            Ok(_) => sp_expect(token_list.deep_view(), *old(i) as nat, bound as nat, kind)
                == Ok::<nat, ParseErrorView>(*final(i) as nat),
            Err(e) => sp_expect(token_list.deep_view(), *old(i) as nat, bound as nat, kind)
                == Err::<nat, ParseErrorView>(e.deep_view()),
        },
{
    proof {
        if *i < bound {
            assert(token_list.deep_view()[*i as int] == token_list@[*i as int].deep_view());
        }
    }
    let t = match next_token(token_list, i, bound) {
        Ok(t) => t,
        Err(e) => {
            return Err(e);
        },
    };
    let matched = match (t, kind) {
        (Token::Colon(_), ExpectedToken::Colon) => true,
        (Token::Comma(_), ExpectedToken::Comma) => true,
        (Token::Lt(_), ExpectedToken::Lt) => true,
        (Token::Gt(_), ExpectedToken::Gt) => true,
        _ => false,
    };
    if matched {
        Ok(())
    } else {
        Err(ParseError::new(ParseErrorKind::UnexpectedToken, Some(t.get_index())))
    }
}

/// Demands a `,`.
fn expect_comma(token_list: &Vec<Token>, i: &mut usize, bound: usize) -> (r: Result<
    (),
    ParseError,
>)
    requires
        *old(i) <= bound,
        bound <= token_list@.len(),
    ensures
        *old(i) <= *final(i) <= bound,
        match r {
            Ok(_) => sp_expect(
                token_list.deep_view(),
                *old(i) as nat,
                bound as nat,
                ExpectedToken::Comma,
            ) == Ok::<nat, ParseErrorView>(*final(i) as nat),
            Err(e) => sp_expect(
                token_list.deep_view(),
                *old(i) as nat,
                bound as nat,
                ExpectedToken::Comma,
            ) == Err::<nat, ParseErrorView>(e.deep_view()),
        },
{
    expect(token_list, i, bound, ExpectedToken::Comma)
}

/// Demands a `<`.
fn expect_lt(token_list: &Vec<Token>, i: &mut usize, bound: usize) -> (r: Result<(), ParseError>)
    requires
        *old(i) <= bound,
        bound <= token_list@.len(),
    ensures
        *old(i) <= *final(i) <= bound,
        match r {
            Ok(_) => sp_expect(
                token_list.deep_view(),
                *old(i) as nat,
                bound as nat,
                ExpectedToken::Lt,
            ) == Ok::<nat, ParseErrorView>(*final(i) as nat),
            Err(e) => sp_expect(
                token_list.deep_view(),
                *old(i) as nat,
                bound as nat,
                ExpectedToken::Lt,
            ) == Err::<nat, ParseErrorView>(e.deep_view()),
        },
{
    expect(token_list, i, bound, ExpectedToken::Lt)
}

/// Demands a `>`.
fn expect_gt(token_list: &Vec<Token>, i: &mut usize, bound: usize) -> (r: Result<(), ParseError>)
    requires
        *old(i) <= bound,
        bound <= token_list@.len(),
    ensures
        *old(i) <= *final(i) <= bound,
        match r {
            Ok(_) => sp_expect(
                token_list.deep_view(),
                *old(i) as nat,
                bound as nat,
                ExpectedToken::Gt,
            ) == Ok::<nat, ParseErrorView>(*final(i) as nat),
            Err(e) => sp_expect(
                token_list.deep_view(),
                *old(i) as nat,
                bound as nat,
                ExpectedToken::Gt,
            ) == Err::<nat, ParseErrorView>(e.deep_view()),
        },
{
    expect(token_list, i, bound, ExpectedToken::Gt)
}

/// Demands a `:`.
fn expect_colon(token_list: &Vec<Token>, i: &mut usize, bound: usize) -> (r: Result<
    (),
    ParseError,
>)
    requires
        *old(i) <= bound,
        bound <= token_list@.len(),
    ensures
        *old(i) <= *final(i) <= bound,
        match r {
            Ok(_) => sp_expect(
                token_list.deep_view(),
                *old(i) as nat,
                bound as nat,
                ExpectedToken::Colon,
            ) == Ok::<nat, ParseErrorView>(*final(i) as nat),
            Err(e) => sp_expect(
                token_list.deep_view(),
                *old(i) as nat,
                bound as nat,
                ExpectedToken::Colon,
            ) == Err::<nat, ParseErrorView>(e.deep_view()),
        },
{
    expect(token_list, i, bound, ExpectedToken::Colon)
}

/// Consumes a trailing `?` when one is there; a peek-only test otherwise.
fn check_nullable(token_list: &Vec<Token>, i: &mut usize, bound: usize) -> (nullable: bool)
    requires
        *old(i) <= bound,
        bound <= token_list@.len(),
    ensures
        *old(i) <= *final(i) <= bound,
        sp_nullable(token_list.deep_view(), *old(i) as nat, bound as nat) == (
            nullable,
            *final(i) as nat,
        ),
{
    proof {
        if *i < bound {
            assert(token_list.deep_view()[*i as int] == token_list@[*i as int].deep_view());
        }
    }
    let mut nullable = false;
    match peek_token(token_list, *i, bound) {
        Some(t) => match t {
            Token::Question(_) => {
                nullable = true;
                *i = *i + 1;
            },
            _ => {},
        },
        None => {},
    }
    nullable
}

/// Scans forward from `start`, counting bracket depth, to the index of the
/// `>` that balances an already-consumed `<`; an error when the brackets
/// never balance before `bound`.
fn find_matching_gt(token_list: &Vec<Token>, start: usize, bound: usize) -> (r: Result<
    usize,
    ParseError,
>)
    requires
        start <= bound,
        bound <= token_list@.len(),
    ensures
        match r {
            Ok(g) => sp_matching_gt(token_list.deep_view(), start as nat, bound as nat, 1)
                == Some(g as nat) && start <= g < bound,
            Err(e) => sp_matching_gt(token_list.deep_view(), start as nat, bound as nat, 1)
                is None && e.deep_view() == err_unmatched(),
        },
{
    let mut depth: u128 = 1;
    let mut k = start;

    while k < bound
        invariant
            start <= k <= bound,
            bound <= token_list@.len(),
            1 <= depth <= k - start + 1,
            sp_matching_gt(token_list.deep_view(), k as nat, bound as nat, depth as nat)
                == sp_matching_gt(token_list.deep_view(), start as nat, bound as nat, 1),
        decreases bound - k,
    {
        proof {
            assert(token_list.deep_view()[k as int] == token_list@[k as int].deep_view());
        }
        match &token_list[k] {
            Token::Lt(_) => {
                depth = depth + 1;
            },
            Token::Gt(_) => {
                if depth == 1 {
                    return Ok(k);
                }
                depth = depth - 1;
            },
            _ => {},
        }
        k = k + 1;
    }

    Err(ParseError::new(ParseErrorKind::UnmatchedOpenBracket, None))
}

/// One type expression at the cursor: a primitive keyword, or a composite
/// dispatched on `array`, `struct` or `map`.
fn parse_type(token_list: &Vec<Token>, i: &mut usize, bound: usize) -> (r: Result<
    TypeNode,
    ParseError,
>)
    requires
        *old(i) <= bound,
        bound <= token_list@.len(),
    ensures
        *old(i) <= *final(i) <= bound,
        match r {
            Ok(t) => sp_type(token_list.deep_view(), *old(i) as nat, bound as nat) == Ok::<
                (TypeNodeView, nat),
                ParseErrorView,
            >((type_node_view(t), *final(i) as nat)) && *old(i) < *final(i),
            Err(e) => sp_type(token_list.deep_view(), *old(i) as nat, bound as nat) == Err::<
                (TypeNodeView, nat),
                ParseErrorView,
            >(e.deep_view()),
        },
    decreases bound - *old(i), 0int,
{
    proof {
        if *i < bound {
            assert(token_list.deep_view()[*i as int] == token_list@[*i as int].deep_view());
        }
    }
    let token = match next_token(token_list, i, bound) {
        Ok(t) => t,
        Err(e) => {
            return Err(e);
        },
    };
    match token {
        Token::Ident(token_index, type_str) => {
            if str_eq(type_str.as_str(), "string") {
                Ok(TypeNode::Primitive(PrimitiveKind::String))
            } else if str_eq(type_str.as_str(), "long") {
                Ok(TypeNode::Primitive(PrimitiveKind::Long))
            } else if str_eq(type_str.as_str(), "int") {
                Ok(TypeNode::Primitive(PrimitiveKind::Integer))
            } else if str_eq(type_str.as_str(), "short") {
                Ok(TypeNode::Primitive(PrimitiveKind::Short))
            } else if str_eq(type_str.as_str(), "byte") {
                Ok(TypeNode::Primitive(PrimitiveKind::Byte))
            } else if str_eq(type_str.as_str(), "float") {
                Ok(TypeNode::Primitive(PrimitiveKind::Float))
            } else if str_eq(type_str.as_str(), "double") {
                Ok(TypeNode::Primitive(PrimitiveKind::Double))
            } else if str_eq(type_str.as_str(), "boolean") {
                Ok(TypeNode::Primitive(PrimitiveKind::Boolean))
            } else if str_eq(type_str.as_str(), "binary") {
                Ok(TypeNode::Primitive(PrimitiveKind::Binary))
            } else if str_eq(type_str.as_str(), "date") {
                Ok(TypeNode::Primitive(PrimitiveKind::Date))
            } else if str_eq(type_str.as_str(), "timestamp") {
                Ok(TypeNode::Primitive(PrimitiveKind::Timestamp))
            } else if str_eq(type_str.as_str(), "array") {
                parse_array_type(token_list, i, bound)
            } else if str_eq(type_str.as_str(), "struct") {
                parse_struct_type(token_list, i, bound)
            } else if str_eq(type_str.as_str(), "map") {
                parse_map_type(token_list, i, bound)
            } else {
                Err(ParseError {
                    kind: ParseErrorKind::UnknownTypeKeyword,
                    offset: Some(*token_index),
                    word: type_str.clone(),
                })
            }
        },
        _ => Err(ParseError::new(ParseErrorKind::UnexpectedToken, Some(token.get_index()))),
    }
}

/// An array type's tail: `<`, the element type, an optional `?` for element
/// nullability, `>`. A missing closing `>` here fails with the
/// unexpected-end-of-input error; only a struct's `<`, whose bound must be
/// found up front, reports an unmatched bracket instead.
pub fn parse_array_type(token_list: &Vec<Token>, i: &mut usize, bound: usize) -> (r: Result<
    TypeNode,
    ParseError,
>)
    requires
        *old(i) <= bound,
        bound <= token_list@.len(),
    ensures
        *old(i) <= *final(i) <= bound,
        match r {
            Ok(t) => sp_array(token_list.deep_view(), *old(i) as nat, bound as nat) == Ok::<
                (TypeNodeView, nat),
                ParseErrorView,
            >((type_node_view(t), *final(i) as nat)) && *old(i) < *final(i),
            Err(e) => sp_array(token_list.deep_view(), *old(i) as nat, bound as nat) == Err::<
                (TypeNodeView, nat),
                ParseErrorView,
            >(e.deep_view()),
        },
    decreases bound - *old(i), 3int,
{
    match expect_lt(token_list, i, bound) {
        Ok(_) => {},
        Err(e) => {
            return Err(e);
        },
    }
    let elem = match parse_type(token_list, i, bound) {
        Ok(t) => t,
        Err(e) => {
            return Err(e);
        },
    };
    let nullable = check_nullable(token_list, i, bound);
    match expect_gt(token_list, i, bound) {
        Ok(_) => {},
        Err(e) => {
            return Err(e);
        },
    }
    Ok(TypeNode::Array(Box::new(elem), nullable))
}

/// A struct type's tail: `<`, a field list bounded by the matching `>`, then
/// that `>`. The bound must be found first, for without it a nested field
/// list could not tell where it ends and an enclosing one resumes.
pub fn parse_struct_type(token_list: &Vec<Token>, i: &mut usize, bound: usize) -> (r: Result<
    TypeNode,
    ParseError,
>)
    requires
        *old(i) <= bound,
        bound <= token_list@.len(),
    ensures
        *old(i) <= *final(i) <= bound,
        match r {
            Ok(t) => sp_struct(token_list.deep_view(), *old(i) as nat, bound as nat) == Ok::<
                (TypeNodeView, nat),
                ParseErrorView,
            >((type_node_view(t), *final(i) as nat)) && *old(i) < *final(i),
            Err(e) => sp_struct(token_list.deep_view(), *old(i) as nat, bound as nat) == Err::<
                (TypeNodeView, nat),
                ParseErrorView,
            >(e.deep_view()),
        },
    decreases bound - *old(i), 3int,
{
    match expect_lt(token_list, i, bound) {
        Ok(_) => {},
        Err(e) => {
            return Err(e);
        },
    }
    let gt_index = match find_matching_gt(token_list, *i, bound) {
        Ok(g) => g,
        Err(e) => {
            return Err(e);
        },
    };
    let fields = match parse_field_list(token_list, i, gt_index) {
        Ok(fields) => fields,
        Err(e) => {
            return Err(e);
        },
    };
    match expect_gt(token_list, i, bound) {
        Ok(_) => {},
        Err(e) => {
            return Err(e);
        },
    }
    proof {
        assert(crate::types::vec_fields_view(fields) == fields_view(fields@));
        assert(type_node_view(TypeNode::Struct(fields)) == TypeNodeView::Struct(
            fields_view(fields@),
        ));
    }
    Ok(TypeNode::Struct(fields))
}

/// A map type's tail: `<`, the key type, `,`, the value type, an optional
/// `?` for value nullability, `>`. The key type may itself be any type; a
/// nullability marker is not attached to the key position at all.
pub fn parse_map_type(token_list: &Vec<Token>, i: &mut usize, bound: usize) -> (r: Result<
    TypeNode,
    ParseError,
>)
    requires
        *old(i) <= bound,
        bound <= token_list@.len(),
    ensures
        *old(i) <= *final(i) <= bound,
        match r {
            Ok(t) => sp_map(token_list.deep_view(), *old(i) as nat, bound as nat) == Ok::<
                (TypeNodeView, nat),
                ParseErrorView,
            >((type_node_view(t), *final(i) as nat)) && *old(i) < *final(i),
            Err(e) => sp_map(token_list.deep_view(), *old(i) as nat, bound as nat) == Err::<
                (TypeNodeView, nat),
                ParseErrorView,
            >(e.deep_view()),
        },
    decreases bound - *old(i), 3int,
{
    match expect_lt(token_list, i, bound) {
        Ok(_) => {},
        Err(e) => {
            return Err(e);
        },
    }
    let key_type = match parse_type(token_list, i, bound) {
        Ok(t) => t,
        Err(e) => {
            return Err(e);
        },
    };
    match expect_comma(token_list, i, bound) {
        Ok(_) => {},
        Err(e) => {
            return Err(e);
        },
    }
    let value_type = match parse_type(token_list, i, bound) {
        Ok(t) => t,
        Err(e) => {
            return Err(e);
        },
    };
    let nullable = check_nullable(token_list, i, bound);
    match expect_gt(token_list, i, bound) {
        Ok(_) => {},
        Err(e) => {
            return Err(e);
        },
    }
    Ok(TypeNode::Mapping(Box::new(key_type), Box::new(value_type), nullable))
}

/// One field declaration at the cursor: a column name, `:`, a type, and an
/// optional trailing `?` for nullability.
fn parse_field(token_list: &Vec<Token>, i: &mut usize, bound: usize) -> (r: Result<
    Field,
    ParseError,
>)
    requires
        *old(i) <= bound,
        bound <= token_list@.len(),
    ensures
        *old(i) <= *final(i) <= bound,
        match r {
            Ok(f) => sp_field(token_list.deep_view(), *old(i) as nat, bound as nat) == Ok::<
                (FieldView, nat),
                ParseErrorView,
            >((field_view(f), *final(i) as nat)) && *old(i) < *final(i),
            Err(e) => sp_field(token_list.deep_view(), *old(i) as nat, bound as nat) == Err::<
                (FieldView, nat),
                ParseErrorView,
            >(e.deep_view()),
        },
    decreases bound - *old(i), 1int,
{
    proof {
        if *i < bound {
            assert(token_list.deep_view()[*i as int] == token_list@[*i as int].deep_view());
        }
    }
    let token = match next_token(token_list, i, bound) {
        Ok(t) => t,
        Err(e) => {
            return Err(e);
        },
    };
    let name = match token {
        Token::Ident(_, ident) => ident.clone(),
        _ => {
            return Err(ParseError::new(ParseErrorKind::UnexpectedToken, Some(token.get_index())));
        },
    };
    match expect_colon(token_list, i, bound) {
        Ok(_) => {},
        Err(e) => {
            return Err(e);
        },
    }
    let t = match parse_type(token_list, i, bound) {
        Ok(t) => t,
        Err(e) => {
            return Err(e);
        },
    };
    let nullable = check_nullable(token_list, i, bound);
    Ok(Field { name, data_type: t, nullable })
}

/// A field list filling the cursor's range exactly: one field, then a comma
/// and another field as long as tokens remain before the bound.
fn parse_field_list(token_list: &Vec<Token>, i: &mut usize, bound: usize) -> (r: Result<
    Vec<Field>,
    ParseError,
>)
    requires
        *old(i) <= bound,
        bound <= token_list@.len(),
    ensures
        *old(i) <= *final(i) <= bound,
        match r {
            Ok(fields) => sp_fields(token_list.deep_view(), *old(i) as nat, bound as nat) == Ok::<
                (Seq<FieldView>, nat),
                ParseErrorView,
            >((fields_view(fields@), *final(i) as nat)) && *old(i) < *final(i),
            Err(e) => sp_fields(token_list.deep_view(), *old(i) as nat, bound as nat) == Err::<
                (Seq<FieldView>, nat),
                ParseErrorView,
            >(e.deep_view()),
        },
    decreases bound - *old(i), 2int,
{
    let mut columns: Vec<Field> = Vec::new();

    let first = match parse_field(token_list, i, bound) {
        Ok(f) => f,
        Err(e) => {
            return Err(e);
        },
    };
    columns.push(first);
    proof {
        crate::types::lemma_fields_view(columns@);
        assert(fields_view(columns@) =~= seq![field_view(first)]);
    }

    while *i < bound
        invariant
            *old(i) < *i <= bound,
            bound <= token_list@.len(),
            columns@.len() >= 1,
            match sp_fields_rest(token_list.deep_view(), *i as nat, bound as nat) {
                Ok((rest, k)) => sp_fields(token_list.deep_view(), *old(i) as nat, bound as nat)
                    == Ok::<(Seq<FieldView>, nat), ParseErrorView>((
                    fields_view(columns@) + rest,
                    k,
                )),
                Err(e) => sp_fields(token_list.deep_view(), *old(i) as nat, bound as nat) == Err::<
                    (Seq<FieldView>, nat),
                    ParseErrorView,
                >(e),
            },
        decreases bound - *i,
    {
        let ghost pre_i = *i as nat;
        let ghost pre_cols = columns@;
        proof {
            assert(token_list.deep_view()[*i as int] == token_list@[*i as int].deep_view());
        }
        match expect_comma(token_list, i, bound) {
            Ok(_) => {},
            Err(e) => {
                return Err(e);
            },
        }
        let f = match parse_field(token_list, i, bound) {
            Ok(f) => f,
            Err(e) => {
                return Err(e);
            },
        };
        columns.push(f);
        proof {
            crate::types::lemma_fields_view_push(pre_cols, f);
            assert(fields_view(columns@) =~= fields_view(pre_cols) + seq![field_view(f)]);
            match sp_fields_rest(token_list.deep_view(), *i as nat, bound as nat) {
                Ok((rest2, k2)) => {
                    assert(fields_view(pre_cols) + (seq![field_view(f)] + rest2) =~= fields_view(
                        columns@,
                    ) + rest2);
                },
                Err(e2) => {},
            }
        }
    }

    proof {
        assert(fields_view(columns@) + Seq::<FieldView>::empty() =~= fields_view(columns@));
    }
    Ok(columns)
}

/// Parses a whole schema string into its ordered field list. The result is
/// exactly what the grammar assigns to the string's token sequence; the
/// first failed expectation aborts the parse with a structured error and no
/// partial field list.
pub fn parse_schema(schema_str: &str) -> (r: Result<Vec<Field>, ParseError>)
    ensures
        match r {
            Ok(fields) => spec_parse_schema(schema_str@) == Ok::<Seq<FieldView>, ParseErrorView>(
                fields_view(fields@),
            ),
            Err(e) => spec_parse_schema(schema_str@) == Err::<Seq<FieldView>, ParseErrorView>(
                e.deep_view(),
            ),
        },
{
    let token_list = tokenize(schema_str);
    proof {
        assert(token_list.deep_view().len() == token_list@.len());
    }
    let n = token_list.len();
    let mut i: usize = 0;
    parse_field_list(&token_list, &mut i, n)
}

} // verus!
