//! The render/parse round trip: a column type tree that stays inside the
//! grammar renders to text whose token sequence parses back to the same
//! tree, up to the documented asymmetries — nullability of array elements,
//! struct fields and map values is not re-emitted by the renderer, so it
//! comes back as `false`.

use vstd::prelude::*;

use crate::parser::{
    primitive_of, sp_array, sp_expect, sp_field, sp_fields, sp_fields_rest, sp_map,
    sp_matching_gt, sp_nullable, sp_struct, sp_type, spec_parse_schema, ExpectedToken,
    ParseErrorView,
};
use crate::render::{
    primitive_keyword, spec_render, spec_render_field_decl, spec_render_fields, spec_render_map,
    ColumnFieldView, ColumnTypeView,
};
use crate::tokenizer::{flush_view, is_whitespace_char, spec_tokenize, tok_scan, TokenView};
use crate::types::{FieldView, PrimitiveKind, TypeNodeView};

verus! {

/// A token with its offset forgotten: what the parser's decisions depend on
/// whenever it succeeds.
pub enum TokenShape {
    Ident(Seq<char>),
    Colon,
    Comma,
    Question,
    Lt,
    Gt,
    LParen,
    RParen,
}

/// The shape of a token.
pub open spec fn shape_of(t: TokenView) -> TokenShape {
    match t {
        TokenView::Ident(_, s) => TokenShape::Ident(s),
        TokenView::Colon(_) => TokenShape::Colon,
        TokenView::Comma(_) => TokenShape::Comma,
        TokenView::Question(_) => TokenShape::Question,
        TokenView::Lt(_) => TokenShape::Lt,
        TokenView::Gt(_) => TokenShape::Gt,
        TokenView::LParen(_) => TokenShape::LParen,
        TokenView::RParen(_) => TokenShape::RParen,
    }
}

/// The shapes of a token sequence.
pub open spec fn shapes(toks: Seq<TokenView>) -> Seq<TokenShape> {
    toks.map_values(|t: TokenView| shape_of(t))
}

/// The token shapes that the rendered text of `t` tokenizes to.
pub open spec fn render_shapes(t: ColumnTypeView) -> Seq<TokenShape>
    decreases t, 2int,
{
    match t {
        ColumnTypeView::Primitive(k) => seq![TokenShape::Ident(primitive_keyword(k))],
        ColumnTypeView::List(f) => seq![TokenShape::Ident("array"@), TokenShape::Lt]
            + render_shapes((*f).data_type) + seq![TokenShape::Gt],
        ColumnTypeView::Struct(fields) => seq![TokenShape::Ident("struct"@), TokenShape::Lt]
            + render_fields_shapes(fields) + seq![TokenShape::Gt],
        ColumnTypeView::Mapping(entry) => match (*entry).data_type {
            ColumnTypeView::Struct(children) => if children.len() == 2 {
                seq![TokenShape::Ident("map"@), TokenShape::Lt] + render_shapes(
                    children[0].data_type,
                ) + seq![TokenShape::Comma] + render_shapes(children[1].data_type) + seq![
                    TokenShape::Gt,
                ]
            } else {
                Seq::empty()
            },
            _ => Seq::empty(),
        },
        _ => Seq::empty(),
    }
}

/// The token shapes of a rendered field list body.
pub open spec fn render_fields_shapes(fields: Seq<ColumnFieldView>) -> Seq<TokenShape>
    decreases fields, 2int,
{
    if fields.len() == 0 {
        Seq::empty()
    } else {
        let head = seq![TokenShape::Ident(fields[0].name), TokenShape::Colon] + render_shapes(
            fields[0].data_type,
        );
        if fields.len() == 1 {
            head
        } else {
            head + seq![TokenShape::Comma] + render_fields_shapes(
                fields.subrange(1, fields.len() as int),
            )
        }
    }
}

/// A character that extends a pending identifier: neither a delimiter nor
/// whitespace.
pub open spec fn ordinary_char(c: char) -> bool {
    !(c == ':' || c == ',' || c == '?' || c == '<' || c == '>' || c == '(' || c == ')'
        || is_whitespace_char(c))
}

/// A word every character of which is ordinary.
pub open spec fn ordinary_word(w: Seq<char>) -> bool {
    forall|d: int| 0 <= d < w.len() ==> ordinary_char(#[trigger] w[d])
}

/// A field or column name that tokenizes as one identifier: non-empty, with
/// no delimiter characters and no whitespace in it.
pub open spec fn valid_name(name: Seq<char>) -> bool {
    name.len() >= 1 && ordinary_word(name)
}

/// The trees inside the grammar: what the renderer emits for them is text
/// the parser accepts. Decimals, dictionary encodings and foreign kinds lie
/// outside; a struct must have at least one field, every name must tokenize
/// as one identifier, and a map's entries must be a two-field record with a
/// non-nullable key.
pub open spec fn parseable(t: ColumnTypeView) -> bool
    decreases t, 2int,
{
    match t {
        ColumnTypeView::Primitive(_) => true,
        ColumnTypeView::List(f) => parseable((*f).data_type),
        ColumnTypeView::Struct(fields) => fields.len() >= 1 && parseable_fields(fields),
        ColumnTypeView::Mapping(entry) => match (*entry).data_type {
            ColumnTypeView::Struct(children) => children.len() == 2 && !children[0].nullable
                && parseable(children[0].data_type) && parseable(children[1].data_type),
            _ => false,
        },
        _ => false,
    }
}

/// Every field of the list is parseable and validly named.
pub open spec fn parseable_fields(fields: Seq<ColumnFieldView>) -> bool
    decreases fields, 2int,
{
    if fields.len() == 0 {
        true
    } else {
        valid_name(fields[0].name) && parseable(fields[0].data_type) && parseable_fields(
            fields.subrange(1, fields.len() as int),
        )
    }
}

/// The tree that rendered text parses back to: the same tree, with the
/// nullability the renderer does not emit erased to `false`.
pub open spec fn reparsed_form(t: ColumnTypeView) -> TypeNodeView
    decreases t, 2int,
{
    match t {
        ColumnTypeView::Primitive(k) => TypeNodeView::Primitive(k),
        ColumnTypeView::List(f) => TypeNodeView::Array(
            Box::new(reparsed_form((*f).data_type)),
            false,
        ),
        ColumnTypeView::Struct(fields) => TypeNodeView::Struct(reparsed_fields(fields)),
        ColumnTypeView::Mapping(entry) => match (*entry).data_type {
            ColumnTypeView::Struct(children) => if children.len() == 2 {
                TypeNodeView::Mapping(
                    Box::new(reparsed_form(children[0].data_type)),
                    Box::new(reparsed_form(children[1].data_type)),
                    false,
                )
            } else {
                TypeNodeView::Primitive(PrimitiveKind::String)
            },
            _ => TypeNodeView::Primitive(PrimitiveKind::String),
        },
        _ => TypeNodeView::Primitive(PrimitiveKind::String),
    }
}

/// The fields that a rendered field list parses back to.
pub open spec fn reparsed_fields(fields: Seq<ColumnFieldView>) -> Seq<FieldView>
    decreases fields, 2int,
{
    if fields.len() == 0 {
        Seq::empty()
    } else {
        seq![
            FieldView {
                name: fields[0].name,
                data_type: reparsed_form(fields[0].data_type),
                nullable: false,
            },
        ] + reparsed_fields(fields.subrange(1, fields.len() as int))
    }
}

/// The keyword of every primitive kind names that kind and nothing else, and
/// the three composite keywords name no primitive.
pub proof fn lemma_keywords()
    ensures
        forall|k: PrimitiveKind| #[trigger] primitive_of(primitive_keyword(k)) == Some(k),
        primitive_of("array"@) is None,
        primitive_of("struct"@) is None,
        primitive_of("map"@) is None,
        "array"@ != "struct"@,
        "array"@ != "map"@,
        "struct"@ != "map"@,
{
    broadcast use vstd::string::group_string_axioms;

    reveal_strlit("string");
    reveal_strlit("long");
    reveal_strlit("int");
    reveal_strlit("short");
    reveal_strlit("byte");
    reveal_strlit("float");
    reveal_strlit("double");
    reveal_strlit("boolean");
    reveal_strlit("binary");
    reveal_strlit("date");
    reveal_strlit("timestamp");
    reveal_strlit("array");
    reveal_strlit("struct");
    reveal_strlit("map");
    assert("string"@ =~= seq!['s', 't', 'r', 'i', 'n', 'g']);
    assert("long"@ =~= seq!['l', 'o', 'n', 'g']);
    assert("int"@ =~= seq!['i', 'n', 't']);
    assert("short"@ =~= seq!['s', 'h', 'o', 'r', 't']);
    assert("byte"@ =~= seq!['b', 'y', 't', 'e']);
    assert("float"@ =~= seq!['f', 'l', 'o', 'a', 't']);
    assert("double"@ =~= seq!['d', 'o', 'u', 'b', 'l', 'e']);
    assert("boolean"@ =~= seq!['b', 'o', 'o', 'l', 'e', 'a', 'n']);
    assert("binary"@ =~= seq!['b', 'i', 'n', 'a', 'r', 'y']);
    assert("date"@ =~= seq!['d', 'a', 't', 'e']);
    assert("timestamp"@ =~= seq!['t', 'i', 'm', 'e', 's', 't', 'a', 'm', 'p']);
    assert("array"@ =~= seq!['a', 'r', 'r', 'a', 'y']);
    assert("struct"@ =~= seq!['s', 't', 'r', 'u', 'c', 't']);
    assert("map"@ =~= seq!['m', 'a', 'p']);
    assert forall|k: PrimitiveKind| #[trigger] primitive_of(primitive_keyword(k)) == Some(k) by {
        match k {
            PrimitiveKind::String => assert(primitive_of(primitive_keyword(k)) == Some(k)),
            PrimitiveKind::Long => assert(primitive_of(primitive_keyword(k)) == Some(k)),
            PrimitiveKind::Integer => assert(primitive_of(primitive_keyword(k)) == Some(k)),
            PrimitiveKind::Short => assert(primitive_of(primitive_keyword(k)) == Some(k)),
            PrimitiveKind::Byte => assert(primitive_of(primitive_keyword(k)) == Some(k)),
            PrimitiveKind::Float => assert(primitive_of(primitive_keyword(k)) == Some(k)),
            PrimitiveKind::Double => assert(primitive_of(primitive_keyword(k)) == Some(k)),
            PrimitiveKind::Boolean => assert(primitive_of(primitive_keyword(k)) == Some(k)),
            PrimitiveKind::Binary => assert(primitive_of(primitive_keyword(k)) == Some(k)),
            PrimitiveKind::Date => assert(primitive_of(primitive_keyword(k)) == Some(k)),
            PrimitiveKind::Timestamp => assert(primitive_of(primitive_keyword(k)) == Some(k)),
        }
    }
}

/// The tokens from position `i` on carry exactly the given shapes.
pub open spec fn segment_matches(toks: Seq<TokenView>, i: nat, sh: Seq<TokenShape>) -> bool {
    i + sh.len() <= toks.len() && forall|d: int|
        0 <= d < sh.len() ==> shape_of(toks[i + d]) == #[trigger] sh[d]
}

/// A match against a concatenation is a match against each part in turn.
pub proof fn lemma_segment_split(toks: Seq<TokenView>, i: nat, a: Seq<TokenShape>, b: Seq<
    TokenShape,
>)
    requires
        segment_matches(toks, i, a + b),
    ensures
        segment_matches(toks, i, a),
        segment_matches(toks, (i + a.len()) as nat, b),
{
    assert forall|d: int| 0 <= d < a.len() implies shape_of(toks[i + d]) == #[trigger] a[d] by {
        assert((a + b)[d] == a[d]);
    }
    assert forall|d: int|
        0 <= d < b.len() implies shape_of(toks[i + a.len() + d]) == #[trigger] b[d] by {
        assert((a + b)[a.len() + d] == b[d]);
    }
}

/// One position of a matched segment.
pub proof fn lemma_segment_at(toks: Seq<TokenView>, i: nat, sh: Seq<TokenShape>, d: int)
    requires
        segment_matches(toks, i, sh),
        0 <= d < sh.len(),
    ensures
        shape_of(toks[i + d]) == sh[d],
{
}

/// The bracket scan walks over the tokens of a rendered type without
/// finding the balancing `>` in them: the composite forms open and close
/// their own brackets.
pub proof fn lemma_scan_type(
    t: ColumnTypeView,
    toks: Seq<TokenView>,
    k: nat,
    bound: nat,
    depth: nat,
)
    requires
        parseable(t),
        segment_matches(toks, k, render_shapes(t)),
        k + render_shapes(t).len() <= bound,
        bound <= toks.len(),
        depth >= 1,
    ensures
        sp_matching_gt(toks, k, bound, depth) == sp_matching_gt(
            toks,
            (k + render_shapes(t).len()) as nat,
            bound,
            depth,
        ),
    decreases t, 0int,
{
    let sh = render_shapes(t);
    match t {
        ColumnTypeView::Primitive(_) => {
            lemma_segment_at(toks, k, sh, 0);
        },
        ColumnTypeView::List(f) => {
            let inner = render_shapes((*f).data_type);
            assert(sh =~= seq![TokenShape::Ident("array"@), TokenShape::Lt] + (inner + seq![
                TokenShape::Gt,
            ]));
            lemma_segment_split(toks, k, seq![TokenShape::Ident("array"@), TokenShape::Lt], inner
                + seq![TokenShape::Gt]);
            lemma_segment_split(toks, (k + 2) as nat, inner, seq![TokenShape::Gt]);
            lemma_segment_at(toks, k, sh, 0);
            lemma_segment_at(toks, k, sh, 1);
            assert(sh[0] == TokenShape::Ident("array"@));
            assert(sh[1] == TokenShape::Lt);
            assert(sp_matching_gt(toks, k, bound, depth) == sp_matching_gt(toks, (k + 1) as nat,
                bound, depth));
            assert(sp_matching_gt(toks, (k + 1) as nat, bound, depth) == sp_matching_gt(toks, (k
                + 2) as nat, bound, (depth + 1) as nat));
            lemma_scan_type((*f).data_type, toks, (k + 2) as nat, bound, (depth + 1) as nat);
            lemma_segment_at(toks, (k + 2 + inner.len()) as nat, seq![TokenShape::Gt], 0);
            assert(sp_matching_gt(toks, (k + 2 + inner.len()) as nat, bound, (depth + 1) as nat)
                == sp_matching_gt(toks, (k + 3 + inner.len()) as nat, bound, depth));
        },
        ColumnTypeView::Struct(fields) => {
            let inner = render_fields_shapes(fields);
            assert(sh =~= seq![TokenShape::Ident("struct"@), TokenShape::Lt] + (inner + seq![
                TokenShape::Gt,
            ]));
            lemma_segment_split(toks, k, seq![TokenShape::Ident("struct"@), TokenShape::Lt], inner
                + seq![TokenShape::Gt]);
            lemma_segment_split(toks, (k + 2) as nat, inner, seq![TokenShape::Gt]);
            lemma_segment_at(toks, k, sh, 0);
            lemma_segment_at(toks, k, sh, 1);
            assert(sh[0] == TokenShape::Ident("struct"@));
            assert(sh[1] == TokenShape::Lt);
            assert(sp_matching_gt(toks, k, bound, depth) == sp_matching_gt(toks, (k + 1) as nat,
                bound, depth));
            assert(sp_matching_gt(toks, (k + 1) as nat, bound, depth) == sp_matching_gt(toks, (k
                + 2) as nat, bound, (depth + 1) as nat));
            lemma_scan_fields(fields, toks, (k + 2) as nat, bound, (depth + 1) as nat);
            lemma_segment_at(toks, (k + 2 + inner.len()) as nat, seq![TokenShape::Gt], 0);
            assert(sp_matching_gt(toks, (k + 2 + inner.len()) as nat, bound, (depth + 1) as nat)
                == sp_matching_gt(toks, (k + 3 + inner.len()) as nat, bound, depth));
        },
        ColumnTypeView::Mapping(entry) => {
            match (*entry).data_type {
                ColumnTypeView::Struct(children) => {
                    let key = render_shapes(children[0].data_type);
                    let value = render_shapes(children[1].data_type);
                    assert(sh =~= seq![TokenShape::Ident("map"@), TokenShape::Lt] + (key + seq![
                        TokenShape::Comma,
                    ] + value + seq![TokenShape::Gt]));
                    lemma_segment_split(toks, k, seq![TokenShape::Ident("map"@), TokenShape::Lt],
                        key + seq![TokenShape::Comma] + value + seq![TokenShape::Gt]);
                    lemma_segment_split(toks, (k + 2) as nat, key + seq![TokenShape::Comma]
                        + value, seq![TokenShape::Gt]);
                    lemma_segment_split(toks, (k + 2) as nat, key + seq![TokenShape::Comma],
                        value);
                    lemma_segment_split(toks, (k + 2) as nat, key, seq![TokenShape::Comma]);
                    lemma_segment_at(toks, k, sh, 0);
                    lemma_segment_at(toks, k, sh, 1);
                    assert(sh[0] == TokenShape::Ident("map"@));
                    assert(sh[1] == TokenShape::Lt);
                    assert(sp_matching_gt(toks, k, bound, depth) == sp_matching_gt(toks, (k
                        + 1) as nat, bound, depth));
                    assert(sp_matching_gt(toks, (k + 1) as nat, bound, depth) == sp_matching_gt(
                        toks, (k + 2) as nat, bound, (depth + 1) as nat));
                    lemma_scan_type(children[0].data_type, toks, (k + 2) as nat, bound, (depth
                        + 1) as nat);
                    lemma_segment_at(toks, (k + 2 + key.len()) as nat, seq![TokenShape::Comma],
                        0);
                    assert(sp_matching_gt(toks, (k + 2 + key.len()) as nat, bound, (depth
                        + 1) as nat) == sp_matching_gt(toks, (k + 3 + key.len()) as nat, bound, (
                    depth + 1) as nat));
                    lemma_scan_type(children[1].data_type, toks, (k + 3 + key.len()) as nat,
                        bound, (depth + 1) as nat);
                    lemma_segment_at(toks, (k + 2 + key.len() + seq![TokenShape::Comma].len()
                        + value.len()) as nat, seq![TokenShape::Gt], 0);
                    assert(sp_matching_gt(toks, (k + 3 + key.len() + value.len()) as nat, bound, (
                    depth + 1) as nat) == sp_matching_gt(toks, (k + 4 + key.len()
                        + value.len()) as nat, bound, depth));
                    assert(k + sh.len() == k + 4 + key.len() + value.len());
                },
                _ => {},
            }
        },
        _ => {},
    }
}

/// The bracket scan walks over the tokens of a rendered field list without
/// finding the balancing `>` in them.
pub proof fn lemma_scan_fields(
    fields: Seq<ColumnFieldView>,
    toks: Seq<TokenView>,
    k: nat,
    bound: nat,
    depth: nat,
)
    requires
        parseable_fields(fields),
        segment_matches(toks, k, render_fields_shapes(fields)),
        k + render_fields_shapes(fields).len() <= bound,
        bound <= toks.len(),
        depth >= 1,
    ensures
        sp_matching_gt(toks, k, bound, depth) == sp_matching_gt(
            toks,
            (k + render_fields_shapes(fields).len()) as nat,
            bound,
            depth,
        ),
    decreases fields, 1int,
{
    let sh = render_fields_shapes(fields);
    if fields.len() == 0 {
    } else {
        let tsh = render_shapes(fields[0].data_type);
        let head = seq![TokenShape::Ident(fields[0].name), TokenShape::Colon] + tsh;
        if fields.len() == 1 {
            assert(sh =~= seq![TokenShape::Ident(fields[0].name), TokenShape::Colon] + tsh);
            lemma_segment_split(toks, k, seq![
                TokenShape::Ident(fields[0].name),
                TokenShape::Colon,
            ], tsh);
            lemma_segment_at(toks, k, sh, 0);
            lemma_segment_at(toks, k, sh, 1);
            assert(sh[0] == TokenShape::Ident(fields[0].name));
            assert(sh[1] == TokenShape::Colon);
            assert(sp_matching_gt(toks, k, bound, depth) == sp_matching_gt(toks, (k + 1) as nat,
                bound, depth));
            assert(sp_matching_gt(toks, (k + 1) as nat, bound, depth) == sp_matching_gt(toks, (k
                + 2) as nat, bound, depth));
            lemma_scan_type(fields[0].data_type, toks, (k + 2) as nat, bound, depth);
        } else {
            let rest = render_fields_shapes(fields.subrange(1, fields.len() as int));
            assert(sh =~= head + (seq![TokenShape::Comma] + rest));
            lemma_segment_split(toks, k, head, seq![TokenShape::Comma] + rest);
            lemma_segment_split(toks, k, seq![
                TokenShape::Ident(fields[0].name),
                TokenShape::Colon,
            ], tsh);
            lemma_segment_split(toks, (k + head.len()) as nat, seq![TokenShape::Comma], rest);
            lemma_segment_at(toks, k, head, 0);
            lemma_segment_at(toks, k, head, 1);
            assert(head[0] == TokenShape::Ident(fields[0].name));
            assert(head[1] == TokenShape::Colon);
            assert(sp_matching_gt(toks, k, bound, depth) == sp_matching_gt(toks, (k + 1) as nat,
                bound, depth));
            assert(sp_matching_gt(toks, (k + 1) as nat, bound, depth) == sp_matching_gt(toks, (k
                + 2) as nat, bound, depth));
            lemma_scan_type(fields[0].data_type, toks, (k + 2) as nat, bound, depth);
            lemma_segment_at(toks, (k + head.len()) as nat, seq![TokenShape::Comma], 0);
            assert(sp_matching_gt(toks, (k + 2 + tsh.len()) as nat, bound, depth)
                == sp_matching_gt(toks, (k + head.len() + 1) as nat, bound, depth));
            lemma_scan_fields(fields.subrange(1, fields.len() as int), toks, (k + head.len()
                + 1) as nat, bound, depth);
            assert(k + sh.len() == k + head.len() + 1 + rest.len());
        }
    }
}


/// Parsing inverts rendering, type by type: wherever the token shapes of a
/// rendered grammar-conforming tree stand, the type production parses
/// exactly them and yields the tree back, with the un-emitted nullability
/// read as `false`. The surrounding tokens and the bound beyond the segment
/// make no difference.
#[verifier::rlimit(100)]
pub proof fn lemma_parse_rendered_type(
    t: ColumnTypeView,
    toks: Seq<TokenView>,
    i: nat,
    bound: nat,
)
    requires
        parseable(t),
        segment_matches(toks, i, render_shapes(t)),
        i + render_shapes(t).len() <= bound,
        bound <= toks.len(),
    ensures
        sp_type(toks, i, bound) == Ok::<(TypeNodeView, nat), ParseErrorView>(
            (reparsed_form(t), (i + render_shapes(t).len()) as nat),
        ),
    decreases t, 0int,
{
    lemma_keywords();
    let sh = render_shapes(t);
    match t {
        ColumnTypeView::Primitive(kk) => {
            lemma_segment_at(toks, i, sh, 0);
            assert(sh[0] == TokenShape::Ident(primitive_keyword(kk)));
            assert(toks[i as int] is Ident);
            assert(toks[i as int]->Ident_1 == primitive_keyword(kk));
            assert(primitive_of(primitive_keyword(kk)) == Some(kk));
        },
        ColumnTypeView::List(f) => {
            let inner = render_shapes((*f).data_type);
            assert(sh =~= seq![TokenShape::Ident("array"@), TokenShape::Lt] + (inner + seq![
                TokenShape::Gt,
            ]));
            lemma_segment_split(toks, i, seq![TokenShape::Ident("array"@), TokenShape::Lt], inner
                + seq![TokenShape::Gt]);
            lemma_segment_split(toks, (i + 2) as nat, inner, seq![TokenShape::Gt]);
            lemma_segment_at(toks, i, sh, 0);
            lemma_segment_at(toks, i, sh, 1);
            assert(sh[0] == TokenShape::Ident("array"@));
            assert(sh[1] == TokenShape::Lt);
            assert(toks[i as int] is Ident && toks[i as int]->Ident_1 == "array"@);
            assert(sp_type(toks, i, bound) == sp_array(toks, (i + 1) as nat, bound));
            assert(sp_expect(toks, (i + 1) as nat, bound, ExpectedToken::Lt) == Ok::<
                nat,
                ParseErrorView,
            >((i + 2) as nat));
            lemma_parse_rendered_type((*f).data_type, toks, (i + 2) as nat, bound);
            let p = (i + 2 + inner.len()) as nat;
            lemma_segment_at(toks, p, seq![TokenShape::Gt], 0);
            assert(sp_nullable(toks, p, bound) == (false, p));
            assert(sp_expect(toks, p, bound, ExpectedToken::Gt) == Ok::<nat, ParseErrorView>((p
                + 1) as nat));
            assert(i + sh.len() == p + 1);
        },
        ColumnTypeView::Struct(fields) => {
            let inner = render_fields_shapes(fields);
            assert(sh =~= seq![TokenShape::Ident("struct"@), TokenShape::Lt] + (inner + seq![
                TokenShape::Gt,
            ]));
            lemma_segment_split(toks, i, seq![TokenShape::Ident("struct"@), TokenShape::Lt], inner
                + seq![TokenShape::Gt]);
            lemma_segment_split(toks, (i + 2) as nat, inner, seq![TokenShape::Gt]);
            lemma_segment_at(toks, i, sh, 0);
            lemma_segment_at(toks, i, sh, 1);
            assert(sh[0] == TokenShape::Ident("struct"@));
            assert(sh[1] == TokenShape::Lt);
            assert(toks[i as int] is Ident && toks[i as int]->Ident_1 == "struct"@);
            assert(sp_type(toks, i, bound) == sp_struct(toks, (i + 1) as nat, bound));
            assert(sp_expect(toks, (i + 1) as nat, bound, ExpectedToken::Lt) == Ok::<
                nat,
                ParseErrorView,
            >((i + 2) as nat));
            let g = (i + 2 + inner.len()) as nat;
            lemma_scan_fields(fields, toks, (i + 2) as nat, bound, 1);
            lemma_segment_at(toks, g, seq![TokenShape::Gt], 0);
            assert(sp_matching_gt(toks, g, bound, 1) == Some(g));
            assert(sp_matching_gt(toks, (i + 2) as nat, bound, 1) == Some(g));
            lemma_parse_rendered_fields(fields, toks, (i + 2) as nat, g);
            assert(sp_expect(toks, g, bound, ExpectedToken::Gt) == Ok::<nat, ParseErrorView>((g
                + 1) as nat));
            assert(i + sh.len() == g + 1);
        },
        ColumnTypeView::Mapping(entry) => {
            match (*entry).data_type {
                ColumnTypeView::Struct(children) => {
                    let key = render_shapes(children[0].data_type);
                    let value = render_shapes(children[1].data_type);
                    assert(sh =~= seq![TokenShape::Ident("map"@), TokenShape::Lt] + (key + seq![
                        TokenShape::Comma,
                    ] + value + seq![TokenShape::Gt]));
                    lemma_segment_split(toks, i, seq![TokenShape::Ident("map"@), TokenShape::Lt],
                        key + seq![TokenShape::Comma] + value + seq![TokenShape::Gt]);
                    lemma_segment_split(toks, (i + 2) as nat, key + seq![TokenShape::Comma]
                        + value, seq![TokenShape::Gt]);
                    lemma_segment_split(toks, (i + 2) as nat, key + seq![TokenShape::Comma],
                        value);
                    lemma_segment_split(toks, (i + 2) as nat, key, seq![TokenShape::Comma]);
                    lemma_segment_at(toks, i, sh, 0);
                    lemma_segment_at(toks, i, sh, 1);
                    assert(sh[0] == TokenShape::Ident("map"@));
                    assert(sh[1] == TokenShape::Lt);
                    assert(toks[i as int] is Ident && toks[i as int]->Ident_1 == "map"@);
                    assert(sp_type(toks, i, bound) == sp_map(toks, (i + 1) as nat, bound));
                    assert(sp_expect(toks, (i + 1) as nat, bound, ExpectedToken::Lt) == Ok::<
                        nat,
                        ParseErrorView,
                    >((i + 2) as nat));
                    lemma_parse_rendered_type(children[0].data_type, toks, (i + 2) as nat, bound);
                    let p = (i + 2 + key.len()) as nat;
                    lemma_segment_at(toks, p, seq![TokenShape::Comma], 0);
                    assert(sp_expect(toks, p, bound, ExpectedToken::Comma) == Ok::<
                        nat,
                        ParseErrorView,
                    >((p + 1) as nat));
                    lemma_parse_rendered_type(children[1].data_type, toks, (p + 1) as nat, bound);
                    let q = (p + 1 + value.len()) as nat;
                    lemma_segment_at(toks, (i + 2 + key.len() + seq![TokenShape::Comma].len()
                        + value.len()) as nat, seq![TokenShape::Gt], 0);
                    assert(sp_nullable(toks, q, bound) == (false, q));
                    assert(sp_expect(toks, q, bound, ExpectedToken::Gt) == Ok::<
                        nat,
                        ParseErrorView,
                    >((q + 1) as nat));
                    assert(i + sh.len() == q + 1);
                },
                _ => {},
            }
        },
        _ => {},
    }
}

/// Parsing inverts rendering, field list by field list: the field-list
/// production parses the token shapes of a rendered field list exactly to
/// its bound and yields the fields back in order.
pub proof fn lemma_parse_rendered_fields(
    fields: Seq<ColumnFieldView>,
    toks: Seq<TokenView>,
    i: nat,
    bound: nat,
)
    requires
        fields.len() >= 1,
        parseable_fields(fields),
        segment_matches(toks, i, render_fields_shapes(fields)),
        bound == i + render_fields_shapes(fields).len(),
        bound <= toks.len(),
    ensures
        sp_fields(toks, i, bound) == Ok::<(Seq<FieldView>, nat), ParseErrorView>(
            (reparsed_fields(fields), bound as nat),
        ),
    decreases fields, 1int,
{
    let sh = render_fields_shapes(fields);
    let tsh = render_shapes(fields[0].data_type);
    let head = seq![TokenShape::Ident(fields[0].name), TokenShape::Colon] + tsh;
    let sub = fields.subrange(1, fields.len() as int);
    let fv0 = FieldView {
        name: fields[0].name,
        data_type: reparsed_form(fields[0].data_type),
        nullable: false,
    };
    let p = (i + 2 + tsh.len()) as nat;
    if fields.len() == 1 {
        assert(sh =~= seq![TokenShape::Ident(fields[0].name), TokenShape::Colon] + tsh);
        lemma_segment_split(toks, i, seq![
            TokenShape::Ident(fields[0].name),
            TokenShape::Colon,
        ], tsh);
        lemma_segment_at(toks, i, sh, 0);
        lemma_segment_at(toks, i, sh, 1);
        assert(sh[0] == TokenShape::Ident(fields[0].name));
        assert(sh[1] == TokenShape::Colon);
        assert(toks[i as int] is Ident && toks[i as int]->Ident_1 == fields[0].name);
        assert(sp_expect(toks, (i + 1) as nat, bound, ExpectedToken::Colon) == Ok::<
            nat,
            ParseErrorView,
        >((i + 2) as nat));
        lemma_parse_rendered_type(fields[0].data_type, toks, (i + 2) as nat, bound);
        assert(p == bound);
        assert(sp_nullable(toks, p, bound) == (false, p));
        assert(sp_field(toks, i, bound) == Ok::<(FieldView, nat), ParseErrorView>((fv0, p)));
        assert(sp_fields_rest(toks, p, bound) == Ok::<(Seq<FieldView>, nat), ParseErrorView>(
            (Seq::empty(), p),
        ));
        assert(reparsed_fields(sub) == Seq::<FieldView>::empty());
        assert(seq![fv0] + Seq::<FieldView>::empty() =~= reparsed_fields(fields));
    } else {
        let rest = render_fields_shapes(sub);
        assert(sh =~= head + (seq![TokenShape::Comma] + rest));
        lemma_segment_split(toks, i, head, seq![TokenShape::Comma] + rest);
        lemma_segment_split(toks, i, seq![
            TokenShape::Ident(fields[0].name),
            TokenShape::Colon,
        ], tsh);
        lemma_segment_split(toks, (i + head.len()) as nat, seq![TokenShape::Comma], rest);
        lemma_segment_at(toks, i, head, 0);
        lemma_segment_at(toks, i, head, 1);
        assert(head[0] == TokenShape::Ident(fields[0].name));
        assert(head[1] == TokenShape::Colon);
        assert(toks[i as int] is Ident && toks[i as int]->Ident_1 == fields[0].name);
        assert(sp_expect(toks, (i + 1) as nat, bound, ExpectedToken::Colon) == Ok::<
            nat,
            ParseErrorView,
        >((i + 2) as nat));
        lemma_parse_rendered_type(fields[0].data_type, toks, (i + 2) as nat, bound);
        lemma_segment_at(toks, (i + head.len()) as nat, seq![TokenShape::Comma], 0);
        assert(p == i + head.len());
        assert(sp_nullable(toks, p, bound) == (false, p));
        assert(sp_field(toks, i, bound) == Ok::<(FieldView, nat), ParseErrorView>((fv0, p)));
        lemma_parse_rendered_fields(sub, toks, (p + 1) as nat, bound);
        assert(sp_fields_rest(toks, p, bound) == sp_fields(toks, (p + 1) as nat, bound));
        assert(seq![fv0] + reparsed_fields(sub) =~= reparsed_fields(fields));
    }
}


/// The characters from position `i` on begin with the word `w`.
pub open spec fn chars_match(s: Seq<char>, i: nat, w: Seq<char>) -> bool {
    i + w.len() <= s.len() && forall|d: int| 0 <= d < w.len() ==> s[i + d] == #[trigger] w[d]
}

/// A match against a concatenation is a match against each part in turn.
pub proof fn lemma_chars_split(s: Seq<char>, i: nat, a: Seq<char>, b: Seq<char>)
    requires
        chars_match(s, i, a + b),
    ensures
        chars_match(s, i, a),
        chars_match(s, (i + a.len()) as nat, b),
{
    assert forall|d: int| 0 <= d < a.len() implies s[i + d] == #[trigger] a[d] by {
        assert((a + b)[d] == a[d]);
    }
    assert forall|d: int| 0 <= d < b.len() implies s[i + a.len() + d] == #[trigger] b[d] by {
        assert((a + b)[a.len() + d] == b[d]);
    }
}

/// One position of a matched word.
pub proof fn lemma_chars_at(s: Seq<char>, i: nat, w: Seq<char>, d: int)
    requires
        chars_match(s, i, w),
        0 <= d < w.len(),
    ensures
        s[i + d] == w[d],
{
}

/// The shapes of a concatenation are the concatenated shapes.
pub proof fn lemma_shapes_add(a: Seq<TokenView>, b: Seq<TokenView>)
    ensures
        shapes(a + b) == shapes(a) + shapes(b),
{
    assert(shapes(a + b) =~= shapes(a) + shapes(b));
}

/// At shape level, the tokens scanned from a position do not depend on where
/// the pending buffer is recorded to have begun: that offset only tags the
/// identifier token the buffer flushes into.
pub proof fn lemma_tok_scan_start_shapes(
    s: Seq<char>,
    i: nat,
    st1: nat,
    st2: nat,
    buf: Seq<char>,
)
    ensures
        shapes(tok_scan(s, i, st1, buf)) == shapes(tok_scan(s, i, st2, buf)),
    decreases s.len() - i,
{
    if i >= s.len() {
        assert(shapes(tok_scan(s, i, st1, buf)) =~= shapes(tok_scan(s, i, st2, buf)));
    } else {
        let c = s[i as int];
        let rest1 = tok_scan(s, (i + 1) as nat, st1, Seq::empty());
        let rest2 = tok_scan(s, (i + 1) as nat, st2, Seq::empty());
        let f1 = flush_view(st1, buf);
        let f2 = flush_view(st2, buf);
        if c == ':' {
            lemma_tok_scan_start_shapes(s, (i + 1) as nat, st1, st2, Seq::empty());
            lemma_shapes_add(f1 + seq![TokenView::Colon(i)], rest1);
            lemma_shapes_add(f1, seq![TokenView::Colon(i)]);
            lemma_shapes_add(f2 + seq![TokenView::Colon(i)], rest2);
            lemma_shapes_add(f2, seq![TokenView::Colon(i)]);
            assert(shapes(f1) =~= shapes(f2));
        }
        else if c == ',' {
            lemma_tok_scan_start_shapes(s, (i + 1) as nat, st1, st2, Seq::empty());
            lemma_shapes_add(f1 + seq![TokenView::Comma(i)], rest1);
            lemma_shapes_add(f1, seq![TokenView::Comma(i)]);
            lemma_shapes_add(f2 + seq![TokenView::Comma(i)], rest2);
            lemma_shapes_add(f2, seq![TokenView::Comma(i)]);
            assert(shapes(f1) =~= shapes(f2));
        }
        else if c == '?' {
            lemma_tok_scan_start_shapes(s, (i + 1) as nat, st1, st2, Seq::empty());
            lemma_shapes_add(f1 + seq![TokenView::Question(i)], rest1);
            lemma_shapes_add(f1, seq![TokenView::Question(i)]);
            lemma_shapes_add(f2 + seq![TokenView::Question(i)], rest2);
            lemma_shapes_add(f2, seq![TokenView::Question(i)]);
            assert(shapes(f1) =~= shapes(f2));
        }
        else if c == '<' {
            lemma_tok_scan_start_shapes(s, (i + 1) as nat, st1, st2, Seq::empty());
            lemma_shapes_add(f1 + seq![TokenView::Lt(i)], rest1);
            lemma_shapes_add(f1, seq![TokenView::Lt(i)]);
            lemma_shapes_add(f2 + seq![TokenView::Lt(i)], rest2);
            lemma_shapes_add(f2, seq![TokenView::Lt(i)]);
            assert(shapes(f1) =~= shapes(f2));
        }
        else if c == '>' {
            lemma_tok_scan_start_shapes(s, (i + 1) as nat, st1, st2, Seq::empty());
            lemma_shapes_add(f1 + seq![TokenView::Gt(i)], rest1);
            lemma_shapes_add(f1, seq![TokenView::Gt(i)]);
            lemma_shapes_add(f2 + seq![TokenView::Gt(i)], rest2);
            lemma_shapes_add(f2, seq![TokenView::Gt(i)]);
            assert(shapes(f1) =~= shapes(f2));
        }
        else if c == '(' {
            lemma_tok_scan_start_shapes(s, (i + 1) as nat, st1, st2, Seq::empty());
            lemma_shapes_add(f1 + seq![TokenView::LParen(i)], rest1);
            lemma_shapes_add(f1, seq![TokenView::LParen(i)]);
            lemma_shapes_add(f2 + seq![TokenView::LParen(i)], rest2);
            lemma_shapes_add(f2, seq![TokenView::LParen(i)]);
            assert(shapes(f1) =~= shapes(f2));
        }
        else if c == ')' {
            lemma_tok_scan_start_shapes(s, (i + 1) as nat, st1, st2, Seq::empty());
            lemma_shapes_add(f1 + seq![TokenView::RParen(i)], rest1);
            lemma_shapes_add(f1, seq![TokenView::RParen(i)]);
            lemma_shapes_add(f2 + seq![TokenView::RParen(i)], rest2);
            lemma_shapes_add(f2, seq![TokenView::RParen(i)]);
            assert(shapes(f1) =~= shapes(f2));
        } else if is_whitespace_char(c) {
            lemma_tok_scan_start_shapes(s, (i + 1) as nat, st1, st2, Seq::empty());
            lemma_shapes_add(f1, rest1);
            lemma_shapes_add(f2, rest2);
            assert(shapes(f1) =~= shapes(f2));
        } else if buf.len() == 0 {
        } else {
            lemma_tok_scan_start_shapes(s, (i + 1) as nat, st1, st2, buf.push(c));
        }
    }
}

/// Scanning an ordinary word from an empty buffer accumulates exactly the
/// word, pending from the word's first position.
pub proof fn lemma_tok_word(s: Seq<char>, i: nat, st: nat, w: Seq<char>)
    requires
        ordinary_word(w),
        w.len() >= 1,
        chars_match(s, i, w),
    ensures
        tok_scan(s, i, st, Seq::empty()) == tok_scan(s, (i + w.len()) as nat, i, w),
{
    lemma_chars_at(s, i, w, 0);
    assert(tok_scan(s, i, st, Seq::empty()) == tok_scan(s, (i + 1) as nat, i, seq![w[0]]));
    assert(seq![w[0]] =~= w.subrange(0, 1));
    lemma_tok_word_cont(s, i, w, 1);
}

/// Scanning the rest of an ordinary word extends the pending buffer to the
/// whole word.
pub proof fn lemma_tok_word_cont(s: Seq<char>, i: nat, w: Seq<char>, d: nat)
    requires
        ordinary_word(w),
        1 <= d <= w.len(),
        chars_match(s, i, w),
    ensures
        tok_scan(s, (i + d) as nat, i, w.subrange(0, d as int)) == tok_scan(
            s,
            (i + w.len()) as nat,
            i,
            w,
        ),
    decreases w.len() - d,
{
    if d == w.len() {
        assert(w.subrange(0, d as int) =~= w);
    } else {
        lemma_chars_at(s, i, w, d as int);
        assert(tok_scan(s, (i + d) as nat, i, w.subrange(0, d as int)) == tok_scan(
            s,
            (i + d + 1) as nat,
            i,
            w.subrange(0, d as int).push(w[d as int]),
        ));
        assert(w.subrange(0, d as int).push(w[d as int]) =~= w.subrange(0, d as int + 1));
        lemma_tok_word_cont(s, i, w, (d + 1) as nat);
    }
}

/// The texts the renderer writes, character by character: every keyword is an
/// ordinary word, and each composite form decomposes around its delimiters.
pub proof fn lemma_rendered_chars()
    ensures
        forall|k: PrimitiveKind| #[trigger] ordinary_word(primitive_keyword(k)),
        forall|k: PrimitiveKind| #[trigger] primitive_keyword(k).len() >= 1,
        ordinary_word("array"@),
        ordinary_word("struct"@),
        ordinary_word("map"@),
        "array"@.len() == 5,
        "struct"@.len() == 6,
        "map"@.len() == 3,
        ":"@.len() == 1,
        ","@.len() == 1,
        ">"@.len() == 1,
        "array<"@ == "array"@ + seq!['<'],
        "struct<"@ == "struct"@ + seq!['<'],
        "map<"@ == "map"@ + seq!['<'],
        ":"@ == seq![':'],
        ","@ == seq![','],
        ">"@ == seq!['>'],
{
    reveal_strlit("string");
    reveal_strlit("long");
    reveal_strlit("int");
    reveal_strlit("short");
    reveal_strlit("byte");
    reveal_strlit("float");
    reveal_strlit("double");
    reveal_strlit("boolean");
    reveal_strlit("binary");
    reveal_strlit("date");
    reveal_strlit("timestamp");
    reveal_strlit("array");
    reveal_strlit("struct");
    reveal_strlit("map");
    reveal_strlit("array<");
    reveal_strlit("struct<");
    reveal_strlit("map<");
    reveal_strlit(":");
    reveal_strlit(",");
    reveal_strlit(">");
    assert("string"@ =~= seq!['s', 't', 'r', 'i', 'n', 'g']);
    assert("long"@ =~= seq!['l', 'o', 'n', 'g']);
    assert("int"@ =~= seq!['i', 'n', 't']);
    assert("short"@ =~= seq!['s', 'h', 'o', 'r', 't']);
    assert("byte"@ =~= seq!['b', 'y', 't', 'e']);
    assert("float"@ =~= seq!['f', 'l', 'o', 'a', 't']);
    assert("double"@ =~= seq!['d', 'o', 'u', 'b', 'l', 'e']);
    assert("boolean"@ =~= seq!['b', 'o', 'o', 'l', 'e', 'a', 'n']);
    assert("binary"@ =~= seq!['b', 'i', 'n', 'a', 'r', 'y']);
    assert("date"@ =~= seq!['d', 'a', 't', 'e']);
    assert("timestamp"@ =~= seq!['t', 'i', 'm', 'e', 's', 't', 'a', 'm', 'p']);
    assert("array"@ =~= seq!['a', 'r', 'r', 'a', 'y']);
    assert("struct"@ =~= seq!['s', 't', 'r', 'u', 'c', 't']);
    assert("map"@ =~= seq!['m', 'a', 'p']);
    assert("array<"@ =~= "array"@ + seq!['<']);
    assert("struct<"@ =~= "struct"@ + seq!['<']);
    assert("map<"@ =~= "map"@ + seq!['<']);
    assert(":"@ =~= seq![':']);
    assert(","@ =~= seq![',']);
    assert(">"@ =~= seq!['>']);
    assert forall|k: PrimitiveKind| #[trigger] ordinary_word(primitive_keyword(k)) by {
        match k {
            PrimitiveKind::String => assert(ordinary_word(primitive_keyword(k))),
            PrimitiveKind::Long => assert(ordinary_word(primitive_keyword(k))),
            PrimitiveKind::Integer => assert(ordinary_word(primitive_keyword(k))),
            PrimitiveKind::Short => assert(ordinary_word(primitive_keyword(k))),
            PrimitiveKind::Byte => assert(ordinary_word(primitive_keyword(k))),
            PrimitiveKind::Float => assert(ordinary_word(primitive_keyword(k))),
            PrimitiveKind::Double => assert(ordinary_word(primitive_keyword(k))),
            PrimitiveKind::Boolean => assert(ordinary_word(primitive_keyword(k))),
            PrimitiveKind::Binary => assert(ordinary_word(primitive_keyword(k))),
            PrimitiveKind::Date => assert(ordinary_word(primitive_keyword(k))),
            PrimitiveKind::Timestamp => assert(ordinary_word(primitive_keyword(k))),
        }
    }
}


/// The token shapes a rendered type contributes before its final pending
/// word, if any: a primitive keyword stays pending in the tokenizer's
/// buffer until a delimiter or the end of input flushes it.
pub open spec fn front_shapes(t: ColumnTypeView) -> Seq<TokenShape> {
    if t is Primitive {
        Seq::empty()
    } else {
        render_shapes(t)
    }
}

/// The word a rendered type leaves pending in the tokenizer's buffer.
pub open spec fn pending_word(t: ColumnTypeView) -> Seq<char> {
    match t {
        ColumnTypeView::Primitive(k) => primitive_keyword(k),
        _ => Seq::empty(),
    }
}

/// The shapes a flushed buffer contributes.
pub open spec fn flush_shapes(w: Seq<char>) -> Seq<TokenShape> {
    if w.len() == 0 {
        Seq::empty()
    } else {
        seq![TokenShape::Ident(w)]
    }
}

/// The token shapes a rendered field list contributes before its final
/// pending word.
pub open spec fn fields_front(fields: Seq<ColumnFieldView>) -> Seq<TokenShape>
    decreases fields,
{
    if fields.len() == 0 {
        Seq::empty()
    } else if fields.len() == 1 {
        seq![TokenShape::Ident(fields[0].name), TokenShape::Colon] + front_shapes(
            fields[0].data_type,
        )
    } else {
        seq![TokenShape::Ident(fields[0].name), TokenShape::Colon] + render_shapes(
            fields[0].data_type,
        ) + seq![TokenShape::Comma] + fields_front(fields.subrange(1, fields.len() as int))
    }
}

/// The word a rendered field list leaves pending in the tokenizer's buffer:
/// that of its last field's type.
pub open spec fn fields_pending(fields: Seq<ColumnFieldView>) -> Seq<char>
    decreases fields,
{
    if fields.len() == 0 {
        Seq::empty()
    } else if fields.len() == 1 {
        pending_word(fields[0].data_type)
    } else {
        fields_pending(fields.subrange(1, fields.len() as int))
    }
}

/// A flushed buffer keeps only the word's shape, wherever it began.
pub proof fn lemma_flush_shapes(st: nat, w: Seq<char>)
    ensures
        shapes(flush_view(st, w)) == flush_shapes(w),
{
    assert(shapes(flush_view(st, w)) =~= flush_shapes(w));
}

/// Front shapes plus the flushed pending word are the full rendered shapes.
pub proof fn lemma_front_flush(t: ColumnTypeView)
    ensures
        front_shapes(t) + flush_shapes(pending_word(t)) == render_shapes(t),
{
    lemma_rendered_chars();
    assert(front_shapes(t) + flush_shapes(pending_word(t)) =~= render_shapes(t));
}

/// Front shapes plus the flushed pending word are the full rendered shapes,
/// for a field list.
pub proof fn lemma_fields_front_flush(fields: Seq<ColumnFieldView>)
    ensures
        fields_front(fields) + flush_shapes(fields_pending(fields)) == render_fields_shapes(
            fields,
        ),
    decreases fields,
{
    if fields.len() == 0 {
        assert(fields_front(fields) + flush_shapes(fields_pending(fields))
            =~= render_fields_shapes(fields));
    } else if fields.len() == 1 {
        lemma_front_flush(fields[0].data_type);
        assert(fields_front(fields) + flush_shapes(fields_pending(fields))
            =~= render_fields_shapes(fields));
    } else {
        lemma_fields_front_flush(fields.subrange(1, fields.len() as int));
        assert(fields_front(fields) + flush_shapes(fields_pending(fields))
            =~= render_fields_shapes(fields));
    }
}

/// Every tree inside the grammar renders.
pub proof fn lemma_render_ok(t: ColumnTypeView)
    requires
        parseable(t),
    ensures
        spec_render(t) is Ok,
    decreases t, 0int,
{
    match t {
        ColumnTypeView::Primitive(_) => {},
        ColumnTypeView::List(f) => {
            lemma_render_ok((*f).data_type);
        },
        ColumnTypeView::Struct(fields) => {
            lemma_render_fields_ok(fields);
        },
        ColumnTypeView::Mapping(entry) => {
            match (*entry).data_type {
                ColumnTypeView::Struct(children) => {
                    lemma_render_ok(children[0].data_type);
                    lemma_render_ok(children[1].data_type);
                    assert(spec_render_map(*entry) is Ok);
                },
                _ => {},
            }
        },
        _ => {},
    }
}

/// Every field list inside the grammar renders.
pub proof fn lemma_render_fields_ok(fields: Seq<ColumnFieldView>)
    requires
        parseable_fields(fields),
    ensures
        spec_render_fields(fields) is Ok,
    decreases fields, 1int,
{
    if fields.len() == 0 {
    } else {
        lemma_render_ok(fields[0].data_type);
        assert(spec_render_field_decl(fields[0]) is Ok);
        if fields.len() > 1 {
            lemma_render_fields_ok(fields.subrange(1, fields.len() as int));
        }
    }
}


/// Tokenizing the rendered text of a grammar-conforming type yields exactly
/// its token shapes: the front tokens now, and the final keyword, when the
/// type ends in one, left pending for whatever follows to flush.
#[verifier::rlimit(100)]
pub proof fn lemma_tok_render_type(t: ColumnTypeView, s: Seq<char>, i: nat)
    requires
        parseable(t),
        chars_match(s, i, spec_render(t)->Ok_0),
    ensures
        spec_render(t) is Ok,
        shapes(tok_scan(s, i, 0, Seq::empty())) == front_shapes(t) + shapes(
            tok_scan(s, (i + spec_render(t)->Ok_0.len()) as nat, 0, pending_word(t)),
        ),
    decreases t, 0int,
{
    lemma_rendered_chars();
    lemma_render_ok(t);
    match t {
        ColumnTypeView::Primitive(k) => {
            let kw = primitive_keyword(k);
            lemma_tok_word(s, i, 0, kw);
            lemma_tok_scan_start_shapes(s, (i + kw.len()) as nat, i, 0, kw);
            assert(shapes(tok_scan(s, i, 0, Seq::empty())) =~= front_shapes(t) + shapes(
                tok_scan(s, (i + kw.len()) as nat, 0, kw),
            ));
        },
        ColumnTypeView::List(f) => {
            let elem = (*f).data_type;
            lemma_render_ok(elem);
            let et = spec_render(elem)->Ok_0;
            let text = spec_render(t)->Ok_0;
            assert(text == "array<"@ + et + ">"@);
            assert(text =~= "array"@ + (seq!['<'] + (et + seq!['>'])));
            lemma_chars_split(s, i, "array"@, seq!['<'] + (et + seq!['>']));
            lemma_chars_split(s, (i + 5) as nat, seq!['<'], et + seq!['>']);
            lemma_chars_split(s, (i + 6) as nat, et, seq!['>']);
            lemma_tok_word(s, i, 0, "array"@);
            lemma_chars_at(s, (i + 5) as nat, seq!['<'], 0);
            let lt = (i + 5) as nat;
            assert(tok_scan(s, lt, i, "array"@) == flush_view(i, "array"@) + seq![
                TokenView::Lt(lt),
            ] + tok_scan(s, (i + 6) as nat, i, Seq::empty()));
            lemma_shapes_add(flush_view(i, "array"@) + seq![TokenView::Lt(lt)], tok_scan(s, (i
                + 6) as nat, i, Seq::empty()));
            lemma_shapes_add(flush_view(i, "array"@), seq![TokenView::Lt(lt)]);
            lemma_flush_shapes(i, "array"@);
            lemma_tok_scan_start_shapes(s, (i + 6) as nat, i, 0, Seq::empty());
            lemma_tok_render_type(elem, s, (i + 6) as nat);
            let p = (i + 6 + et.len()) as nat;
            lemma_chars_at(s, p, seq!['>'], 0);
            assert(tok_scan(s, p, 0, pending_word(elem)) == flush_view(0, pending_word(elem))
                + seq![TokenView::Gt(p)] + tok_scan(s, (p + 1) as nat, 0, Seq::empty()));
            lemma_shapes_add(flush_view(0, pending_word(elem)) + seq![TokenView::Gt(p)], tok_scan(
                s, (p + 1) as nat, 0, Seq::empty()));
            lemma_shapes_add(flush_view(0, pending_word(elem)), seq![TokenView::Gt(p)]);
            lemma_flush_shapes(0, pending_word(elem));
            lemma_front_flush(elem);
            assert(i + text.len() == p + 1);
            assert(shapes(tok_scan(s, i, 0, Seq::empty())) =~= front_shapes(t) + shapes(
                tok_scan(s, (i + text.len()) as nat, 0, pending_word(t)),
            ));
        },
        ColumnTypeView::Struct(fields) => {
            lemma_render_fields_ok(fields);
            let bt = spec_render_fields(fields)->Ok_0;
            let text = spec_render(t)->Ok_0;
            assert(text == "struct<"@ + bt + ">"@);
            assert(text =~= "struct"@ + (seq!['<'] + (bt + seq!['>'])));
            lemma_chars_split(s, i, "struct"@, seq!['<'] + (bt + seq!['>']));
            lemma_chars_split(s, (i + 6) as nat, seq!['<'], bt + seq!['>']);
            lemma_chars_split(s, (i + 7) as nat, bt, seq!['>']);
            lemma_tok_word(s, i, 0, "struct"@);
            lemma_chars_at(s, (i + 6) as nat, seq!['<'], 0);
            let lt = (i + 6) as nat;
            assert(tok_scan(s, lt, i, "struct"@) == flush_view(i, "struct"@) + seq![
                TokenView::Lt(lt),
            ] + tok_scan(s, (i + 7) as nat, i, Seq::empty()));
            lemma_shapes_add(flush_view(i, "struct"@) + seq![TokenView::Lt(lt)], tok_scan(s, (i
                + 7) as nat, i, Seq::empty()));
            lemma_shapes_add(flush_view(i, "struct"@), seq![TokenView::Lt(lt)]);
            lemma_flush_shapes(i, "struct"@);
            lemma_tok_scan_start_shapes(s, (i + 7) as nat, i, 0, Seq::empty());
            lemma_tok_render_fields(fields, s, (i + 7) as nat);
            let p = (i + 7 + bt.len()) as nat;
            lemma_chars_at(s, p, seq!['>'], 0);
            assert(tok_scan(s, p, 0, fields_pending(fields)) == flush_view(
                0,
                fields_pending(fields),
            ) + seq![TokenView::Gt(p)] + tok_scan(s, (p + 1) as nat, 0, Seq::empty()));
            lemma_shapes_add(flush_view(0, fields_pending(fields)) + seq![TokenView::Gt(p)],
                tok_scan(s, (p + 1) as nat, 0, Seq::empty()));
            lemma_shapes_add(flush_view(0, fields_pending(fields)), seq![TokenView::Gt(p)]);
            lemma_flush_shapes(0, fields_pending(fields));
            lemma_fields_front_flush(fields);
            assert(i + text.len() == p + 1);
            assert(shapes(tok_scan(s, i, 0, Seq::empty())) =~= front_shapes(t) + shapes(
                tok_scan(s, (i + text.len()) as nat, 0, pending_word(t)),
            ));
        },
        ColumnTypeView::Mapping(entry) => {
            match (*entry).data_type {
                ColumnTypeView::Struct(children) => {
                    lemma_render_ok(children[0].data_type);
                    lemma_render_ok(children[1].data_type);
                    let kt = spec_render(children[0].data_type)->Ok_0;
                    let vt = spec_render(children[1].data_type)->Ok_0;
                    let text = spec_render(t)->Ok_0;
                    assert(spec_render(t) == spec_render_map(*entry));
                    assert(text == "map<"@ + kt + ","@ + vt + ">"@);
                    assert(text =~= "map"@ + (seq!['<'] + (kt + (seq![','] + (vt + seq![
                        '>',
                    ])))));
                    lemma_chars_split(s, i, "map"@, seq!['<'] + (kt + (seq![','] + (vt + seq![
                        '>',
                    ]))));
                    lemma_chars_split(s, (i + 3) as nat, seq!['<'], kt + (seq![','] + (vt + seq![
                        '>',
                    ])));
                    lemma_chars_split(s, (i + 4) as nat, kt, seq![','] + (vt + seq!['>']));
                    let p1 = (i + 4 + kt.len()) as nat;
                    lemma_chars_split(s, p1, seq![','], vt + seq!['>']);
                    lemma_chars_split(s, (p1 + 1) as nat, vt, seq!['>']);
                    lemma_tok_word(s, i, 0, "map"@);
                    lemma_chars_at(s, (i + 3) as nat, seq!['<'], 0);
                    let lt = (i + 3) as nat;
                    assert(tok_scan(s, lt, i, "map"@) == flush_view(i, "map"@) + seq![
                        TokenView::Lt(lt),
                    ] + tok_scan(s, (i + 4) as nat, i, Seq::empty()));
                    lemma_shapes_add(flush_view(i, "map"@) + seq![TokenView::Lt(lt)], tok_scan(s,
                        (i + 4) as nat, i, Seq::empty()));
                    lemma_shapes_add(flush_view(i, "map"@), seq![TokenView::Lt(lt)]);
                    lemma_flush_shapes(i, "map"@);
                    lemma_tok_scan_start_shapes(s, (i + 4) as nat, i, 0, Seq::empty());
                    lemma_tok_render_type(children[0].data_type, s, (i + 4) as nat);
                    lemma_chars_at(s, p1, seq![','], 0);
                    assert(tok_scan(s, p1, 0, pending_word(children[0].data_type)) == flush_view(
                        0,
                        pending_word(children[0].data_type),
                    ) + seq![TokenView::Comma(p1)] + tok_scan(s, (p1 + 1) as nat, 0, Seq::empty()));
                    lemma_shapes_add(flush_view(0, pending_word(children[0].data_type)) + seq![
                        TokenView::Comma(p1),
                    ], tok_scan(s, (p1 + 1) as nat, 0, Seq::empty()));
                    lemma_shapes_add(flush_view(0, pending_word(children[0].data_type)), seq![
                        TokenView::Comma(p1),
                    ]);
                    lemma_flush_shapes(0, pending_word(children[0].data_type));
                    lemma_front_flush(children[0].data_type);
                    lemma_tok_render_type(children[1].data_type, s, (p1 + 1) as nat);
                    let p2 = (p1 + 1 + vt.len()) as nat;
                    lemma_chars_at(s, p2, seq!['>'], 0);
                    assert(tok_scan(s, p2, 0, pending_word(children[1].data_type)) == flush_view(
                        0,
                        pending_word(children[1].data_type),
                    ) + seq![TokenView::Gt(p2)] + tok_scan(s, (p2 + 1) as nat, 0, Seq::empty()));
                    lemma_shapes_add(flush_view(0, pending_word(children[1].data_type)) + seq![
                        TokenView::Gt(p2),
                    ], tok_scan(s, (p2 + 1) as nat, 0, Seq::empty()));
                    lemma_shapes_add(flush_view(0, pending_word(children[1].data_type)), seq![
                        TokenView::Gt(p2),
                    ]);
                    lemma_flush_shapes(0, pending_word(children[1].data_type));
                    lemma_front_flush(children[1].data_type);
                    assert(i + text.len() == p2 + 1);
                    assert(shapes(tok_scan(s, i, 0, Seq::empty())) =~= front_shapes(t) + shapes(
                        tok_scan(s, (i + text.len()) as nat, 0, pending_word(t)),
                    ));
                },
                _ => {},
            }
        },
        _ => {},
    }
}

/// Tokenizing the rendered text of a grammar-conforming field list yields
/// exactly its token shapes, the last field's final keyword left pending.
#[verifier::rlimit(100)]
pub proof fn lemma_tok_render_fields(fields: Seq<ColumnFieldView>, s: Seq<char>, i: nat)
    requires
        parseable_fields(fields),
        fields.len() >= 1,
        chars_match(s, i, spec_render_fields(fields)->Ok_0),
    ensures
        spec_render_fields(fields) is Ok,
        shapes(tok_scan(s, i, 0, Seq::empty())) == fields_front(fields) + shapes(
            tok_scan(
                s,
                (i + spec_render_fields(fields)->Ok_0.len()) as nat,
                0,
                fields_pending(fields),
            ),
        ),
    decreases fields, 1int,
{
    lemma_rendered_chars();
    lemma_render_fields_ok(fields);
    let name = fields[0].name;
    let ty = fields[0].data_type;
    lemma_render_ok(ty);
    let tt = spec_render(ty)->Ok_0;
    assert(spec_render_field_decl(fields[0]) == Ok::<Seq<char>, crate::render::RenderErrorView>(
        name + ":"@ + tt,
    ));
    let text = spec_render_fields(fields)->Ok_0;
    if fields.len() == 1 {
        assert(text == name + ":"@ + tt);
        assert(text =~= name + (seq![':'] + tt));
        lemma_chars_split(s, i, name, seq![':'] + tt);
        let q = (i + name.len()) as nat;
        lemma_chars_split(s, q, seq![':'], tt);
        lemma_tok_word(s, i, 0, name);
        lemma_chars_at(s, q, seq![':'], 0);
        assert(tok_scan(s, q, i, name) == flush_view(i, name) + seq![TokenView::Colon(q)]
            + tok_scan(s, (q + 1) as nat, i, Seq::empty()));
        lemma_shapes_add(flush_view(i, name) + seq![TokenView::Colon(q)], tok_scan(s, (q
            + 1) as nat, i, Seq::empty()));
        lemma_shapes_add(flush_view(i, name), seq![TokenView::Colon(q)]);
        lemma_flush_shapes(i, name);
        lemma_tok_scan_start_shapes(s, (q + 1) as nat, i, 0, Seq::empty());
        lemma_tok_render_type(ty, s, (q + 1) as nat);
        assert(i + text.len() == q + 1 + tt.len());
        assert(shapes(tok_scan(s, i, 0, Seq::empty())) =~= fields_front(fields) + shapes(
            tok_scan(s, (i + text.len()) as nat, 0, fields_pending(fields)),
        ));
    } else {
        let rest = fields.subrange(1, fields.len() as int);
        lemma_render_fields_ok(rest);
        let rt = spec_render_fields(rest)->Ok_0;
        assert(text == (name + ":"@ + tt) + ","@ + rt);
        assert(text =~= name + (seq![':'] + (tt + (seq![','] + rt))));
        lemma_chars_split(s, i, name, seq![':'] + (tt + (seq![','] + rt)));
        let q = (i + name.len()) as nat;
        lemma_chars_split(s, q, seq![':'], tt + (seq![','] + rt));
        lemma_chars_split(s, (q + 1) as nat, tt, seq![','] + rt);
        let p = (q + 1 + tt.len()) as nat;
        lemma_chars_split(s, p, seq![','], rt);
        lemma_tok_word(s, i, 0, name);
        lemma_chars_at(s, q, seq![':'], 0);
        assert(tok_scan(s, q, i, name) == flush_view(i, name) + seq![TokenView::Colon(q)]
            + tok_scan(s, (q + 1) as nat, i, Seq::empty()));
        lemma_shapes_add(flush_view(i, name) + seq![TokenView::Colon(q)], tok_scan(s, (q
            + 1) as nat, i, Seq::empty()));
        lemma_shapes_add(flush_view(i, name), seq![TokenView::Colon(q)]);
        lemma_flush_shapes(i, name);
        lemma_tok_scan_start_shapes(s, (q + 1) as nat, i, 0, Seq::empty());
        lemma_tok_render_type(ty, s, (q + 1) as nat);
        lemma_chars_at(s, p, seq![','], 0);
        assert(tok_scan(s, p, 0, pending_word(ty)) == flush_view(0, pending_word(ty)) + seq![
            TokenView::Comma(p),
        ] + tok_scan(s, (p + 1) as nat, 0, Seq::empty()));
        lemma_shapes_add(flush_view(0, pending_word(ty)) + seq![TokenView::Comma(p)], tok_scan(s,
            (p + 1) as nat, 0, Seq::empty()));
        lemma_shapes_add(flush_view(0, pending_word(ty)), seq![TokenView::Comma(p)]);
        lemma_flush_shapes(0, pending_word(ty));
        lemma_front_flush(ty);
        lemma_tok_render_fields(rest, s, (p + 1) as nat);
        assert(i + text.len() == p + 1 + rt.len());
        assert(shapes(tok_scan(s, i, 0, Seq::empty())) =~= fields_front(fields) + shapes(
            tok_scan(s, (i + text.len()) as nat, 0, fields_pending(fields)),
        ));
    }
}


/// The render/parse round trip. A column type tree that stays inside the
/// grammar renders to text, and parsing that text under any valid column
/// name yields exactly one field: that name, the same tree, and `false` for
/// the nullability the renderer does not emit. Nullability of array
/// elements, struct fields and map values is the documented asymmetry: it
/// cannot be re-derived from rendered text.
pub proof fn lemma_render_parse_round_trip(t: ColumnTypeView, name: Seq<char>)
    requires
        parseable(t),
        valid_name(name),
    ensures
        spec_render(t) is Ok,
        spec_parse_schema(name + ":"@ + spec_render(t)->Ok_0) == Ok::<
            Seq<FieldView>,
            ParseErrorView,
        >(seq![FieldView { name, data_type: reparsed_form(t), nullable: false }]),
{
    lemma_rendered_chars();
    lemma_render_ok(t);
    let cf = ColumnFieldView { name, data_type: t, nullable: false };
    let fs = seq![cf];
    let text = spec_render(t)->Ok_0;
    let s = name + ":"@ + text;
    assert(fs.subrange(1, 1) =~= Seq::<ColumnFieldView>::empty());
    assert(parseable_fields(Seq::<ColumnFieldView>::empty()));
    assert(reparsed_fields(Seq::<ColumnFieldView>::empty()) == Seq::<FieldView>::empty());
    assert(fs[0] == cf);
    assert(parseable_fields(fs));
    assert(spec_render_field_decl(cf) == Ok::<Seq<char>, crate::render::RenderErrorView>(s));
    assert(spec_render_fields(fs) == Ok::<Seq<char>, crate::render::RenderErrorView>(s));
    assert(chars_match(s, 0, spec_render_fields(fs)->Ok_0));
    lemma_tok_render_fields(fs, s, 0);
    let toks = spec_tokenize(s);
    assert(toks == tok_scan(s, 0, 0, Seq::empty()));
    assert(tok_scan(s, s.len(), 0, fields_pending(fs)) == flush_view(0, fields_pending(fs)));
    lemma_flush_shapes(0, fields_pending(fs));
    lemma_fields_front_flush(fs);
    assert(shapes(toks) == fields_front(fs) + flush_shapes(fields_pending(fs)));
    assert(shapes(toks) == render_fields_shapes(fs));
    assert(toks.len() == shapes(toks).len());
    assert forall|d: int|
        0 <= d < render_fields_shapes(fs).len() implies shape_of(toks[0 + d])
        == #[trigger] render_fields_shapes(fs)[d] by {
        assert(shapes(toks)[d] == shape_of(toks[d]));
    }
    assert(segment_matches(toks, 0, render_fields_shapes(fs)));
    lemma_parse_rendered_fields(fs, toks, 0, toks.len());
    assert(reparsed_fields(fs) =~= seq![
        FieldView { name, data_type: reparsed_form(t), nullable: false },
    ]);
    assert(spec_parse_schema(s) == Ok::<Seq<FieldView>, ParseErrorView>(reparsed_fields(fs)));
}

} // verus!
