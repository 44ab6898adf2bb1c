//! The renderer: the independent inverse of parsing. It consumes a column's
//! type tree — obtained from the query engine's column metadata, not
//! necessarily one produced by this crate's parser — and produces the
//! canonical textual form of the type language.
//!
//! The renderer is deliberately not a mirror image of the parser: it can
//! produce `decimal(p,s)`, which the parser does not accept, it looks through
//! dictionary encodings, and it re-emits no nullability markers on array
//! elements, struct fields or map values.

use vstd::prelude::*;

use crate::text::push_char;
use crate::types::PrimitiveKind;

verus! {

/// A column's storage type as the query engine reports it, reduced to what
/// rendering distinguishes. Every string-like, binary-like or date-like
/// encoding of the engine arrives as the one primitive kind it renders as;
/// list-like encodings arrive as `List`.
#[derive(Debug, PartialEq)]
pub enum ColumnType {
    Primitive(PrimitiveKind),
    /// A fixed-point decimal: precision and scale.
    Decimal(u8, i8),
    /// A list: its element field.
    List(Box<ColumnField>),
    /// A record: its fields in order.
    Struct(Vec<ColumnField>),
    /// A map: its entries field, expected to be a two-field record of key
    /// and value.
    Mapping(Box<ColumnField>),
    /// A dictionary-encoded column: the value type; the encoding is
    /// transparent to rendering.
    Dictionary(Box<ColumnType>),
    /// A kind outside the closed vocabulary, by the engine's name for it.
    Other(String),
}

/// A named, typed, nullable column of the engine's metadata.
#[derive(Debug, PartialEq)]
pub struct ColumnField {
    pub name: String,
    pub data_type: ColumnType,
    pub nullable: bool,
}

/// Mathematical model of a `ColumnType`.
pub enum ColumnTypeView {
    Primitive(PrimitiveKind),
    Decimal(u8, i8),
    List(Box<ColumnFieldView>),
    Struct(Seq<ColumnFieldView>),
    Mapping(Box<ColumnFieldView>),
    Dictionary(Box<ColumnTypeView>),
    Other(Seq<char>),
}

/// Mathematical model of a `ColumnField`.
pub struct ColumnFieldView {
    pub name: Seq<char>,
    pub data_type: ColumnTypeView,
    pub nullable: bool,
}

/// The mathematical model of a column type tree.
pub open spec fn column_type_view(t: ColumnType) -> ColumnTypeView
    decreases t,
{
    match t {
        ColumnType::Primitive(k) => ColumnTypeView::Primitive(k),
        ColumnType::Decimal(p, s) => ColumnTypeView::Decimal(p, s),
        ColumnType::List(f) => ColumnTypeView::List(Box::new(column_field_view(*f))),
        ColumnType::Struct(fields) => ColumnTypeView::Struct(vec_column_fields_view(fields)),
        ColumnType::Mapping(f) => ColumnTypeView::Mapping(Box::new(column_field_view(*f))),
        ColumnType::Dictionary(v) => ColumnTypeView::Dictionary(Box::new(column_type_view(*v))),
        ColumnType::Other(name) => ColumnTypeView::Other(name@),
    }
}

/// The mathematical model of a column field.
pub open spec fn column_field_view(f: ColumnField) -> ColumnFieldView
    decreases f,
{
    ColumnFieldView {
        name: f.name@,
        data_type: column_type_view(f.data_type),
        nullable: f.nullable,
    }
}

/// The mathematical model of a column field vector.
pub open spec fn vec_column_fields_view(fields: Vec<ColumnField>) -> Seq<ColumnFieldView>
    decreases fields,
{
    column_fields_view(fields@)
}

/// The mathematical model of a column field sequence, element by element.
pub open spec fn column_fields_view(fields: Seq<ColumnField>) -> Seq<ColumnFieldView>
    decreases fields,
{
    if fields.len() == 0 {
        Seq::empty()
    } else {
        seq![column_field_view(fields[0])] + column_fields_view(
            fields.subrange(1, fields.len() as int),
        )
    }
}

/// `column_fields_view` is the pointwise model of its argument.
pub proof fn lemma_column_fields_view(fields: Seq<ColumnField>)
    ensures
        column_fields_view(fields).len() == fields.len(),
        forall|j: int|
            0 <= j < fields.len() ==> column_fields_view(fields)[j] == column_field_view(
                fields[j],
            ),
    decreases fields.len(),
{
    if fields.len() > 0 {
        lemma_column_fields_view(fields.subrange(1, fields.len() as int));
    }
}

/// Why a type tree cannot be rendered.
#[derive(Debug, PartialEq)]
pub enum RenderError {
    /// A type kind outside the closed vocabulary, by its name.
    UnsupportedValueKind(String),
    /// A map whose entries are not a two-field key/value record.
    InvalidMapLayout,
    /// A map whose key field is marked nullable.
    NonNullableMapKeyViolation,
}

/// Mathematical model of a `RenderError`.
pub enum RenderErrorView {
    UnsupportedValueKind(Seq<char>),
    InvalidMapLayout,
    NonNullableMapKeyViolation,
}

impl DeepView for RenderError {
    type V = RenderErrorView;

    open spec fn deep_view(&self) -> RenderErrorView {
        match self {
            RenderError::UnsupportedValueKind(name) => RenderErrorView::UnsupportedValueKind(
                name@,
            ),
            RenderError::InvalidMapLayout => RenderErrorView::InvalidMapLayout,
            RenderError::NonNullableMapKeyViolation => RenderErrorView::NonNullableMapKeyViolation,
        }
    }
}

/// A map whose key field is marked nullable never renders: whatever the key
/// and value types, rendering fails with the dedicated error, and no text is
/// produced in its place.
pub proof fn lemma_nullable_map_key_never_renders(entry: ColumnFieldView)
    requires
        entry.data_type is Struct,
        entry.data_type->Struct_0.len() == 2,
        entry.data_type->Struct_0[0].nullable,
    ensures
        spec_render(ColumnTypeView::Mapping(Box::new(entry))) == Err::<Seq<char>, RenderErrorView>(
            RenderErrorView::NonNullableMapKeyViolation,
        ),
{
    assert(spec_render(ColumnTypeView::Mapping(Box::new(entry))) == spec_render_map(entry));
    assert(spec_render_map(entry) == Err::<Seq<char>, RenderErrorView>(
        RenderErrorView::NonNullableMapKeyViolation,
    ));
}

/// The canonical keyword of each primitive kind. A 32-bit integer renders as
/// `int`, the spelling the parser accepts, so that rendered text re-parses.
pub open spec fn primitive_keyword(k: PrimitiveKind) -> Seq<char> {
    match k {
        PrimitiveKind::String => "string"@,
        PrimitiveKind::Long => "long"@,
        PrimitiveKind::Integer => "int"@,
        PrimitiveKind::Short => "short"@,
        PrimitiveKind::Byte => "byte"@,
        PrimitiveKind::Float => "float"@,
        PrimitiveKind::Double => "double"@,
        PrimitiveKind::Boolean => "boolean"@,
        PrimitiveKind::Binary => "binary"@,
        PrimitiveKind::Date => "date"@,
        PrimitiveKind::Timestamp => "timestamp"@,
    }
}

/// The character of a decimal digit.
pub open spec fn digit_char(d: nat) -> char {
    if d == 0 {
        '0'
    } else if d == 1 {
        '1'
    } else if d == 2 {
        '2'
    } else if d == 3 {
        '3'
    } else if d == 4 {
        '4'
    } else if d == 5 {
        '5'
    } else if d == 6 {
        '6'
    } else if d == 7 {
        '7'
    } else if d == 8 {
        '8'
    } else {
        '9'
    }
}

/// The decimal digits of a natural number, most significant first.
pub open spec fn dec_digits(n: nat) -> Seq<char>
    decreases n,
{
    if n < 10 {
        seq![digit_char(n)]
    } else {
        dec_digits(n / 10).push(digit_char(n % 10))
    }
}

/// The decimal form of an integer: a `-` sign when negative, then digits.
pub open spec fn int_digits(v: int) -> Seq<char> {
    if v < 0 {
        seq!['-'] + dec_digits((-v) as nat)
    } else {
        dec_digits(v as nat)
    }
}

/// The canonical text of a column type tree, or the error that aborts
/// rendering. Rendering is fail-fast: an error anywhere in the tree yields
/// that error and no partial text.
pub open spec fn spec_render(t: ColumnTypeView) -> Result<Seq<char>, RenderErrorView>
    decreases t, 2int,
{
    match t {
        ColumnTypeView::Primitive(k) => Ok(primitive_keyword(k)),
        ColumnTypeView::Decimal(p, s) => Ok(
            "decimal("@ + dec_digits(p as nat) + ","@ + int_digits(s as int) + ")"@,
        ),
        ColumnTypeView::List(f) => match spec_render((*f).data_type) {
            Ok(elem) => Ok("array<"@ + elem + ">"@),
            Err(e) => Err(e),
        },
        ColumnTypeView::Struct(fields) => match spec_render_fields(fields) {
            Ok(body) => Ok("struct<"@ + body + ">"@),
            Err(e) => Err(e),
        },
        ColumnTypeView::Mapping(entry) => spec_render_map(*entry),
        ColumnTypeView::Dictionary(v) => spec_render(*v),
        ColumnTypeView::Other(name) => Err(RenderErrorView::UnsupportedValueKind(name)),
    }
}

/// The body of a rendered struct: each field as `name:type`, the fields
/// separated by commas, no nullability suffix emitted.
pub open spec fn spec_render_fields(fields: Seq<ColumnFieldView>) -> Result<
    Seq<char>,
    RenderErrorView,
>
    decreases fields, 2int,
{
    if fields.len() == 0 {
        Ok(Seq::empty())
    } else {
        match spec_render_field_decl(fields[0]) {
            Ok(first) => if fields.len() == 1 {
                Ok(first)
            } else {
                match spec_render_fields(fields.subrange(1, fields.len() as int)) {
                    Ok(rest) => Ok(first + ","@ + rest),
                    Err(e) => Err(e),
                }
            },
            Err(e) => Err(e),
        }
    }
}

/// One struct field, rendered as `name:type`.
pub open spec fn spec_render_field_decl(f: ColumnFieldView) -> Result<Seq<char>, RenderErrorView>
    decreases f, 3int,
{
    match spec_render(f.data_type) {
        Ok(t) => Ok(f.name + ":"@ + t),
        Err(e) => Err(e),
    }
}

/// A rendered map: its entries must be a two-field key/value record whose
/// key field is non-nullable; the output is `map<key,value>`.
pub open spec fn spec_render_map(entry: ColumnFieldView) -> Result<Seq<char>, RenderErrorView>
    decreases entry, 3int,
{
    match entry.data_type {
        ColumnTypeView::Struct(children) => if children.len() == 2 {
            if children[0].nullable {
                Err(RenderErrorView::NonNullableMapKeyViolation)
            } else {
                match spec_render(children[0].data_type) {
                    Ok(kt) => match spec_render(children[1].data_type) {
                        Ok(vt) => Ok("map<"@ + kt + ","@ + vt + ">"@),
                        Err(e) => Err(e),
                    },
                    Err(e) => Err(e),
                }
            }
        } else {
            Err(RenderErrorView::InvalidMapLayout)
        },
        _ => Err(RenderErrorView::InvalidMapLayout),
    }
}

/// The canonical keyword of a primitive kind, as text.
fn primitive_keyword_str(k: PrimitiveKind) -> (s: String)
    ensures
        s@ == primitive_keyword(k),
{
    match k {
        PrimitiveKind::String => String::from_str("string"),
        PrimitiveKind::Long => String::from_str("long"),
        PrimitiveKind::Integer => String::from_str("int"),
        PrimitiveKind::Short => String::from_str("short"),
        PrimitiveKind::Byte => String::from_str("byte"),
        PrimitiveKind::Float => String::from_str("float"),
        PrimitiveKind::Double => String::from_str("double"),
        PrimitiveKind::Boolean => String::from_str("boolean"),
        PrimitiveKind::Binary => String::from_str("binary"),
        PrimitiveKind::Date => String::from_str("date"),
        PrimitiveKind::Timestamp => String::from_str("timestamp"),
    }
}

/// Appends one decimal digit.
fn push_digit(out: &mut String, d: u8)
    requires
        d < 10,
    ensures
        final(out)@ == old(out)@.push(digit_char(d as nat)),
{
    if d == 0 {
        push_char(out, '0')
    } else if d == 1 {
        push_char(out, '1')
    } else if d == 2 {
        push_char(out, '2')
    } else if d == 3 {
        push_char(out, '3')
    } else if d == 4 {
        push_char(out, '4')
    } else if d == 5 {
        push_char(out, '5')
    } else if d == 6 {
        push_char(out, '6')
    } else if d == 7 {
        push_char(out, '7')
    } else if d == 8 {
        push_char(out, '8')
    } else {
        push_char(out, '9')
    }
}

/// Appends the decimal digits of `n`, most significant first.
fn push_u8_digits(out: &mut String, n: u8)
    ensures
        final(out)@ == old(out)@ + dec_digits(n as nat),
{
    proof {
        reveal_with_fuel(dec_digits, 4);
    }
    if n >= 100 {
        push_digit(out, n / 100);
        push_digit(out, (n / 10) % 10);
        push_digit(out, n % 10);
        proof {
            assert(n as int / 10 / 10 == n as int / 100) by (nonlinear_arith);
            assert(out@ =~= old(out)@ + dec_digits(n as nat));
        }
    } else if n >= 10 {
        push_digit(out, n / 10);
        push_digit(out, n % 10);
        proof {
            assert(out@ =~= old(out)@ + dec_digits(n as nat));
        }
    } else {
        push_digit(out, n);
        proof {
            assert(out@ =~= old(out)@ + dec_digits(n as nat));
        }
    }
}

/// Appends the decimal form of `v`: a `-` sign when negative, then digits.
fn push_i8_digits(out: &mut String, v: i8)
    ensures
        final(out)@ == old(out)@ + int_digits(v as int),
{
    if v < 0 {
        push_char(out, '-');
        let magnitude = (-(v as i32)) as u8;
        push_u8_digits(out, magnitude);
        proof {
            assert(out@ =~= old(out)@ + int_digits(v as int));
        }
    } else {
        push_u8_digits(out, v as u8);
    }
}

/// Renders a column type tree in the textual type language, or fails with
/// the first unrenderable part; no partial text is produced on failure. Each
/// primitive kind renders as its exact keyword, a decimal as
/// `decimal(p,s)`, a list as `array<element>`, a record as
/// `struct<name:type,...>`, and a two-field map entry record as
/// `map<key,value>`; a dictionary encoding is looked through.
pub fn arrow_type_to_delta_str(t: &ColumnType) -> (r: Result<String, RenderError>)
    ensures
        match r {
            Ok(s) => spec_render(column_type_view(*t)) == Ok::<Seq<char>, RenderErrorView>(s@),
            Err(e) => spec_render(column_type_view(*t)) == Err::<Seq<char>, RenderErrorView>(
                e.deep_view(),
            ),
        },
    decreases *t, 2int,
{
    match t {
        ColumnType::Primitive(k) => Ok(primitive_keyword_str(*k)),
        ColumnType::Decimal(p, s) => {
            let mut out = String::from_str("decimal(");
            push_u8_digits(&mut out, *p);
            out.append(",");
            push_i8_digits(&mut out, *s);
            out.append(")");
            proof {
                assert(out@ =~= "decimal("@ + dec_digits(*p as nat) + ","@ + int_digits(*s as int)
                    + ")"@);
            }
            Ok(out)
        },
        ColumnType::List(f) => {
            proof {
                assert(column_field_view(**f).data_type == column_type_view((**f).data_type));
            }
            let elem = match arrow_type_to_delta_str(&f.data_type) {
                Ok(elem) => elem,
                Err(e) => {
                    return Err(e);
                },
            };
            let mut out = String::from_str("array<");
            out.append(elem.as_str());
            out.append(">");
            proof {
                assert(out@ =~= "array<"@ + elem@ + ">"@);
            }
            Ok(out)
        },
        ColumnType::Struct(fields) => {
            proof {
                assert(vec_column_fields_view(*fields) == column_fields_view(fields@));
            }
            let body = match render_fields_from(fields, 0) {
                Ok(body) => body,
                Err(e) => {
                    proof {
                        assert(column_fields_view(fields@).subrange(
                            0,
                            column_fields_view(fields@).len() as int,
                        ) =~= column_fields_view(fields@));
                    }
                    return Err(e);
                },
            };
            let mut out = String::from_str("struct<");
            out.append(body.as_str());
            out.append(">");
            proof {
                assert(column_fields_view(fields@).subrange(
                    0,
                    column_fields_view(fields@).len() as int,
                ) =~= column_fields_view(fields@));
                assert(out@ =~= "struct<"@ + body@ + ">"@);
            }
            Ok(out)
        },
        ColumnType::Mapping(entry) => {
            proof {
                assert(spec_render(column_type_view(*t)) == spec_render_map(
                    column_field_view(**entry),
                ));
            }
            render_map_entry(entry)
        },
        ColumnType::Dictionary(v) => arrow_type_to_delta_str(v),
        ColumnType::Other(name) => Err(RenderError::UnsupportedValueKind(name.clone())),
    }
}

/// Renders the fields of a record from index `j` on, as the comma-separated
/// body of a `struct<...>` form.
fn render_fields_from(fields: &Vec<ColumnField>, j: usize) -> (r: Result<String, RenderError>)
    requires
        j <= fields@.len(),
    ensures
        match r {
            Ok(s) => spec_render_fields(
                column_fields_view(fields@).subrange(
                    j as int,
                    column_fields_view(fields@).len() as int,
                ),
            ) == Ok::<Seq<char>, RenderErrorView>(s@),
            Err(e) => spec_render_fields(
                column_fields_view(fields@).subrange(
                    j as int,
                    column_fields_view(fields@).len() as int,
                ),
            ) == Err::<Seq<char>, RenderErrorView>(e.deep_view()),
        },
    decreases fields, fields@.len() - j, 1int,
{
    proof {
        lemma_column_fields_view(fields@);
    }
    let ghost whole = column_fields_view(fields@);
    let ghost tail = whole.subrange(j as int, whole.len() as int);
    if j == fields.len() {
        proof {
            assert(tail.len() == 0);
        }
        Ok(String::new())
    } else {
        proof {
            assert(tail[0] == column_field_view(fields@[j as int]));
        }
        let t = match arrow_type_to_delta_str(&fields[j].data_type) {
            Ok(t) => t,
            Err(e) => {
                return Err(e);
            },
        };
        let mut out = fields[j].name.clone();
        out.append(":");
        out.append(t.as_str());
        proof {
            assert(out@ =~= spec_render_field_decl(tail[0])->Ok_0);
        }
        if j + 1 == fields.len() {
            Ok(out)
        } else {
            let rest = match render_fields_from(fields, j + 1) {
                Ok(rest) => rest,
                Err(e) => {
                    proof {
                        assert(whole.subrange(j + 1, whole.len() as int) =~= tail.subrange(
                            1,
                            tail.len() as int,
                        ));
                    }
                    return Err(e);
                },
            };
            out.append(",");
            out.append(rest.as_str());
            proof {
                assert(whole.subrange(j + 1, whole.len() as int) =~= tail.subrange(
                    1,
                    tail.len() as int,
                ));
                assert(out@ =~= spec_render_field_decl(tail[0])->Ok_0 + ","@ + rest@);
            }
            Ok(out)
        }
    }
}

/// Renders a map's entries field: a two-field key/value record whose key is
/// non-nullable becomes `map<key,value>`; any other layout is an error.
fn render_map_entry(entry: &ColumnField) -> (r: Result<String, RenderError>)
    ensures
        match r {
            Ok(s) => spec_render_map(column_field_view(*entry)) == Ok::<Seq<char>, RenderErrorView>(
                s@,
            ),
            Err(e) => spec_render_map(column_field_view(*entry)) == Err::<
                Seq<char>,
                RenderErrorView,
            >(e.deep_view()),
        },
    decreases *entry, 3int,
{
    proof {
        assert(column_field_view(*entry).data_type == column_type_view(entry.data_type));
    }
    match &entry.data_type {
        ColumnType::Struct(children) => {
            proof {
                lemma_column_fields_view(children@);
                assert(vec_column_fields_view(*children) == column_fields_view(children@));
                assert(column_type_view(entry.data_type) == ColumnTypeView::Struct(
                    column_fields_view(children@),
                ));
            }
            if children.len() == 2 {
                let key = &children[0];
                if key.nullable {
                    return Err(RenderError::NonNullableMapKeyViolation);
                }
                let kt = match arrow_type_to_delta_str(&key.data_type) {
                    Ok(kt) => kt,
                    Err(e) => {
                        return Err(e);
                    },
                };
                let vt = match arrow_type_to_delta_str(&children[1].data_type) {
                    Ok(vt) => vt,
                    Err(e) => {
                        return Err(e);
                    },
                };
                let mut out = String::from_str("map<");
                out.append(kt.as_str());
                out.append(",");
                out.append(vt.as_str());
                out.append(">");
                proof {
                    assert(out@ =~= "map<"@ + kt@ + ","@ + vt@ + ">"@);
                }
                Ok(out)
            } else {
                Err(RenderError::InvalidMapLayout)
            }
        },
        _ => Err(RenderError::InvalidMapLayout),
    }
}

} // verus!
