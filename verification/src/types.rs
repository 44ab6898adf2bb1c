//! The type trees of the schema language: the parser's output and the
//! mathematical models that the contracts speak of.

use vstd::prelude::*;

verus! {

/// One of the fixed scalar kinds of the type language.
#[derive(Clone, Copy, Debug, PartialEq, Eq, Structural)]
pub enum PrimitiveKind {
    String,
    Long,
    Integer,
    Short,
    Byte,
    Float,
    Double,
    Boolean,
    Binary,
    Date,
    Timestamp,
}

/// A column type: a scalar kind, or a composite built from nested types.
#[derive(Debug, PartialEq)]
pub enum TypeNode {
    Primitive(PrimitiveKind),
    /// Element type and element nullability.
    Array(Box<TypeNode>, bool),
    /// Ordered field list.
    Struct(Vec<Field>),
    /// Key type, value type, and value nullability.
    Mapping(Box<TypeNode>, Box<TypeNode>, bool),
}

/// A named, typed, nullable column declaration. Field order is significant;
/// names need not be unique at this level.
#[derive(Debug, PartialEq)]
pub struct Field {
    pub name: String,
    pub data_type: TypeNode,
    pub nullable: bool,
}

/// Mathematical model of a `TypeNode`.
pub enum TypeNodeView {
    Primitive(PrimitiveKind),
    Array(Box<TypeNodeView>, bool),
    Struct(Seq<FieldView>),
    Mapping(Box<TypeNodeView>, Box<TypeNodeView>, bool),
}

/// Mathematical model of a `Field`.
pub struct FieldView {
    pub name: Seq<char>,
    pub data_type: TypeNodeView,
    pub nullable: bool,
}

/// The mathematical model of a type tree.
pub open spec fn type_node_view(t: TypeNode) -> TypeNodeView
    decreases t,
{
    match t {
        TypeNode::Primitive(k) => TypeNodeView::Primitive(k),
        TypeNode::Array(elem, n) => TypeNodeView::Array(Box::new(type_node_view(*elem)), n),
        TypeNode::Struct(fields) => TypeNodeView::Struct(vec_fields_view(fields)),
        TypeNode::Mapping(key, value, n) => TypeNodeView::Mapping(
            Box::new(type_node_view(*key)),
            Box::new(type_node_view(*value)),
            n,
        ),
    }
}

/// The mathematical model of a field vector.
pub open spec fn vec_fields_view(fields: Vec<Field>) -> Seq<FieldView>
    decreases fields,
{
    fields_view(fields@)
}

/// The mathematical model of a field sequence, element by element.
pub open spec fn fields_view(fields: Seq<Field>) -> Seq<FieldView>
    decreases fields,
{
    if fields.len() == 0 {
        Seq::empty()
    } else {
        seq![field_view(fields[0])] + fields_view(fields.subrange(1, fields.len() as int))
    }
}

/// The mathematical model of a field declaration.
pub open spec fn field_view(f: Field) -> FieldView
    decreases f,
{
    FieldView {
        name: f.name@,
        data_type: type_node_view(f.data_type),
        nullable: f.nullable,
    }
}

/// `fields_view` is the pointwise model of its argument.
pub proof fn lemma_fields_view(fields: Seq<Field>)
    ensures
        fields_view(fields).len() == fields.len(),
        forall|j: int|
            0 <= j < fields.len() ==> fields_view(fields)[j] == field_view(fields[j]),
    decreases fields.len(),
{
    if fields.len() > 0 {
        lemma_fields_view(fields.subrange(1, fields.len() as int));
    }
}

/// Appending a field appends its model.
pub proof fn lemma_fields_view_push(fields: Seq<Field>, f: Field)
    ensures
        fields_view(fields.push(f)) == fields_view(fields).push(field_view(f)),
{
    lemma_fields_view(fields);
    lemma_fields_view(fields.push(f));
    assert(fields_view(fields.push(f)) =~= fields_view(fields).push(field_view(f)));
}

impl DeepView for TypeNode {
    type V = TypeNodeView;

    open spec fn deep_view(&self) -> TypeNodeView {
        type_node_view(*self)
    }
}

impl DeepView for Field {
    type V = FieldView;

    open spec fn deep_view(&self) -> FieldView {
        field_view(*self)
    }
}

} // verus!
