//! Field descriptors: the scalar kind of each field, whether it may be absent,
//! and the constraints declared on it.
use vstd::prelude::*;
use crate::numeral::IntWidth;

verus! {

/// Width, in bits, of a floating-point type.
#[derive(Clone, Copy, Debug, PartialEq, Eq, Structural)]
pub enum FloatWidth {
    W32,
    W64,
}

/// The scalar type that a field's text must convert to.
#[derive(Clone, Copy, Debug, PartialEq, Eq, Structural)]
pub enum ScalarKind {
    UnsignedInt(IntWidth),
    SignedInt(IntWidth),
    Float(FloatWidth),
    Bool,
    Text,
    /// A type that is not recognised by name; its values are checked by the
    /// type's own parser.
    Opaque,
}

/// Bounds on the number of characters of a text field.
#[derive(Clone, Copy, Debug, PartialEq, Eq, Structural)]
pub struct ConstraintSet {
    pub min_length: Option<usize>,
    pub max_length: Option<usize>,
}

/// One field of a schema.
#[derive(Clone, Debug)]
pub struct FieldDescriptor {
    pub name: String,
    /// The declared scalar type as written, used in error messages.
    pub declared_type: String,
    pub kind: ScalarKind,
    /// Whether the field may be absent from a row.
    pub optional: bool,
    pub constraints: ConstraintSet,
}

/// What a field descriptor holds, as mathematical values.
pub struct FieldSpec {
    pub name: Seq<char>,
    pub declared_type: Seq<char>,
    pub kind: ScalarKind,
    pub optional: bool,
    pub constraints: ConstraintSet,
}

impl View for FieldDescriptor {
    type V = FieldSpec;

    open spec fn view(&self) -> FieldSpec {
        FieldSpec {
            name: self.name@,
            declared_type: self.declared_type@,
            kind: self.kind,
            optional: self.optional,
            constraints: self.constraints,
        }
    }
}

pub open spec fn schema_view(schema: Seq<FieldDescriptor>) -> Seq<FieldSpec> {
    schema.map_values(|d: FieldDescriptor| d@)
}

impl ConstraintSet {
    /// No bound on the length.
    pub fn none() -> (r: ConstraintSet)
        ensures
            r.min_length is None,
            r.max_length is None,
    {
        ConstraintSet { min_length: None, max_length: None }
    }
}

impl FieldDescriptor {
    pub fn new(
        name: &str,
        declared_type: &str,
        kind: ScalarKind,
        optional: bool,
        constraints: ConstraintSet,
    ) -> (r: FieldDescriptor)
        ensures
            r@ == (FieldSpec {
                name: name@,
                declared_type: declared_type@,
                kind,
                optional,
                constraints,
            }),
    {
        FieldDescriptor {
            name: String::from_str(name),
            declared_type: String::from_str(declared_type),
            kind,
            optional,
            constraints,
        }
    }
}

} // verus!
