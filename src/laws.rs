//! Properties that hold of the field rules for every input.
use vstd::prelude::*;
use crate::numeral::{
    is_signed_numeral, is_unsigned_numeral, signed_in_range, starts_with_minus,
    unsigned_in_range,
};
use crate::rules::{
    ErrorKind, expected_errors, message_text, range_text, value_error_kind,
};
use crate::schema::{FieldSpec, ScalarKind};
use crate::text::{ascii_lower, is_bool_text, is_float_text};

verus! {

/// Whether the conversion of `v` to the scalar kind `kind` succeeds: the
/// condition under which `parse_unsigned`, `parse_signed`, `accepts_float` and
/// `parse_bool` return a value, every text for a text field, and the verdict of
/// the declared type's parser for an opaque field.
pub open spec fn scalar_parses(kind: ScalarKind, v: Seq<char>, opaque_parses: bool) -> bool {
    match kind {
        ScalarKind::UnsignedInt(w) => unsigned_in_range(v, w),
        ScalarKind::SignedInt(w) => signed_in_range(v, w),
        ScalarKind::Float(_) => is_float_text(v),
        ScalarKind::Bool => is_bool_text(v),
        ScalarKind::Text => true,
        ScalarKind::Opaque => opaque_parses,
    }
}

/// A required field whose value is absent yields exactly one error, which says
/// that the field is required, whatever the field's kind.
pub proof fn lemma_required_absent(d: FieldSpec, opaque_parses: bool)
    requires
        !d.optional,
    ensures
        expected_errors(d, None, opaque_parses).len() == 1,
        expected_errors(d, None, opaque_parses)[0].kind == ErrorKind::RequiredFieldMissing,
        expected_errors(d, None, opaque_parses)[0].field == d.name,
{
}

/// An optional field whose value is absent yields no error, whatever the field's kind.
pub proof fn lemma_optional_absent(d: FieldSpec, opaque_parses: bool)
    requires
        d.optional,
    ensures
        expected_errors(d, None, opaque_parses).len() == 0,
{
}

/// An unsigned field given text that starts with `-` yields exactly the error
/// for a negative value, whatever follows the sign.
pub proof fn lemma_unsigned_rejects_minus(d: FieldSpec, v: Seq<char>, opaque_parses: bool)
    requires
        d.kind is UnsignedInt,
        starts_with_minus(v),
    ensures
        expected_errors(d, Some(v), opaque_parses).len() == 1,
        expected_errors(d, Some(v), opaque_parses)[0].kind
            == ErrorKind::NegativeValueForUnsigned,
{
}

/// An integer field given a well-formed numeral outside its type's range yields
/// exactly the range error, and its message ends with that range.
pub proof fn lemma_out_of_range(d: FieldSpec, v: Seq<char>, opaque_parses: bool)
    requires
        match d.kind {
            ScalarKind::UnsignedInt(w) => !starts_with_minus(v) && is_unsigned_numeral(v)
                && !unsigned_in_range(v, w),
            ScalarKind::SignedInt(w) => is_signed_numeral(v) && !signed_in_range(v, w),
            _ => false,
        },
    ensures
        expected_errors(d, Some(v), opaque_parses).len() == 1,
        expected_errors(d, Some(v), opaque_parses)[0].kind == ErrorKind::OutOfRange,
        ({
            let m = expected_errors(d, Some(v), opaque_parses)[0].message;
            let tail = " ("@ + range_text(d.kind) + ")"@;
            m.len() >= tail.len() && m.subrange(m.len() - tail.len(), m.len() as int) == tail
        }),
{
    let m = message_text(d, ErrorKind::OutOfRange, v);
    let tail = " ("@ + range_text(d.kind) + ")"@;
    let head = "field '"@ + d.name + "' value ("@ + v + ") is outside the range of type "@
        + d.declared_type;
    assert(m =~= head + tail);
    assert(m.subrange(m.len() - tail.len(), m.len() as int) =~= tail);
}

/// A boolean field accepts a present value exactly when the value, with ASCII
/// capitals made small, is `true`, `false`, `1` or `0`; any other value yields
/// exactly the error for an invalid boolean.
pub proof fn lemma_bool_accepts_exactly(d: FieldSpec, v: Seq<char>, opaque_parses: bool)
    requires
        d.kind == ScalarKind::Bool,
    ensures
        expected_errors(d, Some(v), opaque_parses).len() == 0 <==> {
            let l = ascii_lower(v);
            l == "true"@ || l == "false"@ || l == "1"@ || l == "0"@
        },
        expected_errors(d, Some(v), opaque_parses).len() != 0 ==> expected_errors(
            d,
            Some(v),
            opaque_parses,
        ).len() == 1 && expected_errors(d, Some(v), opaque_parses)[0].kind
            == ErrorKind::InvalidBoolean,
{
}

/// A present value that passes its field's rule converts to the field's scalar kind.
pub proof fn lemma_passing_value_parses(d: FieldSpec, v: Seq<char>, opaque_parses: bool)
    requires
        expected_errors(d, Some(v), opaque_parses).len() == 0,
    ensures
        scalar_parses(d.kind, v, opaque_parses),
{
    assert(value_error_kind(d.kind, d.constraints, v, opaque_parses) is None);
}

} // verus!
