//! The rule each field descriptor stands for: which error, if any, a raw value
//! of that field yields, and the message that names it.
use vstd::prelude::*;
use crate::numeral::{
    IntWidth, NumberError, decimal_text, decimal_string, digits_value, is_signed_numeral,
    is_unsigned_numeral, parse_signed, parse_unsigned, signed_in_range, signed_max,
    signed_max_of, signed_min_magnitude, starts_with_minus, unsigned_digits, unsigned_in_range,
    unsigned_max, unsigned_max_of,
};
use crate::schema::{ConstraintSet, FieldDescriptor, FieldSpec, ScalarKind};
use crate::text::{accepts_float, is_bool_text, is_float_text, parse_bool};

verus! {

/// The kinds of error a field can yield.
#[derive(Clone, Copy, Debug, PartialEq, Eq, Structural)]
pub enum ErrorKind {
    RequiredFieldMissing,
    NegativeValueForUnsigned,
    MalformedNumber,
    OutOfRange,
    InvalidFloat,
    InvalidBoolean,
    StringLengthViolation,
    InvalidOpaqueValue,
}

/// An error of one field, with a message meant for the operator.
#[derive(Clone, Debug)]
pub struct FieldError {
    pub field: String,
    pub kind: ErrorKind,
    pub message: String,
}

/// What a field error holds, as mathematical values.
pub struct ErrorView {
    pub field: Seq<char>,
    pub kind: ErrorKind,
    pub message: Seq<char>,
}

impl View for FieldError {
    type V = ErrorView;

    open spec fn view(&self) -> ErrorView {
        ErrorView { field: self.field@, kind: self.kind, message: self.message@ }
    }
}

pub open spec fn errors_view(errors: Seq<FieldError>) -> Seq<ErrorView> {
    errors.map_values(|e: FieldError| e@)
}

/// The text of a raw value, if it is present.
pub open spec fn text_of(raw: Option<String>) -> Option<Seq<char>> {
    match raw {
        Some(s) => Some(s@),
        None => None,
    }
}

/// The texts of a row's cells.
pub open spec fn row_view(row: Seq<Option<String>>) -> Seq<Option<Seq<char>>> {
    row.map_values(|o: Option<String>| text_of(o))
}

/// Whether a text of `len` characters meets the length bounds.
pub open spec fn length_ok(c: ConstraintSet, len: nat) -> bool {
    match (c.min_length, c.max_length) {
        (Some(min), Some(max)) => min <= len && len <= max,
        (Some(min), None) => min <= len,
        (None, Some(max)) => len <= max,
        (None, None) => true,
    }
}

/// The error, if any, that a present value `v` yields for a field of kind `kind`.
/// `opaque_parses` tells whether `v` parses as the declared type of an opaque field.
pub open spec fn value_error_kind(
    kind: ScalarKind,
    c: ConstraintSet,
    v: Seq<char>,
    opaque_parses: bool,
) -> Option<ErrorKind> {
    match kind {
        ScalarKind::UnsignedInt(w) => if starts_with_minus(v) {
            Some(ErrorKind::NegativeValueForUnsigned)
        } else if !is_unsigned_numeral(v) {
            Some(ErrorKind::MalformedNumber)
        } else if !unsigned_in_range(v, w) {
            Some(ErrorKind::OutOfRange)
        } else {
            None
        },
        ScalarKind::SignedInt(w) => if !is_signed_numeral(v) {
            Some(ErrorKind::MalformedNumber)
        } else if !signed_in_range(v, w) {
            Some(ErrorKind::OutOfRange)
        } else {
            None
        },
        ScalarKind::Float(_) => if is_float_text(v) {
            None
        } else {
            Some(ErrorKind::InvalidFloat)
        },
        ScalarKind::Bool => if is_bool_text(v) {
            None
        } else {
            Some(ErrorKind::InvalidBoolean)
        },
        ScalarKind::Text => if length_ok(c, v.len()) {
            None
        } else {
            Some(ErrorKind::StringLengthViolation)
        },
        ScalarKind::Opaque => if opaque_parses {
            None
        } else {
            Some(ErrorKind::InvalidOpaqueValue)
        },
    }
}

/// The error, if any, that a raw value yields for the field `d`.
pub open spec fn field_error_kind(
    d: FieldSpec,
    raw: Option<Seq<char>>,
    opaque_parses: bool,
) -> Option<ErrorKind> {
    match raw {
        None => if d.optional {
            None
        } else {
            Some(ErrorKind::RequiredFieldMissing)
        },
        Some(v) => value_error_kind(d.kind, d.constraints, v, opaque_parses),
    }
}

/// The range of an integer kind, as a message states it.
pub open spec fn range_text(kind: ScalarKind) -> Seq<char> {
    match kind {
        ScalarKind::UnsignedInt(w) => "0 to "@ + decimal_text(unsigned_max(w)),
        ScalarKind::SignedInt(w) => "-"@ + decimal_text(signed_min_magnitude(w)) + " to "@
            + decimal_text(signed_max(w)),
        _ => Seq::empty(),
    }
}

/// The message of a length error for a text of `len` characters.
pub open spec fn length_message(name: Seq<char>, c: ConstraintSet, len: nat) -> Seq<char> {
    match (c.min_length, c.max_length) {
        (Some(min), Some(max)) => "field '"@ + name + "' must be between "@ + decimal_text(
            min as nat,
        ) + " and "@ + decimal_text(max as nat) + " characters long (actual: "@ + decimal_text(len)
            + ")"@,
        (Some(min), None) => "field '"@ + name + "' is shorter than the minimum of "@
            + decimal_text(min as nat) + " characters (actual: "@ + decimal_text(len) + ")"@,
        (None, Some(max)) => "field '"@ + name + "' is longer than the maximum of "@
            + decimal_text(max as nat) + " characters (actual: "@ + decimal_text(len) + ")"@,
        (None, None) => Seq::empty(),
    }
}

/// The message of an error of kind `kind` on field `d` whose raw text is `v`.
pub open spec fn message_text(d: FieldSpec, kind: ErrorKind, v: Seq<char>) -> Seq<char> {
    let head = "field '"@ + d.name;
    match kind {
        ErrorKind::RequiredFieldMissing => head + "' is required"@,
        ErrorKind::NegativeValueForUnsigned => head + "' was given a negative value ("@ + v
            + "), but type "@ + d.declared_type + " does not accept negative values"@,
        ErrorKind::MalformedNumber => head + "' value ("@ + v + ") is not a number of type "@
            + d.declared_type,
        ErrorKind::OutOfRange => head + "' value ("@ + v + ") is outside the range of type "@
            + d.declared_type + " ("@ + range_text(d.kind) + ")"@,
        ErrorKind::InvalidFloat => head + "' value ("@ + v
            + ") is not a valid floating point number of type "@ + d.declared_type,
        ErrorKind::InvalidBoolean => head + "' value ("@ + v + ") is not a boolean of type "@
            + d.declared_type + "; use true/false or 1/0"@,
        ErrorKind::StringLengthViolation => length_message(d.name, d.constraints, v.len()),
        ErrorKind::InvalidOpaqueValue => head + "' value ("@ + v + ") is not a valid "@
            + d.declared_type,
    }
}

/// The errors that the rule of field `d` yields on a raw value.
pub open spec fn expected_errors(
    d: FieldSpec,
    raw: Option<Seq<char>>,
    opaque_parses: bool,
) -> Seq<ErrorView> {
    match field_error_kind(d, raw, opaque_parses) {
        None => Seq::empty(),
        Some(k) => seq![
            ErrorView {
                field: d.name,
                kind: k,
                message: message_text(
                    d,
                    k,
                    match raw {
                        Some(v) => v,
                        None => Seq::empty(),
                    },
                ),
            },
        ],
    }
}

/// Decides which error, if any, the present value `v` yields for field `d`.
pub fn value_error(d: &FieldDescriptor, v: &str, opaque_parses: bool) -> (r: Option<ErrorKind>)
    ensures
        r == value_error_kind(d.kind, d.constraints, v@, opaque_parses),
{
    match d.kind {
        ScalarKind::UnsignedInt(w) => {
            if v.unicode_len() > 0 && v.get_char(0) == '-' {
                Some(ErrorKind::NegativeValueForUnsigned)
            } else {
                match parse_unsigned(v, w) {
                    Ok(_) => None,
                    Err(NumberError::Malformed) => Some(ErrorKind::MalformedNumber),
                    Err(NumberError::OutOfRange) => Some(ErrorKind::OutOfRange),
                }
            }
        },
        ScalarKind::SignedInt(w) => match parse_signed(v, w) {
            Ok(_) => None,
            Err(NumberError::Malformed) => Some(ErrorKind::MalformedNumber),
            Err(NumberError::OutOfRange) => Some(ErrorKind::OutOfRange),
        },
        ScalarKind::Float(_) => if accepts_float(v) {
            None
        } else {
            Some(ErrorKind::InvalidFloat)
        },
        ScalarKind::Bool => match parse_bool(v) {
            Some(_) => None,
            None => Some(ErrorKind::InvalidBoolean),
        },
        ScalarKind::Text => {
            let len = v.unicode_len();
            let ok = match (d.constraints.min_length, d.constraints.max_length) {
                (Some(min), Some(max)) => min <= len && len <= max,
                (Some(min), None) => min <= len,
                (None, Some(max)) => len <= max,
                (None, None) => true,
            };
            if ok {
                None
            } else {
                Some(ErrorKind::StringLengthViolation)
            }
        },
        ScalarKind::Opaque => if opaque_parses {
            None
        } else {
            Some(ErrorKind::InvalidOpaqueValue)
        },
    }
}

fn range_string(kind: ScalarKind) -> (r: String)
    ensures
        r@ == range_text(kind),
{
    match kind {
        ScalarKind::UnsignedInt(w) => {
            let mut r = String::from_str("0 to ");
            r.append(decimal_string(unsigned_max_of(w)).as_str());
            r
        },
        ScalarKind::SignedInt(w) => {
            let max = signed_max_of(w);
            let mut r = String::from_str("-");
            r.append(decimal_string(max + 1).as_str());
            r.append(" to ");
            r.append(decimal_string(max).as_str());
            r
        },
        _ => String::new(),
    }
}

fn length_string(name: &str, c: ConstraintSet, len: usize) -> (r: String)
    ensures
        r@ == length_message(name@, c, len as nat),
{
    let mut r = String::from_str("field '");
    r.append(name);
    match (c.min_length, c.max_length) {
        (Some(min), Some(max)) => {
            r.append("' must be between ");
            r.append(decimal_string(min as u128).as_str());
            r.append(" and ");
            r.append(decimal_string(max as u128).as_str());
            r.append(" characters long (actual: ");
        },
        (Some(min), None) => {
            r.append("' is shorter than the minimum of ");
            r.append(decimal_string(min as u128).as_str());
            r.append(" characters (actual: ");
        },
        (None, Some(max)) => {
            r.append("' is longer than the maximum of ");
            r.append(decimal_string(max as u128).as_str());
            r.append(" characters (actual: ");
        },
        (None, None) => {
            return String::new();
        },
    }
    r.append(decimal_string(len as u128).as_str());
    r.append(")");
    r
}

/// Writes the message of an error of kind `kind` on field `d` whose raw text is `v`.
pub fn message(d: &FieldDescriptor, kind: ErrorKind, v: &str) -> (r: String)
    ensures
        r@ == message_text(d@, kind, v@),
{
    if kind == ErrorKind::StringLengthViolation {
        return length_string(d.name.as_str(), d.constraints, v.unicode_len());
    }
    let mut r = String::from_str("field '");
    r.append(d.name.as_str());
    match kind {
        ErrorKind::RequiredFieldMissing => {
            r.append("' is required");
        },
        ErrorKind::NegativeValueForUnsigned => {
            r.append("' was given a negative value (");
            r.append(v);
            r.append("), but type ");
            r.append(d.declared_type.as_str());
            r.append(" does not accept negative values");
        },
        ErrorKind::MalformedNumber => {
            r.append("' value (");
            r.append(v);
            r.append(") is not a number of type ");
            r.append(d.declared_type.as_str());
        },
        ErrorKind::OutOfRange => {
            r.append("' value (");
            r.append(v);
            r.append(") is outside the range of type ");
            r.append(d.declared_type.as_str());
            r.append(" (");
            r.append(range_string(d.kind).as_str());
            r.append(")");
        },
        ErrorKind::InvalidFloat => {
            r.append("' value (");
            r.append(v);
            r.append(") is not a valid floating point number of type ");
            r.append(d.declared_type.as_str());
        },
        ErrorKind::InvalidBoolean => {
            r.append("' value (");
            r.append(v);
            r.append(") is not a boolean of type ");
            r.append(d.declared_type.as_str());
            r.append("; use true/false or 1/0");
        },
        ErrorKind::StringLengthViolation => {},
        ErrorKind::InvalidOpaqueValue => {
            r.append("' value (");
            r.append(v);
            r.append(") is not a valid ");
            r.append(d.declared_type.as_str());
        },
    }
    r
}

/// Runs the rule of field `d` on one raw value.
///
/// `opaque_parses` tells whether the value parses as the declared type of an
/// opaque field; it is not consulted for any other kind.
pub fn check_field(
    d: &FieldDescriptor,
    raw: &Option<String>,
    opaque_parses: bool,
) -> (r: Vec<FieldError>)
    ensures
        errors_view(r@) == expected_errors(d@, text_of(*raw), opaque_parses),
{
    let mut r: Vec<FieldError> = Vec::new();
    match raw {
        None => {
            if !d.optional {
                let kind = ErrorKind::RequiredFieldMissing;
                r.push(
                    FieldError { field: d.name.clone(), kind, message: message(d, kind, "") },
                );
            }
        },
        Some(v) => {
            if let Some(kind) = value_error(d, v.as_str(), opaque_parses) {
                r.push(
                    FieldError {
                        field: d.name.clone(),
                        kind,
                        message: message(d, kind, v.as_str()),
                    },
                );
            }
        },
    }
    assert(errors_view(r@) =~= expected_errors(d@, text_of(*raw), opaque_parses));
    r
}

} // verus!
