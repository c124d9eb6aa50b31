//! A record of four fields, its raw form with every field as optional text, and
//! the conversion from the one to the other once the raw form has been validated.
use vstd::prelude::*;
use crate::laws::lemma_passing_value_parses;
use crate::numeral::{IntWidth, digits_value, parse_signed, parse_unsigned, signed_value, unsigned_digits};
use crate::report::{ValidationReport, all_fields_pass, report_of, validate};
use crate::rules::{expected_errors, row_view, text_of};
use crate::schema::{ConstraintSet, FieldDescriptor, FieldSpec, ScalarKind, schema_view};

verus! {

/// A row with typed fields.
#[derive(Clone, Debug)]
pub struct Record {
    pub a: Option<u16>,
    pub b: Option<i32>,
    pub c: String,
    pub d: Option<String>,
}

/// A row of `Record` as it arrives: every field is optional text.
#[derive(Clone, Debug)]
pub struct RawRecord {
    pub a: Option<String>,
    pub b: Option<String>,
    pub c: Option<String>,
    pub d: Option<String>,
}

/// The fields of `Record`: an optional `u16`, an optional `i32`, a required text
/// of at least five characters and an optional text of at least five characters.
pub open spec fn record_schema() -> Seq<FieldSpec> {
    let min5 = ConstraintSet { min_length: Some(5), max_length: None };
    let unbounded = ConstraintSet { min_length: None, max_length: None };
    seq![
        FieldSpec {
            name: "a"@,
            declared_type: "u16"@,
            kind: ScalarKind::UnsignedInt(IntWidth::W16),
            optional: true,
            constraints: unbounded,
        },
        FieldSpec {
            name: "b"@,
            declared_type: "i32"@,
            kind: ScalarKind::SignedInt(IntWidth::W32),
            optional: true,
            constraints: unbounded,
        },
        FieldSpec {
            name: "c"@,
            declared_type: "String"@,
            kind: ScalarKind::Text,
            optional: false,
            constraints: min5,
        },
        FieldSpec {
            name: "d"@,
            declared_type: "String"@,
            kind: ScalarKind::Text,
            optional: true,
            constraints: min5,
        },
    ]
}

impl Record {
    /// The field descriptors of `Record`, in declaration order.
    pub fn schema() -> (r: Vec<FieldDescriptor>)
        ensures
            schema_view(r@) == record_schema(),
    {
        let min5 = ConstraintSet { min_length: Some(5), max_length: None };
        let mut r: Vec<FieldDescriptor> = Vec::new();
        r.push(
            FieldDescriptor::new(
                "a",
                "u16",
                ScalarKind::UnsignedInt(IntWidth::W16),
                true,
                ConstraintSet::none(),
            ),
        );
        r.push(
            FieldDescriptor::new(
                "b",
                "i32",
                ScalarKind::SignedInt(IntWidth::W32),
                true,
                ConstraintSet::none(),
            ),
        );
        r.push(FieldDescriptor::new("c", "String", ScalarKind::Text, false, min5));
        r.push(FieldDescriptor::new("d", "String", ScalarKind::Text, true, min5));
        assert(schema_view(r@) =~= record_schema());
        r
    }
}

impl RawRecord {
    /// The cells of the row, in the order of `record_schema`.
    pub open spec fn cells(&self) -> Seq<Option<Seq<char>>> {
        seq![text_of(self.a), text_of(self.b), text_of(self.c), text_of(self.d)]
    }

    fn row(&self) -> (r: Vec<Option<String>>)
        ensures
            row_view(r@) == self.cells(),
    {
        let mut r: Vec<Option<String>> = Vec::new();
        r.push(self.a.clone());
        r.push(self.b.clone());
        r.push(self.c.clone());
        r.push(self.d.clone());
        assert(row_view(r@) =~= self.cells());
        r
    }

    /// Runs the rule of every field of `Record` on this row.
    pub fn validate(&self) -> (r: Result<(), ValidationReport>)
        ensures
            r is Ok <==> all_fields_pass(record_schema(), self.cells(), seq![true, true, true, true]),
            match r {
                Ok(()) => report_of(record_schema(), self.cells(), seq![true, true, true, true]).len()
                    == 0,
                Err(rep) => rep@ == report_of(
                    record_schema(),
                    self.cells(),
                    seq![true, true, true, true],
                ) && rep@.len() > 0,
            },
    {
        let schema = Record::schema();
        let row = self.row();
        let opaque: Vec<bool> = vec![true, true, true, true];
        assert(opaque@ =~= seq![true, true, true, true]);
        assert(schema_view(schema@).len() == schema@.len());
        assert(row_view(row@).len() == row@.len());
        validate(&schema, &row, &opaque)
    }

    /// Validates this row and, when it passes, converts it to a `Record`.
    pub fn to_record(&self) -> (r: Result<Record, ValidationReport>)
        ensures
            r is Ok <==> all_fields_pass(record_schema(), self.cells(), seq![true, true, true, true]),
            match r {
                Ok(rec) => {
                    &&& (rec.a matches Some(x) ==> self.a matches Some(t) && x as nat
                        == digits_value(unsigned_digits(t@)))
                    &&& (rec.a is Some <==> self.a is Some)
                    &&& (rec.b matches Some(x) ==> self.b matches Some(t) && x as int
                        == signed_value(t@))
                    &&& (rec.b is Some <==> self.b is Some)
                    &&& self.c matches Some(t) && rec.c@ == t@
                    &&& text_of(rec.d) == text_of(self.d)
                },
                Err(rep) => rep@ == report_of(
                    record_schema(),
                    self.cells(),
                    seq![true, true, true, true],
                ) && rep@.len() > 0,
            },
    {
        match self.validate() {
            Err(rep) => Err(rep),
            Ok(()) => {
                let ghost s = record_schema();
                let ghost cells = self.cells();
                let ghost ok = seq![true, true, true, true];
                assert(expected_errors(s[0], cells[0], ok[0]).len() == 0);
                assert(expected_errors(s[1], cells[1], ok[1]).len() == 0);
                assert(expected_errors(s[2], cells[2], ok[2]).len() == 0);
                let a: Option<u16> = match &self.a {
                    None => None,
                    Some(t) => {
                        proof {
                            lemma_passing_value_parses(s[0], t@, true);
                        }
                        match parse_unsigned(t.as_str(), IntWidth::W16) {
                            Ok(v) => Some(v as u16),
                            Err(_) => None,
                        }
                    },
                };
                let b: Option<i32> = match &self.b {
                    None => None,
                    Some(t) => {
                        proof {
                            lemma_passing_value_parses(s[1], t@, true);
                        }
                        match parse_signed(t.as_str(), IntWidth::W32) {
                            Ok(v) => Some(v as i32),
                            Err(_) => None,
                        }
                    },
                };
                let c: String = match &self.c {
                    Some(t) => t.clone(),
                    None => String::new(),
                };
                Ok(Record { a, b, c, d: self.d.clone() })
            },
        }
    }
}

} // verus!
