//! Validation of a whole row: every field's rule runs, and the failing fields
//! are gathered, in schema order, into a report.
use vstd::prelude::*;
use crate::rules::{ErrorView, FieldError, check_field, errors_view, expected_errors, row_view};
use crate::schema::{FieldDescriptor, FieldSpec, schema_view};

verus! {

/// The errors of one field.
#[derive(Clone, Debug)]
pub struct FieldReport {
    pub field: String,
    pub errors: Vec<FieldError>,
}

pub struct FieldReportView {
    pub field: Seq<char>,
    pub errors: Seq<ErrorView>,
}

impl View for FieldReport {
    type V = FieldReportView;

    open spec fn view(&self) -> FieldReportView {
        FieldReportView { field: self.field@, errors: errors_view(self.errors@) }
    }
}

/// The failing fields of one row, in the order of the schema.
#[derive(Clone, Debug)]
pub struct ValidationReport {
    pub fields: Vec<FieldReport>,
}

impl View for ValidationReport {
    type V = Seq<FieldReportView>;

    open spec fn view(&self) -> Seq<FieldReportView> {
        self.fields@.map_values(|f: FieldReport| f@)
    }
}

/// The report on the first `n` fields of a row.
pub open spec fn report_upto(
    schema: Seq<FieldSpec>,
    row: Seq<Option<Seq<char>>>,
    opaque_parses: Seq<bool>,
    n: nat,
) -> Seq<FieldReportView>
    decreases n,
{
    if n == 0 {
        Seq::empty()
    } else {
        let i = n - 1;
        let prev = report_upto(schema, row, opaque_parses, i as nat);
        let errs = expected_errors(schema[i], row[i], opaque_parses[i]);
        if errs.len() == 0 {
            prev
        } else {
            prev.push(FieldReportView { field: schema[i].name, errors: errs })
        }
    }
}

/// The report on a whole row.
pub open spec fn report_of(
    schema: Seq<FieldSpec>,
    row: Seq<Option<Seq<char>>>,
    opaque_parses: Seq<bool>,
) -> Seq<FieldReportView> {
    report_upto(schema, row, opaque_parses, schema.len())
}

/// Whether the rule of every field passes on the row.
pub open spec fn all_fields_pass(
    schema: Seq<FieldSpec>,
    row: Seq<Option<Seq<char>>>,
    opaque_parses: Seq<bool>,
) -> bool {
    forall|i: int|
        0 <= i < schema.len() ==> (#[trigger] expected_errors(
            schema[i],
            row[i],
            opaque_parses[i],
        )).len() == 0
}

/// Runs the rule of every field of `schema` on the matching cell of `row`.
///
/// `opaque_parses[i]` tells whether `row[i]` parses as the declared type of field
/// `i`; it is consulted only where that field is opaque. The result is `Ok` when
/// no field yields an error, and otherwise holds a report of every failing field.
pub fn validate(
    schema: &Vec<FieldDescriptor>,
    row: &Vec<Option<String>>,
    opaque_parses: &Vec<bool>,
) -> (r: Result<(), ValidationReport>)
    requires
        row@.len() == schema@.len(),
        opaque_parses@.len() == schema@.len(),
    ensures
        r is Ok <==> all_fields_pass(schema_view(schema@), row_view(row@), opaque_parses@),
        match r {
            Ok(()) => report_of(schema_view(schema@), row_view(row@), opaque_parses@).len() == 0,
            Err(rep) => rep@ == report_of(schema_view(schema@), row_view(row@), opaque_parses@)
                && rep@.len() > 0,
        },
{
    let mut fields: Vec<FieldReport> = Vec::new();
    let n = schema.len();
    let mut i: usize = 0;
    while i < n
        invariant
            i <= n == schema@.len() == row@.len() == opaque_parses@.len(),
            fields@.map_values(|f: FieldReport| f@) == report_upto(
                schema_view(schema@),
                row_view(row@),
                opaque_parses@,
                i as nat,
            ),
        decreases n - i,
    {
        let errors = check_field(&schema[i], &row[i], opaque_parses[i]);
        if errors.len() > 0 {
            fields.push(FieldReport { field: schema[i].name.clone(), errors });
        }
        assert(fields@.map_values(|f: FieldReport| f@) =~= report_upto(
            schema_view(schema@),
            row_view(row@),
            opaque_parses@,
            (i + 1) as nat,
        ));
        i = i + 1;
    }
    proof {
        lemma_validate_passes_iff_every_field_passes(
            schema_view(schema@),
            row_view(row@),
            opaque_parses@,
        );
    }
    let report = ValidationReport { fields };
    if report.fields.len() == 0 {
        Ok(())
    } else {
        Err(report)
    }
}

/// The report on the first `n` fields is empty exactly when the rule of each of
/// those fields passes.
proof fn lemma_report_upto_empty(
    schema: Seq<FieldSpec>,
    row: Seq<Option<Seq<char>>>,
    opaque_parses: Seq<bool>,
    n: nat,
)
    requires
        n <= schema.len(),
    ensures
        report_upto(schema, row, opaque_parses, n).len() == 0 <==> forall|i: int|
            0 <= i < n ==> (#[trigger] expected_errors(
                schema[i],
                row[i],
                opaque_parses[i],
            )).len() == 0,
    decreases n,
{
    if n > 0 {
        lemma_report_upto_empty(schema, row, opaque_parses, (n - 1) as nat);
    }
}

/// A row passes validation exactly when the rule of every field yields no error.
pub proof fn lemma_validate_passes_iff_every_field_passes(
    schema: Seq<FieldSpec>,
    row: Seq<Option<Seq<char>>>,
    opaque_parses: Seq<bool>,
)
    requires
        row.len() == schema.len(),
        opaque_parses.len() == schema.len(),
    ensures
        report_of(schema, row, opaque_parses).len() == 0 <==> all_fields_pass(
            schema,
            row,
            opaque_parses,
        ),
{
    lemma_report_upto_empty(schema, row, opaque_parses, schema.len());
}

} // verus!
