//! From a field as declared (its type as written and its annotations) to a field
//! descriptor: the type is classified by name, once unwrapped from `Option`, and
//! the length bounds are read from the annotations.
use vstd::prelude::*;
use crate::numeral::{IntWidth, NumberError, digits_value, is_digit_text, parse_length};
use crate::schema::{ConstraintSet, FieldDescriptor, FieldSpec, FloatWidth, ScalarKind};

verus! {

/// A type written as `p`, then one or more characters, then `>`.
pub open spec fn wraps(t: Seq<char>, p: Seq<char>) -> bool {
    &&& t.len() > p.len() + 1
    &&& t.take(p.len() as int) == p
    &&& t.last() == '>'
}

/// The ways of writing the opening of `Option<...>`, plain or with its path.
pub open spec fn option_openings() -> Seq<Seq<char>> {
    seq![
        "Option<"@,
        "std::option::Option<"@,
        "core::option::Option<"@,
        "::std::option::Option<"@,
        "::core::option::Option<"@,
    ]
}

/// A type written as `Option<...>`, possibly with the path of `Option`.
pub open spec fn is_option_form(t: Seq<char>) -> bool {
    exists|i: int| 0 <= i < option_openings().len() && wraps(t, #[trigger] option_openings()[i])
}

/// The type inside one level of `Option`, or the type itself.
pub open spec fn inner_type(t: Seq<char>) -> Seq<char> {
    if is_option_form(t) {
        let i = choose|i: int|
            0 <= i < option_openings().len() && wraps(t, #[trigger] option_openings()[i]);
        t.subrange(option_openings()[i].len() as int, t.len() - 1)
    } else {
        t
    }
}

/// The scalar kind of a type, by exact name.
pub open spec fn kind_of_name(n: Seq<char>) -> ScalarKind {
    if n == "u8"@ {
        ScalarKind::UnsignedInt(IntWidth::W8)
    } else if n == "u16"@ {
        ScalarKind::UnsignedInt(IntWidth::W16)
    } else if n == "u32"@ {
        ScalarKind::UnsignedInt(IntWidth::W32)
    } else if n == "u64"@ {
        ScalarKind::UnsignedInt(IntWidth::W64)
    } else if n == "u128"@ {
        ScalarKind::UnsignedInt(IntWidth::W128)
    } else if n == "i8"@ {
        ScalarKind::SignedInt(IntWidth::W8)
    } else if n == "i16"@ {
        ScalarKind::SignedInt(IntWidth::W16)
    } else if n == "i32"@ {
        ScalarKind::SignedInt(IntWidth::W32)
    } else if n == "i64"@ {
        ScalarKind::SignedInt(IntWidth::W64)
    } else if n == "i128"@ {
        ScalarKind::SignedInt(IntWidth::W128)
    } else if n == "f32"@ {
        ScalarKind::Float(FloatWidth::W32)
    } else if n == "f64"@ {
        ScalarKind::Float(FloatWidth::W64)
    } else if n == "bool"@ {
        ScalarKind::Bool
    } else if n == "String"@ {
        ScalarKind::Text
    } else {
        ScalarKind::Opaque
    }
}

/// The bound that the annotations give under `key`. The last annotation of that
/// key whose value is a string of digits decides: its value if that fits in
/// `usize`, and no bound if it does not. Other values are ignored.
pub open spec fn length_bound(
    annotations: Seq<(Seq<char>, Seq<char>)>,
    key: Seq<char>,
) -> Option<usize>
    decreases annotations.len(),
{
    if annotations.len() == 0 {
        None
    } else {
        let (k, v) = annotations.last();
        if k == key && is_digit_text(v) {
            if digits_value(v) <= usize::MAX {
                Some(digits_value(v) as usize)
            } else {
                None
            }
        } else {
            length_bound(annotations.drop_last(), key)
        }
    }
}

pub open spec fn annotations_view(annotations: Seq<(String, String)>) -> Seq<(Seq<char>, Seq<char>)> {
    annotations.map_values(|a: (String, String)| (a.0@, a.1@))
}

pub open spec fn constraints_of(annotations: Seq<(Seq<char>, Seq<char>)>) -> ConstraintSet {
    ConstraintSet {
        min_length: length_bound(annotations, "min_length"@),
        max_length: length_bound(annotations, "max_length"@),
    }
}

/// Tells whether two texts are equal.
fn same_text(a: &str, b: &str) -> (r: bool)
    ensures
        r == (a@ == b@),
{
    let n = a.unicode_len();
    if n != b.unicode_len() {
        return false;
    }
    let mut i: usize = 0;
    while i < n
        invariant
            i <= n == a@.len() == b@.len(),
            forall|j: int| 0 <= j < i ==> a@[j] == b@[j],
        decreases n - i,
    {
        if a.get_char(i) != b.get_char(i) {
            return false;
        }
        i = i + 1;
    }
    assert(a@ =~= b@);
    true
}

/// Classifies a type name.
pub fn kind_of(n: &str) -> (r: ScalarKind)
    ensures
        r == kind_of_name(n@),
{
    if same_text(n, "u8") {
        ScalarKind::UnsignedInt(IntWidth::W8)
    } else if same_text(n, "u16") {
        ScalarKind::UnsignedInt(IntWidth::W16)
    } else if same_text(n, "u32") {
        ScalarKind::UnsignedInt(IntWidth::W32)
    } else if same_text(n, "u64") {
        ScalarKind::UnsignedInt(IntWidth::W64)
    } else if same_text(n, "u128") {
        ScalarKind::UnsignedInt(IntWidth::W128)
    } else if same_text(n, "i8") {
        ScalarKind::SignedInt(IntWidth::W8)
    } else if same_text(n, "i16") {
        ScalarKind::SignedInt(IntWidth::W16)
    } else if same_text(n, "i32") {
        ScalarKind::SignedInt(IntWidth::W32)
    } else if same_text(n, "i64") {
        ScalarKind::SignedInt(IntWidth::W64)
    } else if same_text(n, "i128") {
        ScalarKind::SignedInt(IntWidth::W128)
    } else if same_text(n, "f32") {
        ScalarKind::Float(FloatWidth::W32)
    } else if same_text(n, "f64") {
        ScalarKind::Float(FloatWidth::W64)
    } else if same_text(n, "bool") {
        ScalarKind::Bool
    } else if same_text(n, "String") {
        ScalarKind::Text
    } else {
        ScalarKind::Opaque
    }
}

/// Tells whether `t` is written as `p`, then one or more characters, then `>`.
fn wraps_with(t: &str, p: &str) -> (r: bool)
    ensures
        r == wraps(t@, p@),
{
    let k = p.unicode_len();
    let n = t.unicode_len();
    if n == 0 || n - 1 <= k || t.get_char(n - 1) != '>' {
        return false;
    }
    same_text(t.substring_char(0, k), p)
}

/// The opening of `Option<...>` that `t` is written with, if any.
fn option_opening(t: &str) -> (r: Option<&'static str>)
    ensures
        match r {
            Some(p) => wraps(t@, p@) && exists|i: int|
                0 <= i < option_openings().len() && p@ == #[trigger] option_openings()[i],
            None => !is_option_form(t@),
        },
{
    let ghost o = option_openings();
    let candidates = [
        "Option<",
        "std::option::Option<",
        "core::option::Option<",
        "::std::option::Option<",
        "::core::option::Option<",
    ];
    assert(o[0] == candidates[0]@ && o[1] == candidates[1]@ && o[2] == candidates[2]@ && o[3]
        == candidates[3]@ && o[4] == candidates[4]@);
    let mut i: usize = 0;
    while i < 5
        invariant
            i <= 5,
            o == option_openings(),
            o.len() == 5,
            forall|j: int| 0 <= j < 5 ==> #[trigger] o[j] == candidates[j]@,
            forall|j: int| 0 <= j < i ==> !wraps(t@, #[trigger] o[j]),
        decreases 5 - i,
    {
        if wraps_with(t, candidates[i]) {
            assert(candidates[i as int]@ == o[i as int]);
            return Some(candidates[i]);
        }
        i = i + 1;
    }
    None
}

/// Tells whether a declared type is written as `Option<...>`, with or without
/// the path of `Option`.
pub fn is_option_type(t: &str) -> (r: bool)
    ensures
        r == is_option_form(t@),
{
    option_opening(t).is_some()
}

/// The type inside one level of `Option`, or the declared type itself.
pub fn get_inner_type(t: &str) -> (r: &str)
    ensures
        r@ == inner_type(t@),
{
    match option_opening(t) {
        Some(p) => {
            proof {
                lemma_one_opening(t@, p@);
            }
            t.substring_char(p.unicode_len(), t.unicode_len() - 1)
        },
        None => t,
    }
}

/// A type is written with at most one of the openings of `Option<...>`.
proof fn lemma_one_opening(t: Seq<char>, p: Seq<char>)
    requires
        wraps(t, p),
        exists|i: int| 0 <= i < option_openings().len() && p == #[trigger] option_openings()[i],
    ensures
        inner_type(t) == t.subrange(p.len() as int, t.len() - 1),
{
    let o = option_openings();
    reveal_strlit("Option<");
    reveal_strlit("std::option::Option<");
    reveal_strlit("core::option::Option<");
    reveal_strlit("::std::option::Option<");
    reveal_strlit("::core::option::Option<");
    let i = choose|i: int| 0 <= i < o.len() && wraps(t, #[trigger] o[i]);
    let j = choose|j: int| 0 <= j < o.len() && p == #[trigger] o[j];
    assert(wraps(t, o[i]));
    // two openings that both begin `t` agree on their first characters
    assert(o[i] == o[j]) by {
        assert(t.take(o[i].len() as int)[0] == o[i][0]);
        assert(t.take(o[j].len() as int)[0] == o[j][0]);
        assert(t.take(o[i].len() as int)[2] == o[i][2]);
        assert(t.take(o[j].len() as int)[2] == o[j][2]);
        assert(t.take(o[i].len() as int)[0] == t[0]);
        assert(t.take(o[j].len() as int)[0] == t[0]);
        assert(t.take(o[i].len() as int)[2] == t[2]);
        assert(t.take(o[j].len() as int)[2] == t[2]);
    }
}

/// Reads the length bounds from a field's annotations, given as key and value
/// texts. A bound is decided by the last annotation of its key whose value is a
/// string of digits: it is that value, or no bound where the value does not fit
/// in `usize`. Other annotations, and values that are not digits, are ignored.
pub fn extract_constraints(annotations: &Vec<(String, String)>) -> (r: ConstraintSet)
    ensures
        r == constraints_of(annotations_view(annotations@)),
{
    let ghost all = annotations_view(annotations@);
    proof {
        reveal_strlit("min_length");
        reveal_strlit("max_length");
        assert("min_length"@[1] != "max_length"@[1]);
    }
    let mut min: Option<usize> = None;
    let mut max: Option<usize> = None;
    let n = annotations.len();
    let mut i: usize = 0;
    while i < n
        invariant
            i <= n == annotations@.len() == all.len(),
            all == annotations_view(annotations@),
            "min_length"@ != "max_length"@,
            min == length_bound(all.take(i as int), "min_length"@),
            max == length_bound(all.take(i as int), "max_length"@),
        decreases n - i,
    {
        let key = annotations[i].0.as_str();
        let value = annotations[i].1.as_str();
        assert(all.take(i + 1).drop_last() =~= all.take(i as int));
        assert(all.take(i + 1).last() == (key@, value@));
        if same_text(key, "min_length") {
            match parse_length(value) {
                Ok(v) => min = Some(v),
                Err(NumberError::OutOfRange) => min = None,
                Err(NumberError::Malformed) => {},
            }
        } else if same_text(key, "max_length") {
            match parse_length(value) {
                Ok(v) => max = Some(v),
                Err(NumberError::OutOfRange) => max = None,
                Err(NumberError::Malformed) => {},
            }
        }
        i = i + 1;
    }
    assert(all.take(n as int) =~= all);
    ConstraintSet { min_length: min, max_length: max }
}

impl FieldDescriptor {
    /// The descriptor of a field named `name`, declared with the type written
    /// `declared` and with the given annotations.
    pub fn declare(
        name: &str,
        declared: &str,
        annotations: &Vec<(String, String)>,
    ) -> (r: FieldDescriptor)
        ensures
            r@ == (FieldSpec {
                name: name@,
                declared_type: inner_type(declared@),
                kind: kind_of_name(inner_type(declared@)),
                optional: is_option_form(declared@),
                constraints: constraints_of(annotations_view(annotations@)),
            }),
    {
        let inner = get_inner_type(declared);
        FieldDescriptor::new(
            name,
            inner,
            kind_of(inner),
            is_option_type(declared),
            extract_constraints(annotations),
        )
    }
}

} // verus!
