use raw_struct::declaration::{extract_constraints, get_inner_type, is_option_type, kind_of};
use raw_struct::numeral::{decimal_string, parse_length, parse_signed, parse_unsigned, IntWidth, NumberError};
use raw_struct::rules::{check_field, message, value_error, ErrorKind, FieldError};
use raw_struct::schema::{ConstraintSet, FieldDescriptor, FloatWidth, ScalarKind};
use raw_struct::text::{accepts_float, parse_bool};

fn field(kind: ScalarKind, ty: &str, optional: bool) -> FieldDescriptor {
    FieldDescriptor::new("f", ty, kind, optional, ConstraintSet::none())
}

fn text_field(min: Option<usize>, max: Option<usize>) -> FieldDescriptor {
    FieldDescriptor::new(
        "name",
        "String",
        ScalarKind::Text,
        false,
        ConstraintSet { min_length: min, max_length: max },
    )
}

fn errors_of(d: &FieldDescriptor, v: Option<&str>) -> Vec<FieldError> {
    check_field(d, &v.map(|s| s.to_string()), true)
}

fn all_kinds() -> Vec<(ScalarKind, &'static str)> {
    vec![
        (ScalarKind::UnsignedInt(IntWidth::W8), "u8"),
        (ScalarKind::UnsignedInt(IntWidth::W128), "u128"),
        (ScalarKind::SignedInt(IntWidth::W32), "i32"),
        (ScalarKind::Float(FloatWidth::W64), "f64"),
        (ScalarKind::Bool, "bool"),
        (ScalarKind::Text, "String"),
        (ScalarKind::Opaque, "char"),
    ]
}

#[test]
fn required_absent_gives_one_required_error_for_every_kind() {
    for (kind, ty) in all_kinds() {
        let errs = errors_of(&field(kind, ty, false), None);
        assert_eq!(errs.len(), 1);
        assert_eq!(errs[0].kind, ErrorKind::RequiredFieldMissing);
        assert_eq!(errs[0].field, "f");
        assert_eq!(errs[0].message, "field 'f' is required");
    }
}

#[test]
fn optional_absent_gives_no_error_for_every_kind() {
    for (kind, ty) in all_kinds() {
        assert!(errors_of(&field(kind, ty, true), None).is_empty());
    }
    let d = FieldDescriptor::new(
        "d",
        "String",
        ScalarKind::Text,
        true,
        ConstraintSet { min_length: Some(5), max_length: None },
    );
    assert!(errors_of(&d, None).is_empty());
}

#[test]
fn unsigned_rejects_leading_minus() {
    let d = field(ScalarKind::UnsignedInt(IntWidth::W8), "u8", false);
    for v in ["-5", "-0", "-300", "-x"] {
        let errs = errors_of(&d, Some(v));
        assert_eq!(errs.len(), 1);
        assert_eq!(errs[0].kind, ErrorKind::NegativeValueForUnsigned);
    }
    assert_eq!(
        errors_of(&d, Some("-5"))[0].message,
        "field 'f' was given a negative value (-5), but type u8 does not accept negative values"
    );
}

#[test]
fn unsigned_out_of_range_states_bounds() {
    let d = field(ScalarKind::UnsignedInt(IntWidth::W8), "u8", false);
    let errs = errors_of(&d, Some("300"));
    assert_eq!(errs.len(), 1);
    assert_eq!(errs[0].kind, ErrorKind::OutOfRange);
    assert!(errs[0].message.contains("0 to 255"));
    assert_eq!(
        errs[0].message,
        "field 'f' value (300) is outside the range of type u8 (0 to 255)"
    );
    assert!(errors_of(&d, Some("255")).is_empty());
    assert!(errors_of(&d, Some("+7")).is_empty());
    let wide = field(ScalarKind::UnsignedInt(IntWidth::W128), "u128", false);
    assert!(errors_of(&wide, Some("340282366920938463463374607431768211455")).is_empty());
    let errs = errors_of(&wide, Some("340282366920938463463374607431768211456"));
    assert_eq!(errs[0].kind, ErrorKind::OutOfRange);
    assert!(errs[0].message.contains("0 to 340282366920938463463374607431768211455"));
}

#[test]
fn signed_out_of_range_states_bounds() {
    let d = field(ScalarKind::SignedInt(IntWidth::W8), "i8", false);
    let errs = errors_of(&d, Some("200"));
    assert_eq!(errs[0].kind, ErrorKind::OutOfRange);
    assert_eq!(
        errs[0].message,
        "field 'f' value (200) is outside the range of type i8 (-128 to 127)"
    );
    assert_eq!(errors_of(&d, Some("-129"))[0].kind, ErrorKind::OutOfRange);
    assert!(errors_of(&d, Some("-128")).is_empty());
    assert!(errors_of(&d, Some("127")).is_empty());
    let wide = field(ScalarKind::SignedInt(IntWidth::W64), "i64", false);
    assert!(errors_of(&wide, Some("99999999999999999999"))[0]
        .message
        .contains("-9223372036854775808 to 9223372036854775807"));
}

#[test]
fn malformed_numbers() {
    let u = field(ScalarKind::UnsignedInt(IntWidth::W16), "u16", false);
    let i = field(ScalarKind::SignedInt(IntWidth::W32), "i32", false);
    for v in ["12a", "", "+", " 1", "1.0", "999999x"] {
        assert_eq!(errors_of(&u, Some(v))[0].kind, ErrorKind::MalformedNumber);
        assert_eq!(errors_of(&i, Some(v))[0].kind, ErrorKind::MalformedNumber);
    }
    assert_eq!(errors_of(&i, Some("-"))[0].kind, ErrorKind::MalformedNumber);
    assert_eq!(errors_of(&u, Some("12a"))[0].message, "field 'f' value (12a) is not a number of type u16");
}

#[test]
fn bool_accepts_exactly_the_literals() {
    let d = field(ScalarKind::Bool, "bool", false);
    for v in ["true", "false", "1", "0", "TRUE", "False", "tRuE"] {
        assert!(errors_of(&d, Some(v)).is_empty(), "{}", v);
    }
    for v in ["yes", "2", "", "t", "truee", " true"] {
        let errs = errors_of(&d, Some(v));
        assert_eq!(errs.len(), 1);
        assert_eq!(errs[0].kind, ErrorKind::InvalidBoolean);
    }
    assert_eq!(
        errors_of(&d, Some("yes"))[0].message,
        "field 'f' value (yes) is not a boolean of type bool; use true/false or 1/0"
    );
    assert_eq!(parse_bool("TRUE"), Some(true));
    assert_eq!(parse_bool("1"), Some(true));
    assert_eq!(parse_bool("False"), Some(false));
    assert_eq!(parse_bool("0"), Some(false));
    assert_eq!(parse_bool("yes"), None);
}

#[test]
fn text_min_length() {
    let d = text_field(Some(5), None);
    let errs = errors_of(&d, Some("foo"));
    assert_eq!(errs.len(), 1);
    assert_eq!(errs[0].kind, ErrorKind::StringLengthViolation);
    assert_eq!(
        errs[0].message,
        "field 'name' is shorter than the minimum of 5 characters (actual: 3)"
    );
    assert!(errors_of(&d, Some("fooba")).is_empty());
}

#[test]
fn text_length_counts_characters_not_bytes() {
    let d = text_field(None, Some(3));
    assert!(errors_of(&d, Some("äöü")).is_empty());
    let errs = errors_of(&d, Some("äöüß"));
    assert_eq!(errs[0].kind, ErrorKind::StringLengthViolation);
    assert_eq!(
        errs[0].message,
        "field 'name' is longer than the maximum of 3 characters (actual: 4)"
    );
}

#[test]
fn text_both_bounds_give_one_combined_error() {
    let d = text_field(Some(2), Some(4));
    assert!(errors_of(&d, Some("ab")).is_empty());
    assert!(errors_of(&d, Some("abcd")).is_empty());
    for v in ["a", "abcde"] {
        let errs = errors_of(&d, Some(v));
        assert_eq!(errs.len(), 1);
        assert_eq!(errs[0].kind, ErrorKind::StringLengthViolation);
    }
    assert_eq!(
        errors_of(&d, Some("abcdef"))[0].message,
        "field 'name' must be between 2 and 4 characters long (actual: 6)"
    );
    assert!(errors_of(&text_field(None, None), Some("")).is_empty());
}

#[test]
fn float_values() {
    let d = field(ScalarKind::Float(FloatWidth::W32), "f32", false);
    for v in ["1.5", "1e10", "1E-3", ".5", "5.", "-2", "+3.25e+2", "inf", "-NaN", "+Infinity", "1e400"] {
        assert!(errors_of(&d, Some(v)).is_empty(), "{}", v);
        assert!(accepts_float(v));
    }
    for v in ["abc", ".", "e5", "1e", "1.2.3", "", " 1", "1 ", "--1", "infinit", "0x10", "1e+"] {
        let errs = errors_of(&d, Some(v));
        assert_eq!(errs.len(), 1, "{}", v);
        assert_eq!(errs[0].kind, ErrorKind::InvalidFloat);
        assert!(!accepts_float(v));
    }
    assert_eq!(
        errors_of(&d, Some("abc"))[0].message,
        "field 'f' value (abc) is not a valid floating point number of type f32"
    );
}

#[test]
fn float_recogniser_agrees_with_std() {
    for v in ["1.5", "1e10", ".5", "5.", "inf", "-NaN", "abc", ".", "e5", "1e", "1.2.3", "", "1_0", "+-1"] {
        assert_eq!(accepts_float(v), v.parse::<f64>().is_ok(), "{}", v);
        assert_eq!(accepts_float(v), v.parse::<f32>().is_ok(), "{}", v);
    }
}

#[test]
fn integer_parsers_agree_with_std_on_accepted_values() {
    for v in ["0", "+12", "65535", "65536", "-1", "12a", "", "007"] {
        assert_eq!(parse_unsigned(v, IntWidth::W16).ok(), v.parse::<u16>().ok().map(|x| x as u128));
    }
    for v in ["0", "-2147483648", "2147483647", "2147483648", "-", "+5", "x1"] {
        assert_eq!(parse_signed(v, IntWidth::W32).ok(), v.parse::<i32>().ok().map(|x| x as i128));
    }
    assert_eq!(parse_unsigned("70000", IntWidth::W16), Err(NumberError::OutOfRange));
    assert_eq!(parse_unsigned("7x", IntWidth::W16), Err(NumberError::Malformed));
    assert_eq!(
        parse_signed("-170141183460469231731687303715884105728", IntWidth::W128),
        Ok(i128::MIN)
    );
    assert_eq!(
        parse_signed("170141183460469231731687303715884105728", IntWidth::W128),
        Err(NumberError::OutOfRange)
    );
}

#[test]
fn opaque_values_follow_the_type_parser() {
    let d = field(ScalarKind::Opaque, "char", false);
    assert!(check_field(&d, &Some("x".to_string()), true).is_empty());
    let errs = check_field(&d, &Some("xy".to_string()), false);
    assert_eq!(errs.len(), 1);
    assert_eq!(errs[0].kind, ErrorKind::InvalidOpaqueValue);
    assert_eq!(errs[0].message, "field 'f' value (xy) is not a valid char");
    // the verdict is not consulted for other kinds
    let b = field(ScalarKind::Bool, "bool", false);
    assert!(check_field(&b, &Some("true".to_string()), false).is_empty());
}

#[test]
fn value_error_matches_check_field() {
    let d = field(ScalarKind::UnsignedInt(IntWidth::W8), "u8", true);
    assert_eq!(value_error(&d, "256", true), Some(ErrorKind::OutOfRange));
    assert_eq!(value_error(&d, "25", true), None);
    assert_eq!(message(&d, ErrorKind::MalformedNumber, "q"), "field 'f' value (q) is not a number of type u8");
}

#[test]
fn decimal_rendering() {
    assert_eq!(decimal_string(0), "0");
    assert_eq!(decimal_string(9), "9");
    assert_eq!(decimal_string(10), "10");
    assert_eq!(decimal_string(65535), "65535");
    assert_eq!(decimal_string(u128::MAX), u128::MAX.to_string());
}

#[test]
fn type_classification() {
    assert!(is_option_type("Option<u16>"));
    assert!(!is_option_type("u16"));
    assert!(!is_option_type("Option<>"));
    assert_eq!(get_inner_type("Option<u16>"), "u16");
    assert_eq!(get_inner_type("Option<Option<u8>>"), "Option<u8>");
    assert_eq!(get_inner_type("String"), "String");
    assert!(is_option_type("std::option::Option<u8>"));
    assert_eq!(get_inner_type("std::option::Option<u8>"), "u8");
    assert!(is_option_type("core::option::Option<i64>"));
    assert_eq!(get_inner_type("core::option::Option<i64>"), "i64");
    assert_eq!(get_inner_type("::std::option::Option<bool>"), "bool");
    assert_eq!(get_inner_type("::core::option::Option<String>"), "String");
    assert!(!is_option_type("std::option::Option<>"));
    assert!(!is_option_type("my::Option<u8>"));
    assert_eq!(kind_of("u16"), ScalarKind::UnsignedInt(IntWidth::W16));
    assert_eq!(kind_of("i128"), ScalarKind::SignedInt(IntWidth::W128));
    assert_eq!(kind_of("f32"), ScalarKind::Float(FloatWidth::W32));
    assert_eq!(kind_of("bool"), ScalarKind::Bool);
    assert_eq!(kind_of("String"), ScalarKind::Text);
    assert_eq!(kind_of("Option<u8>"), ScalarKind::Opaque);
    assert_eq!(kind_of("usize"), ScalarKind::Opaque);
    assert_eq!(kind_of("std::string::String"), ScalarKind::Opaque);
}

#[test]
fn declare_builds_descriptor() {
    let anns = vec![("min_length".to_string(), "5".to_string())];
    let d = FieldDescriptor::declare("d", "Option<String>", &anns);
    assert_eq!(d.name, "d");
    assert_eq!(d.declared_type, "String");
    assert_eq!(d.kind, ScalarKind::Text);
    assert!(d.optional);
    assert_eq!(d.constraints, ConstraintSet { min_length: Some(5), max_length: None });
    let q = FieldDescriptor::declare("q", "std::option::Option<u8>", &vec![]);
    assert!(q.optional);
    assert_eq!(q.kind, ScalarKind::UnsignedInt(IntWidth::W8));
    assert_eq!(q.declared_type, "u8");
    let c = FieldDescriptor::declare("c", "u32", &vec![]);
    assert_eq!(c.kind, ScalarKind::UnsignedInt(IntWidth::W32));
    assert!(!c.optional);
    assert_eq!(c.constraints, ConstraintSet::none());
}

#[test]
fn malformed_constraints_are_silently_ignored() {
    let anns = vec![
        ("min_length".to_string(), "3".to_string()),
        ("min_length".to_string(), "-1".to_string()),
        ("max_length".to_string(), "ten".to_string()),
        ("pattern".to_string(), "x".to_string()),
    ];
    assert_eq!(
        extract_constraints(&anns),
        ConstraintSet { min_length: Some(3), max_length: None }
    );
    let later = vec![
        ("max_length".to_string(), "8".to_string()),
        ("max_length".to_string(), "12".to_string()),
    ];
    assert_eq!(extract_constraints(&later).max_length, Some(12));
    // a later bound that does not fit in usize clears the earlier one
    let too_large = vec![
        ("min_length".to_string(), "3".to_string()),
        ("min_length".to_string(), "99999999999999999999999".to_string()),
        ("max_length".to_string(), "99999999999999999999999".to_string()),
        ("max_length".to_string(), "9".to_string()),
    ];
    assert_eq!(
        extract_constraints(&too_large),
        ConstraintSet { min_length: None, max_length: Some(9) }
    );
    assert_eq!(parse_length("99999999999999999999999"), Err(NumberError::OutOfRange));
    assert_eq!(parse_length("42"), Ok(42));
    assert_eq!(parse_length(""), Err(NumberError::Malformed));
    assert_eq!(parse_length("-1"), Err(NumberError::Malformed));
}
