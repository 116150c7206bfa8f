use iso_10303::convert::{from_parameter_set, FromParameter};
use iso_10303::structure::{EntityRef, Parameter, StepReal, UnTypedParameter};

fn enum_value(s: &str) -> Parameter {
    Parameter::UnTypedParameter(UnTypedParameter::EnumValue(s.to_owned()))
}

fn integer(n: i64) -> Parameter {
    Parameter::UnTypedParameter(UnTypedParameter::Integer(n))
}

fn real_value(mantissa: i64, scale: u32) -> Parameter {
    Parameter::UnTypedParameter(UnTypedParameter::Real(StepReal::new(mantissa, scale)))
}

fn text(s: &str) -> Parameter {
    Parameter::UnTypedParameter(UnTypedParameter::String(s.to_owned()))
}

fn null() -> Parameter {
    Parameter::UnTypedParameter(UnTypedParameter::Null)
}

fn omitted() -> Parameter {
    Parameter::OmittedParameter
}

fn entity_ref(id: i64) -> Parameter {
    Parameter::UnTypedParameter(UnTypedParameter::EntityRef(id))
}

fn integer_list(ns: &[i64]) -> Parameter {
    let items: Vec<Parameter> = ns.iter().map(|n| integer(*n)).collect();
    Parameter::UnTypedParameter(UnTypedParameter::List(items))
}

#[test]
fn boolean_true_false_and_failure() {
    assert_eq!(bool::from_parameter(enum_value("T")), Ok(true));
    assert_eq!(bool::from_parameter(enum_value("F")), Ok(false));
    assert!(bool::from_parameter(enum_value("X")).is_err());
    assert!(bool::from_parameter(enum_value("U")).is_err());
    assert!(bool::from_parameter(null()).is_err());
    assert!(bool::from_parameter(omitted()).is_err());
    assert!(bool::from_parameter(integer(1)).is_err());
}

#[test]
fn optional_boolean_unknown_and_omission_are_absent() {
    assert_eq!(Option::<bool>::from_parameter(enum_value("U")), Ok(None));
    assert_eq!(Option::<bool>::from_parameter(omitted()), Ok(None));
    assert_eq!(Option::<bool>::from_parameter(enum_value("T")), Ok(Some(true)));
    assert_eq!(Option::<bool>::from_parameter(enum_value("F")), Ok(Some(false)));
    assert!(Option::<bool>::from_parameter(enum_value("X")).is_err());
    assert!(Option::<bool>::from_parameter(null()).is_err());
}

#[test]
fn integer_rounds_reals_and_defaults_null() {
    // 3.6 rounds to the nearest integer.
    assert_eq!(i64::from_parameter(real_value(36, 1)), Ok(4));
    assert_eq!(i64::from_parameter(null()), Ok(0));
    assert_eq!(i64::from_parameter(omitted()), Ok(0));
    assert_eq!(i64::from_parameter(integer(-7)), Ok(-7));
    assert!(i64::from_parameter(text("3")).is_err());
    assert!(i64::from_parameter(enum_value("T")).is_err());
}

#[test]
fn integer_rounding_is_to_nearest_ties_away_from_zero() {
    assert_eq!(i64::from_parameter(real_value(34, 1)), Ok(3)); // 3.4
    assert_eq!(i64::from_parameter(real_value(35, 1)), Ok(4)); // 3.5
    assert_eq!(i64::from_parameter(real_value(-35, 1)), Ok(-4)); // -3.5
    assert_eq!(i64::from_parameter(real_value(-36, 1)), Ok(-4)); // -3.6
    assert_eq!(i64::from_parameter(real_value(25, 3)), Ok(0)); // 0.025
    assert_eq!(i64::from_parameter(real_value(9999, 0)), Ok(9999));
    assert_eq!(i64::from_parameter(real_value(15, 1)), Ok(2)); // 1.5
}

#[test]
fn real_is_passthrough_only() {
    let r = StepReal::from_parameter(real_value(314, 2)).unwrap();
    assert_eq!(r.mantissa(), 314);
    assert_eq!(r.scale(), 2);
    assert!(StepReal::from_parameter(integer(3)).is_err());
    assert!(StepReal::from_parameter(null()).is_err());
    assert!(StepReal::from_parameter(omitted()).is_err());
}

#[test]
fn text_passthrough_and_empty_defaults() {
    assert_eq!(String::from_parameter(text("hello")), Ok("hello".to_owned()));
    assert_eq!(String::from_parameter(null()), Ok(String::new()));
    assert_eq!(String::from_parameter(omitted()), Ok(String::new()));
    assert!(String::from_parameter(integer(3)).is_err());
    assert!(String::from_parameter(enum_value("T")).is_err());
}

#[test]
fn entity_reference_carries_raw_id() {
    let r = EntityRef::<()>::from_parameter(entity_ref(42)).unwrap();
    assert_eq!(r.inner(), 42);
    let absent = EntityRef::<()>::from_parameter(omitted()).unwrap();
    assert_eq!(absent.inner(), 0);
    let unknown = EntityRef::<()>::from_parameter(null()).unwrap();
    assert_eq!(unknown.inner(), 0);
    assert!(EntityRef::<()>::from_parameter(text("x")).is_err());
    assert!(EntityRef::<()>::from_parameter(integer(7)).is_err());
}

#[test]
fn sequence_preserves_order_and_set_collapses_duplicates() {
    let p = integer_list(&[3, 1, 3, 2, 1]);
    let seq = Vec::<i64>::from_parameter(p).unwrap();
    assert_eq!(seq, vec![3, 1, 3, 2, 1]);
    let p = integer_list(&[3, 1, 3, 2, 1]);
    let set = from_parameter_set::<i64>(p).unwrap();
    assert_eq!(set, vec![3, 1, 2]);
}

#[test]
fn sequence_of_omitted_is_empty() {
    let seq = Vec::<i64>::from_parameter(omitted()).unwrap();
    assert!(seq.is_empty());
    let set = from_parameter_set::<i64>(omitted()).unwrap();
    assert!(set.is_empty());
}

#[test]
fn sequence_rejects_null_and_bad_elements() {
    assert!(Vec::<i64>::from_parameter(null()).is_err());
    let p = Parameter::UnTypedParameter(UnTypedParameter::List(vec![
        integer(1),
        text("oops"),
        integer(2),
    ]));
    assert!(Vec::<i64>::from_parameter(p).is_err());
}

#[test]
fn conversions_compose_through_the_same_mechanism() {
    // sequence of entity references
    let p = Parameter::UnTypedParameter(UnTypedParameter::List(vec![
        entity_ref(5),
        omitted(),
        entity_ref(9),
    ]));
    let refs = Vec::<EntityRef<()>>::from_parameter(p).unwrap();
    let ids: Vec<i64> = refs.iter().map(|r| r.inner()).collect();
    assert_eq!(ids, vec![5, 0, 9]);

    // sequence of sequences of integers
    let p = Parameter::UnTypedParameter(UnTypedParameter::List(vec![
        integer_list(&[1, 2]),
        integer_list(&[]),
        integer_list(&[3]),
    ]));
    let nested = Vec::<Vec<i64>>::from_parameter(p).unwrap();
    assert_eq!(nested, vec![vec![1, 2], vec![], vec![3]]);
}

#[test]
fn set_of_text_collapses_by_contents() {
    let p = Parameter::UnTypedParameter(UnTypedParameter::List(vec![
        text("a"),
        text("b"),
        text("a"),
    ]));
    let set = from_parameter_set::<String>(p).unwrap();
    assert_eq!(set, vec!["a".to_owned(), "b".to_owned()]);
}

#[test]
fn integer_rounding_handles_extreme_values() {
    assert_eq!(i64::from_parameter(integer(i64::MAX)), Ok(i64::MAX));
    assert_eq!(i64::from_parameter(real_value(i64::MIN, 0)), Ok(i64::MIN));
    assert_eq!(i64::from_parameter(real_value(i64::MAX, 0)), Ok(i64::MAX));
    // -922337203685477580.8 rounds away from zero
    assert_eq!(i64::from_parameter(real_value(i64::MIN, 1)), Ok(-922337203685477581));
    // 10^-18 at the largest supported scale rounds to zero
    assert_eq!(i64::from_parameter(real_value(1, 18)), Ok(0));
    assert_eq!(i64::from_parameter(real_value(5, 1)), Ok(1)); // 0.5
    assert_eq!(i64::from_parameter(real_value(-5, 1)), Ok(-1)); // -0.5
}

#[test]
fn set_of_references_collapses_by_raw_id() {
    let p = Parameter::UnTypedParameter(UnTypedParameter::List(vec![
        entity_ref(7),
        entity_ref(3),
        entity_ref(7),
        null(),
    ]));
    let set = from_parameter_set::<EntityRef<()>>(p).unwrap();
    let ids: Vec<i64> = set.iter().map(|r| r.inner()).collect();
    assert_eq!(ids, vec![7, 3, 0]);
}

#[test]
fn is_null_distinguishes_absent_values() {
    assert!(null().is_null());
    assert!(omitted().is_null());
    assert!(!integer(0).is_null());
    assert!(!text("").is_null());
}

#[test]
fn entity_ref_new_and_inner_round_trip() {
    let r: EntityRef<()> = EntityRef::new(17);
    assert_eq!(r.inner(), 17);
    assert_eq!(EntityRef::<()>::new(0), EntityRef::<()>::default());
}
