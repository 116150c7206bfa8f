use iso_10303::reader::{ReadError, StepFileDescription, StepFileHeader, StepFileName, StepFileSchema};
use iso_10303::structure::{Parameter, TypedParameter, UnTypedParameter};

fn text(s: &str) -> Parameter {
    Parameter::UnTypedParameter(UnTypedParameter::String(s.to_owned()))
}

fn text_list(items: &[&str]) -> Parameter {
    let items: Vec<Parameter> = items.iter().map(|s| text(s)).collect();
    Parameter::UnTypedParameter(UnTypedParameter::List(items))
}

fn section(name: &str, parameters: Vec<Parameter>) -> TypedParameter {
    TypedParameter { name: name.to_owned(), parameters }
}

fn sample_header() -> Vec<TypedParameter> {
    vec![
        section("FILE_DESCRIPTION", vec![text_list(&["d"]), text("2;1")]),
        section(
            "FILE_NAME",
            vec![
                text("n"),
                text("t"),
                text_list(&["a"]),
                text_list(&["o"]),
                text("p"),
                text("s"),
                text("auth"),
            ],
        ),
        section("FILE_SCHEMA", vec![text_list(&["IFC4"])]),
    ]
}

#[test]
fn header_assembly_populates_all_three_records() {
    let header = StepFileHeader::form_parameters(sample_header()).unwrap();
    assert_eq!(header.file_schema().schema_identifiers(), &vec!["IFC4".to_owned()]);
    assert_eq!(header.file_description().description(), &vec!["d".to_owned()]);
    assert_eq!(header.file_description().implementation_level(), "2;1");
    assert_eq!(header.file_name().name(), "n");
    assert_eq!(header.file_name().time_stamp(), "t");
    assert_eq!(header.file_name().author(), &vec!["a".to_owned()]);
    assert_eq!(header.file_name().organization(), &vec!["o".to_owned()]);
    assert_eq!(header.file_name().preprocessor_version(), "p");
    assert_eq!(header.file_name().originating_system(), "s");
    assert_eq!(header.file_name().authorisation(), "auth");
}

#[test]
fn header_section_order_does_not_matter() {
    let mut sections = sample_header();
    sections.reverse();
    let header = StepFileHeader::form_parameters(sections).unwrap();
    assert_eq!(header.file_schema().schema_identifiers(), &vec!["IFC4".to_owned()]);
    assert_eq!(header.file_name().name(), "n");
}

#[test]
fn duplicate_sections_overwrite_earlier_ones() {
    let mut sections = sample_header();
    sections.push(section("FILE_SCHEMA", vec![text_list(&["IFC2X3"])]));
    let header = StepFileHeader::form_parameters(sections).unwrap();
    assert_eq!(header.file_schema().schema_identifiers(), &vec!["IFC2X3".to_owned()]);
}

#[test]
fn missing_sections_and_positions_default() {
    let header = StepFileHeader::form_parameters(Vec::new()).unwrap();
    assert!(header.file_schema().schema_identifiers().is_empty());
    assert!(header.file_description().description().is_empty());
    assert_eq!(header.file_description().implementation_level(), "");
    assert_eq!(header.file_name().name(), "");

    let d = StepFileDescription::form_parameters(vec![text_list(&["only"])]).unwrap();
    assert_eq!(d.description(), &vec!["only".to_owned()]);
    assert_eq!(d.implementation_level(), "");
}

#[test]
fn extra_positions_are_ignored() {
    let d = StepFileDescription::form_parameters(vec![
        text_list(&["d"]),
        text("2;1"),
        text("ignored"),
    ])
    .unwrap();
    assert_eq!(d.description(), &vec!["d".to_owned()]);
    assert_eq!(d.implementation_level(), "2;1");

    let s = StepFileSchema::form_parameters(vec![text_list(&["IFC4"]), text("ignored")]).unwrap();
    assert_eq!(s.schema_identifiers(), &vec!["IFC4".to_owned()]);
}

#[test]
fn unrecognized_section_name_fails_assembly() {
    let sections = vec![section("FILE_POPULATION", Vec::new())];
    let err = StepFileHeader::form_parameters(sections).unwrap_err();
    match err {
        ReadError::UnrecognizedSection(name) => assert_eq!(name, "FILE_POPULATION"),
        other => panic!("expected an unrecognized-section failure, got {:?}", other),
    }
}

#[test]
fn mismatched_header_field_fails_assembly() {
    let sections = vec![section(
        "FILE_SCHEMA",
        vec![Parameter::UnTypedParameter(UnTypedParameter::Integer(4))],
    )];
    let err = StepFileHeader::form_parameters(sections).unwrap_err();
    assert!(matches!(err, ReadError::Conversion(_)));
}

#[test]
fn null_header_fields_default_like_text() {
    let name = StepFileName::form_parameters(vec![
        Parameter::UnTypedParameter(UnTypedParameter::Null),
        text("t"),
    ])
    .unwrap();
    assert_eq!(name.name(), "");
    assert_eq!(name.time_stamp(), "t");
}
