use iso_10303::reader::{ReadError, RecordingReader, StepReader};
use iso_10303::structure::{
    EntityInstance, ExchangeFile, Parameter, StepReal, TypedParameter, UnTypedParameter,
};

fn text(s: &str) -> Parameter {
    Parameter::UnTypedParameter(UnTypedParameter::String(s.to_owned()))
}

fn text_list(items: &[&str]) -> Parameter {
    let items: Vec<Parameter> = items.iter().map(|s| text(s)).collect();
    Parameter::UnTypedParameter(UnTypedParameter::List(items))
}

fn section(name: &str, parameters: Vec<Parameter>) -> TypedParameter {
    TypedParameter { name: name.to_owned(), parameters }
}

fn sample_header() -> Vec<TypedParameter> {
    vec![
        section("FILE_DESCRIPTION", vec![text_list(&["d"]), text("2;1")]),
        section(
            "FILE_NAME",
            vec![
                text("n"),
                text("t"),
                text_list(&["a"]),
                text_list(&["o"]),
                text("p"),
                text("s"),
                text("auth"),
            ],
        ),
        section("FILE_SCHEMA", vec![text_list(&["IFC4"])]),
    ]
}

fn real_value(mantissa: i64, scale: u32) -> Parameter {
    Parameter::UnTypedParameter(UnTypedParameter::Real(StepReal::new(mantissa, scale)))
}

fn direction_instance(id: i64) -> EntityInstance {
    // #id=IFCDIRECTION((1.,0.,0.));
    let coords = Parameter::UnTypedParameter(UnTypedParameter::List(vec![
        real_value(1, 0),
        real_value(0, 0),
        real_value(0, 0),
    ]));
    EntityInstance {
        id,
        value: vec![section("IFCDIRECTION", vec![coords])],
    }
}

#[test]
fn minimal_file_dispatches_exactly_one_record() {
    let file = ExchangeFile { header: sample_header(), data: vec![direction_instance(1)] };
    let mut reader = RecordingReader::new();
    let outcome = reader.read(Ok(file)).unwrap();
    assert_eq!(outcome.skipped, 0);
    assert_eq!(outcome.header.file_schema().schema_identifiers(), &vec!["IFC4".to_owned()]);
    let entities = reader.entities();
    assert_eq!(entities.len(), 1);
    assert_eq!(entities[0].0, 1);
    assert_eq!(entities[0].1.name, "IFCDIRECTION");
    assert_eq!(entities[0].1.parameters.len(), 1);
}

#[test]
fn simple_instances_dispatch_in_file_order_and_complex_ones_are_skipped() {
    let complex = EntityInstance {
        id: 2,
        value: vec![section("IFCA", Vec::new()), section("IFCB", Vec::new())],
    };
    let empty = EntityInstance { id: 3, value: Vec::new() };
    let file = ExchangeFile {
        header: sample_header(),
        data: vec![direction_instance(1), complex, empty, direction_instance(4)],
    };
    let mut reader = RecordingReader::new();
    let outcome = reader.read(Ok(file)).unwrap();
    assert_eq!(outcome.skipped, 2);
    let entities = reader.entities();
    assert_eq!(entities.len(), 2);
    assert_eq!(entities[0].0, 1);
    assert_eq!(entities[1].0, 4);
}

#[test]
fn grammar_failure_propagates_as_is() {
    let mut reader = RecordingReader::new();
    let err = reader.read(Err("unexpected token at offset 12".to_owned())).unwrap_err();
    match err {
        ReadError::Parse(msg) => assert_eq!(msg, "unexpected token at offset 12"),
        other => panic!("expected a parse failure, got {:?}", other),
    }
    assert!(reader.entities().is_empty());
}

#[test]
fn unrecognized_header_section_fails_the_read() {
    let mut sections = sample_header();
    sections.push(section("SECTION_LANGUAGE", Vec::new()));
    let file = ExchangeFile { header: sections, data: vec![direction_instance(1)] };
    let mut reader = RecordingReader::new();
    let err = reader.read(Ok(file)).unwrap_err();
    match err {
        ReadError::UnrecognizedSection(name) => assert_eq!(name, "SECTION_LANGUAGE"),
        other => panic!("expected an unrecognized-section failure, got {:?}", other),
    }
    assert!(reader.entities().is_empty());
}

#[test]
fn read_succeeds_with_empty_data_section() {
    let file = ExchangeFile { header: sample_header(), data: Vec::new() };
    let mut reader = RecordingReader::new();
    let outcome = reader.read(Ok(file)).unwrap();
    assert_eq!(outcome.skipped, 0);
    assert!(reader.entities().is_empty());
}
