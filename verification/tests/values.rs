use gatt_compiler::hooks::{hooks_of_text, HookKind};
use gatt_compiler::parser::find_value_end;
use gatt_compiler::records::{RecordValueData, Records};
use gatt_compiler::service_db::{DatabaseDefinition, DatabaseEntry};
use gatt_compiler::tokens::lex;

fn end_of_first_value(text: &str) -> usize {
    let tokens = lex(text).unwrap();
    find_value_end(&tokens, 2, tokens.len())
}

#[test]
fn a_value_extends_over_commas_within_angle_brackets() {
    // k : m :: h :: < A , B > , z : 1
    assert_eq!(end_of_first_value("k: m::h::<A, B>, z: 1"), 13);
    // nested angle brackets and a group within them
    assert_eq!(end_of_first_value("k: h::<Vec<Vec<u8>>, (A, B)>, z: 1"), 20);
    // the `>` of an arrow closes nothing
    assert_eq!(end_of_first_value("k: h::<fn(u8) -> u8, B>, z: 1"), 16);
    // a `<` that follows no `::` opens nothing
    assert_eq!(end_of_first_value("k: a < b, c > d"), 5);
    assert_eq!(end_of_first_value("k: a << 2, z: 1"), 6);
    // the colon after the key is no `::`
    assert_eq!(end_of_first_value("k: <a, b>"), 4);
    // angle brackets that never close reach to the end
    assert_eq!(end_of_first_value("k: h::<A, z: 1"), 11);
}

#[test]
fn a_handler_path_may_have_generic_arguments() {
    let tokens = lex("read_handler: m::h::<A, B>, length: 2").unwrap();
    let records = Records::parse(&tokens).unwrap();
    assert_eq!(records.len(), 2);
    match &records.get("read_handler").unwrap().data {
        RecordValueData::Path(p) => assert_eq!(p, "m :: h ::< A , B >"),
        other => panic!("unexpected {:?}", other),
    }
    match &records.get("length").unwrap().data {
        RecordValueData::LitInt(d) => assert_eq!(d, "2"),
        other => panic!("unexpected {:?}", other),
    }
    assert_eq!(
        hooks_of_text(
            "b: g, a: m::h::<A, B>",
            &vec!["a".to_string(), "b".to_string()],
            HookKind::Path
        ),
        Ok(vec![Some("m :: h ::< A , B >".to_string()), Some("g".to_string())])
    );
}

#[test]
fn an_expression_may_have_generic_arguments_and_shifts() {
    let text = "{ etype: characteristic, uuid16: f::<A, B>() >> 1, perm: P << 2, length: a < b }";
    let definition = DatabaseDefinition::from_text(text).unwrap();
    assert_eq!(
        definition.entries,
        vec![DatabaseEntry::Characteristic {
            uuid: "f ::< A , B > ( ) >> 1".to_string(),
            length: "a < b".to_string(),
            perm: "P << 2".to_string(),
            user_description: None,
        }]
    );
}
