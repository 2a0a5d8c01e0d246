use gatt_compiler::config::{
    compile, compile_tokens, find_value, offending_flags, offending_name, ConfigError,
    ConfigErrorKind, CustomServer1ServiceConfiguration, Error,
};
use gatt_compiler::flags::Category;
use gatt_compiler::tokens::Delimiter;
use gatt_compiler::hooks::{hooks_of_text, HookError, HookErrorKind, HookKind};
use gatt_compiler::parser::{read_negative_integer, ParseError, ParseErrorKind};
use gatt_compiler::records::{RecordValue, RecordValueData, Records};
use gatt_compiler::service_db::{DatabaseDefinition, DatabaseEntry, EntryError, EntryErrorKind};
use gatt_compiler::text::{number_text, plain_text, string_text, word_char};
use gatt_compiler::tokens::{expr_text, lex, path_text, read_integer, read_string, Token};

#[test]
fn texts_are_tested_before_they_are_read() {
    assert!(word_char('a') && word_char('Z') && word_char('0') && word_char('_'));
    assert!(!word_char('-') && !word_char('"') && !word_char('é') && !word_char(' '));
    assert!(number_text("0x1F") && number_text("1_000u16") && number_text("7"));
    assert!(!number_text("") && !number_text("x1") && !number_text("1.5") && !number_text("-1"));
    assert!(!number_text("1 c\"x\""));
    assert!(string_text("\"a\"") && string_text("r#\"a\"#") && string_text("raw"));
    assert!(!string_text("") && !string_text("c\"a\"") && !string_text("b\"a\"") && !string_text("1"));
    assert!(plain_text("a :: b") && plain_text("f ( \"abc\" , b\"abc\" ) / 2 * c") && plain_text(""));
    assert!(plain_text("abc\"x\"") && plain_text("crate :: c"));
    assert!(!plain_text("c\"x\"") && !plain_text("a :: < c\"x\" >") && !plain_text("( cr\"x\" )"));
    assert!(!plain_text("cr#\"x\"#") && !plain_text("(/*ERROR*/)") && !plain_text("a /* b"));
}

#[test]
fn literals_are_read_where_they_can_be_literals() {
    assert_eq!(read_integer("0x10"), Some("16".to_string()));
    assert_eq!(read_integer("1e5"), None);
    assert_eq!(read_integer("12 34"), None);
    assert_eq!(read_integer("c\"x\""), None);
    assert_eq!(read_integer("\"1\""), None);
    assert_eq!(read_string("\"a\\tb\""), Some("a\tb".to_string()));
    assert_eq!(read_string("r#\"a\"b\"#"), Some("a\"b".to_string()));
    assert_eq!(read_string("raw"), None);
    assert_eq!(read_string("c\"x\""), None);
    assert_eq!(read_string("b\"x\""), None);
    assert_eq!(read_string("\"a\" \"b\""), None);
    assert!(path_text("a :: b") && path_text("a ::< 3 >") && !path_text("a b"));
    assert!(!path_text("a ::< c\"x\" >") && !path_text("c\"x\""));
    assert!(expr_text("f ( b\"abc\" ) + 1") && expr_text("\"s\"") && !expr_text("+"));
    assert!(!expr_text("f ( c\"x\" )") && !expr_text("c\"x\"") && !expr_text("(/*ERROR*/)"));
}

#[test]
fn a_literal_of_an_unknown_kind_is_an_error() {
    let unexpected = |span| Error::Syntax(ParseError { span, kind: ParseErrorKind::UnexpectedInput });
    // an error within a group is an error of the group
    assert_eq!(compile("s: { uuid: c\"x\" }").unwrap_err(), unexpected(2));
    assert_eq!(compile("uuid: c\"x\"").unwrap_err(), unexpected(2));
    assert_eq!(compile("s: c\"x\"").unwrap_err(), unexpected(2));
    assert_eq!(compile("s: a::<c\"x\">").unwrap_err(), unexpected(2));
    assert_eq!(compile("s: b\"x\"").unwrap_err(), unexpected(2));
    assert_eq!(compile("s: 'x'").unwrap_err(), unexpected(2));
    assert_eq!(
        CustomServer1ServiceConfiguration::parse("s: { uuid: cr#\"x\"# }").unwrap_err(),
        unexpected(2)
    );
    assert_eq!(
        hooks_of_text("h: a::<c\"x\">", &vec!["h".to_string()], HookKind::Path),
        Err(HookError { span: 2, kind: HookErrorKind::UnexpectedValue })
    );
    assert_eq!(
        hooks_of_text("h: c\"x\"", &vec!["h".to_string()], HookKind::Literal),
        Ok(vec![Some("c\"x\"".to_string())])
    );
    assert_eq!(
        DatabaseDefinition::from_text("{ etype: service, uuid16: c\"x\" }").unwrap_err(),
        EntryError { span: 7, kind: EntryErrorKind::ExpectedExpression }
    );
    assert_eq!(
        DatabaseDefinition::from_text("{ etype: c\"x\" }").unwrap_err(),
        EntryError { span: 3, kind: EntryErrorKind::ExpectedPath }
    );
    assert_eq!(
        DatabaseDefinition::from_text("{ etype: characteristic, user_description: c\"x\" }")
            .unwrap_err(),
        EntryError { span: 7, kind: EntryErrorKind::ExpectedStringLiteral }
    );
    assert_eq!(
        DatabaseDefinition::from_text("{ etype: service, uuid128: b\"abc\" }").unwrap().entries,
        vec![DatabaseEntry::Service { uuid: "b\"abc\"".to_string() }]
    );
}

#[test]
fn a_minus_sign_before_an_integer_is_an_integer() {
    let tokens: Vec<Token> = lex("a: -1, b: - 0x10, c: -007u8").unwrap();
    assert_eq!(read_negative_integer(&tokens, 2, 4), Some("-1".to_string()));
    assert_eq!(read_negative_integer(&tokens, 2, 3), None);
    assert_eq!(read_negative_integer(&tokens, 3, 5), None);
    let records = Records::parse(&tokens).unwrap();
    let digits = |key: &str| match &records.get(key).unwrap().data {
        RecordValueData::LitInt(d) => d.clone(),
        other => panic!("unexpected {:?}", other),
    };
    assert_eq!(digits("a"), "-1");
    assert_eq!(digits("b"), "-16");
    assert_eq!(digits("c"), "-7");
    assert_eq!(records.get("a").unwrap().span, 2);
    for text in ["a: -1.5", "a: - -1", "a: -x", "a: -\"s\"", "a: -", "a: +1", "a: -1 2"] {
        let tokens = lex(text).unwrap();
        assert_eq!(
            RecordValue::parse(&tokens, 2, tokens.len()).unwrap_err(),
            ParseError { span: 2, kind: ParseErrorKind::UnexpectedInput },
            "{}",
            text
        );
    }
}

#[test]
fn a_negative_uuid_or_length_does_not_fit() {
    let text = "s: { uuid: -1, characteristics: {} }";
    match compile(text) {
        Err(Error::Config(e)) => {
            assert_eq!(e.kind, ConfigErrorKind::InvalidInteger);
            assert_eq!(e.span, 5);
        }
        other => panic!("unexpected {:?}", other),
    }
    let text = "s: { uuid: 1, characteristics: { c: { uuid: 2, permissions: (READ_ENABLED), \
                length: -4, read_handler: r } } }";
    match compile_tokens(&lex(text).unwrap()) {
        Err(Error::Config(e)) => assert_eq!(e.kind, ConfigErrorKind::InvalidInteger),
        other => panic!("unexpected {:?}", other),
    }
}

#[test]
fn an_error_names_what_it_is_about() {
    let text = "a: { uuid: 1, characteristics: { c: { uuid: 2, colour: 3, \
                permissions: (READ_ENABLED | BOGUS | READ_AUTH), length: 1 } } }";
    let tokens = lex(text).unwrap();
    let records = Records::parse(&tokens).unwrap();
    let e = CustomServer1ServiceConfiguration::from_records(&records).unwrap_err();
    assert_eq!(e.kind, ConfigErrorKind::UnknownField(1));
    assert_eq!(offending_name(&records, e), Some("colour".to_string()));
    assert_eq!(offending_flags(&records, e), None);
    assert_eq!(tokens[e.span], Token::Open(Delimiter::Brace));
    assert!(matches!(find_value(&records, e.span).unwrap().data, RecordValueData::Records(_)));
    assert!(find_value(&records, 0).is_none());
    assert!(find_value(&records, 1000).is_none());

    let flags = vec!["READ_ENABLED".to_string(), "BOGUS".to_string(), "READ_AUTH".to_string()];
    let records = Records::parse(&lex(&text.replace("colour: 3,", "")).unwrap()).unwrap();
    let e = CustomServer1ServiceConfiguration::from_records(&records).unwrap_err();
    assert_eq!(e.kind, ConfigErrorKind::MultiplePermissions(Category::Read));
    assert_eq!(offending_flags(&records, e), Some(flags.clone()));
    assert_eq!(offending_name(&records, e), None);

    let unknown = ConfigError { span: e.span, kind: ConfigErrorKind::UnknownFlag(1) };
    assert_eq!(offending_name(&records, unknown), Some("BOGUS".to_string()));
    assert_eq!(offending_flags(&records, unknown), Some(flags));
    let past = ConfigError { span: e.span, kind: ConfigErrorKind::UnknownFlag(3) };
    assert_eq!(offending_name(&records, past), None);
    let other = ConfigError { span: e.span, kind: ConfigErrorKind::ExpectedPath };
    assert_eq!(offending_name(&records, other), None);
    assert_eq!(offending_flags(&records, other), None);
}
