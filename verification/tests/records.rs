use gatt_compiler::database::{build, CompiledDatabase};
use gatt_compiler::dispatch::{find_handler, Message, Route, Status};
use gatt_compiler::model::{Characteristic, CharacteristicLength, Service, Uuid};
use gatt_compiler::parser::{
    find_close, find_value_end, parse_records, render, ParseError, ParseErrorKind,
};
use gatt_compiler::permissions::{PermissionVariants, Permissions};
use gatt_compiler::records::{RecordValue, RecordValueData, Records};
use gatt_compiler::flags::Flags;
use gatt_compiler::service_db::{
    DatabaseDefinition, DatabaseEntry, DatabaseEntryBuilder, EntryError, EntryErrorKind,
    EntryRecord, EntryType, Operand,
};
use gatt_compiler::tokens::{Delimiter, Token};

fn ident(s: &str) -> Token {
    Token::Ident(s.to_string())
}

fn lit(s: &str) -> Token {
    Token::Literal(s.to_string())
}

fn punct(c: char) -> Token {
    Token::Punct(c, false)
}

fn open(d: Delimiter) -> Token {
    Token::Open(d)
}

fn close(d: Delimiter) -> Token {
    Token::Close(d)
}

// a: { b: 1, c: "x" }, d: (F | G), e: p::q
fn sample() -> Vec<Token> {
    vec![
        ident("a"),
        punct(':'),
        open(Delimiter::Brace),
        ident("b"),
        punct(':'),
        lit("0x10"),
        punct(','),
        ident("c"),
        punct(':'),
        lit("\"x\\n\""),
        close(Delimiter::Brace),
        punct(','),
        ident("d"),
        punct(':'),
        open(Delimiter::Parenthesis),
        ident("F"),
        punct('|'),
        ident("G"),
        punct('|'),
        ident("F"),
        close(Delimiter::Parenthesis),
        punct(','),
        ident("e"),
        punct(':'),
        ident("p"),
        Token::Punct(':', true),
        punct(':'),
        ident("q"),
    ]
}

#[test]
fn groups_and_values_are_delimited() {
    let tokens = sample();
    assert_eq!(find_close(&tokens, 2, tokens.len()), Some(10));
    assert_eq!(find_close(&tokens, 2, 10), None);
    assert_eq!(find_close(&tokens, 14, tokens.len()), Some(20));
    assert_eq!(find_value_end(&tokens, 2, tokens.len()), 11);
    assert_eq!(find_value_end(&tokens, 5, 10), 6);
    assert_eq!(find_value_end(&tokens, 24, tokens.len()), tokens.len());
    assert_eq!(render(&tokens, 24, 28), "p :: q");
    assert_eq!(render(&tokens, 14, 21), "( F | G | F )");
    assert_eq!(render(&tokens, 3, 3), "");
}

#[test]
fn records_are_read_from_tokens() {
    let tokens = sample();
    let records = Records::parse(&tokens).unwrap();
    assert_eq!(records.len(), 3);
    assert_eq!(records.span(), 0);
    assert_eq!(records.key_at(0), "a");
    assert_eq!(records.key_at(1), "d");
    assert_eq!(records.key_at(2), "e");
    assert!(records.get("missing").is_none());
    let a = records.get("a").unwrap();
    assert_eq!(a.span, 2);
    match &a.data {
        RecordValueData::Records(inner) => {
            assert_eq!(inner.len(), 2);
            match &inner.get("b").unwrap().data {
                RecordValueData::LitInt(digits) => assert_eq!(digits, "16"),
                other => panic!("unexpected {:?}", other),
            }
            match &inner.value_at(1).data {
                RecordValueData::LitStr(value) => assert_eq!(value, "x\n"),
                other => panic!("unexpected {:?}", other),
            }
        }
        other => panic!("unexpected {:?}", other),
    }
    match &records.get("d").unwrap().data {
        RecordValueData::Flags(flags) => {
            assert_eq!(flags.len(), 2);
            assert_eq!(flags.get(0), "F");
            assert_eq!(flags.get(1), "G");
        }
        other => panic!("unexpected {:?}", other),
    }
    match &records.get("e").unwrap().data {
        RecordValueData::Path(path) => assert_eq!(path, "p :: q"),
        other => panic!("unexpected {:?}", other),
    }
}

#[test]
fn values_that_are_no_values_are_rejected() {
    let float = vec![ident("a"), punct(':'), lit("1.5")];
    assert_eq!(
        RecordValue::parse(&float, 2, 3).unwrap_err(),
        ParseError { span: 2, kind: ParseErrorKind::UnexpectedInput }
    );
    let two = vec![ident("a"), punct(':'), ident("p"), ident("q")];
    assert_eq!(
        parse_records(&two, 0, 4, 0).unwrap_err(),
        ParseError { span: 2, kind: ParseErrorKind::UnexpectedInput }
    );
    let bad_group = vec![
        ident("a"),
        punct(':'),
        open(Delimiter::Bracket),
        lit("1"),
        close(Delimiter::Bracket),
    ];
    assert_eq!(
        Records::parse(&bad_group).unwrap_err(),
        ParseError { span: 2, kind: ParseErrorKind::UnexpectedInput }
    );
    assert!(Flags::parse(&bad_group, 3, 4).is_none());
    let empty_group = vec![ident("a"), punct(':'), open(Delimiter::Brace), close(Delimiter::Brace)];
    match &Records::parse(&empty_group).unwrap().get("a").unwrap().data {
        RecordValueData::Records(inner) => assert_eq!(inner.len(), 0),
        other => panic!("unexpected {:?}", other),
    }
}

#[test]
fn a_record_map_keeps_the_place_of_a_repeated_key() {
    let mut records = Records::new(7);
    records.insert("x".to_string(), RecordValue { span: 1, data: RecordValueData::LitInt("1".to_string()) });
    records.insert("y".to_string(), RecordValue { span: 2, data: RecordValueData::LitInt("2".to_string()) });
    records.insert("x".to_string(), RecordValue { span: 3, data: RecordValueData::LitInt("3".to_string()) });
    assert_eq!(records.len(), 2);
    assert_eq!(records.span(), 7);
    assert_eq!(records.key_at(0), "x");
    assert_eq!(records.key_at(1), "y");
    assert_eq!(records.value_at(0).span, 3);
    assert_eq!(records.get("x").unwrap().span, 3);
    assert_eq!(records.get("y").unwrap().span, 2);
}

fn database() -> CompiledDatabase {
    let characteristic = |name: &str, read: Option<&str>, write: Option<&str>| Characteristic {
        name: name.to_string(),
        permissions: Permissions {
            read: if read.is_some() { PermissionVariants::Enabled } else { PermissionVariants::Disabled },
            write: if write.is_some() { PermissionVariants::Auth } else { PermissionVariants::Disabled },
            ..Permissions::default()
        },
        uuid: Uuid::Uuid16(1),
        length: CharacteristicLength::Int(1),
        user_description: None,
        write_handler: write.map(|s| s.to_string()),
        read_handler: read.map(|s| s.to_string()),
    };
    build(&vec![Service {
        name: "s".to_string(),
        characteristics: vec![
            characteristic("a", Some("read_a"), None),
            characteristic("b", None, Some("write_b")),
            characteristic("c", Some("read_c"), Some("write_c")),
        ],
        uuid: Uuid::Uuid16(9),
    }])
    .unwrap()
}

#[test]
fn messages_go_to_the_handlers_of_their_index() {
    let db = database();
    assert_eq!(db.char_idx_map.iter().map(|e| e.1).collect::<Vec<_>>(), vec![2, 4, 6]);
    assert_eq!(db.value_index_of("a"), Some(2));
    assert_eq!(db.value_index_of("c"), Some(6));
    assert_eq!(db.value_index_of("d"), None);
    assert_eq!(db.route(Message::ValueRequest, 2), Route::Handler("read_a".to_string()));
    assert_eq!(db.route(Message::ValueRequest, 6), Route::Handler("read_c".to_string()));
    assert_eq!(db.route(Message::ValueWrite, 4), Route::Handler("write_b".to_string()));
    assert_eq!(db.route(Message::ValueWrite, 6), Route::Handler("write_c".to_string()));
}

#[test]
fn unrouted_indices_fall_through_to_the_default() {
    let db = database();
    assert_eq!(db.route(Message::ValueRequest, 4), Route::Respond { status: Status::ApplicationError, length: 0 });
    assert_eq!(db.route(Message::ValueRequest, 0), Route::Respond { status: Status::ApplicationError, length: 0 });
    assert_eq!(db.route(Message::ValueRequest, 100), Route::Respond { status: Status::ApplicationError, length: 0 });
    assert_eq!(db.route(Message::ValueWrite, 2), Route::Ignore);
    assert_eq!(db.route(Message::ValueWrite, 5), Route::Ignore);
    assert_eq!(
        db.route(Message::AttributeInfoRequest, 4),
        Route::Respond { status: Status::WriteNotPermitted, length: 0 }
    );
    assert_eq!(db.route(Message::Other, 2), Route::Ignore);
    assert_eq!(find_handler(&vec![(1, "x".to_string()), (1, "y".to_string())], 1), Some("x".to_string()));
    assert_eq!(find_handler(&vec![], 1), None);
}

#[test]
fn the_entry_builder_builds_what_was_set() {
    assert_eq!(DatabaseEntryBuilder::new().build(), None);
    let service = DatabaseEntryBuilder::new()
        .set_type(&"service".to_string())
        .set_uuid16("0x1800".to_string());
    assert_eq!(service.uuid_len, Some(2));
    assert!(service.can_build());
    let service = service.build().unwrap();
    assert_eq!(service, DatabaseEntry::Service { uuid: "0x1800".to_string() });
    assert_eq!(service.entry_count(), 1);
    let builder = DatabaseEntryBuilder::new()
        .set_type(&"characteristic".to_string())
        .set_uuid128("UUID".to_string())
        .set_length("4".to_string());
    assert_eq!(builder.uuid_len, Some(16));
    assert_eq!(builder.entry_type, Some(EntryType::Characteristic));
    assert!(!builder.can_build());
    let plain = builder.clone().set_perm("PERM".to_string()).build().unwrap();
    assert_eq!(plain.entry_count(), 2);
    assert_eq!(plain.generate().len(), 2);
    let described = builder
        .set_perm("PERM".to_string())
        .set_user_description("Temp".to_string())
        .build()
        .unwrap();
    assert_eq!(described.entry_count(), 3);
    let records = described.generate();
    assert_eq!(
        records,
        vec![
            EntryRecord {
                uuid: Operand::Number(0x2803),
                uuid_size: 2,
                perm: Operand::Number(1),
                max_length: Operand::Number(0),
                length: 0,
                value: Operand::Null,
            },
            EntryRecord {
                uuid: Operand::Expr("UUID".to_string()),
                uuid_size: 2,
                perm: Operand::Expr("PERM".to_string()),
                max_length: Operand::TriggerOr("4".to_string()),
                length: 0,
                value: Operand::Null,
            },
            EntryRecord {
                uuid: Operand::Number(0x2901),
                uuid_size: 2,
                perm: Operand::Number(1),
                max_length: Operand::Number(4),
                length: 4,
                value: Operand::Bytes(b"Temp".to_vec()),
            },
        ]
    );
}

#[test]
fn an_explicit_entry_definition_is_read_in_order() {
    let text = r#"
        { etype: service, uuid16: 0x1800 },
        { etype: characteristic, uuid128: CHAR_UUID, length: size_of::<u8>(), perm: perm!(RD, ENABLE), user_description: "Temp" },
        { etype: characteristic, uuid16: 0x2A00 + 1, perm: 3, length: 2, },
    "#;
    let definition = DatabaseDefinition::from_text(text).unwrap();
    assert_eq!(definition.entries.len(), 3);
    assert_eq!(definition.entries[0], DatabaseEntry::Service { uuid: "0x1800".to_string() });
    assert_eq!(
        definition.entries[1],
        DatabaseEntry::Characteristic {
            uuid: "CHAR_UUID".to_string(),
            length: "size_of ::< u8 > ( )".to_string(),
            perm: "perm ! ( RD , ENABLE )".to_string(),
            user_description: Some("Temp".to_string()),
        }
    );
    let records = definition.generate();
    assert_eq!(records.len(), 1 + 3 + 2);
    assert_eq!(
        records[0],
        EntryRecord {
            uuid: Operand::Number(0x2800),
            uuid_size: 2,
            perm: Operand::Number(1),
            max_length: Operand::Number(2),
            length: 2,
            value: Operand::Expr("0x1800".to_string()),
        }
    );
    assert_eq!(records[3].value, Operand::Bytes(vec![b'T', b'e', b'm', b'p']));
    assert_eq!(records[5].uuid, Operand::Expr("0x2A00 + 1".to_string()));
    assert_eq!(DatabaseDefinition::from_text("").unwrap().entries.len(), 0);
}

#[test]
fn errors_of_an_explicit_entry_definition() {
    let cases = [
        ("( etype: service, uuid16: 1 )", 0, EntryErrorKind::ExpectedEntry),
        ("etype", 0, EntryErrorKind::ExpectedEntry),
        ("{ etype: service, uuid16: 1 } { }", 9, EntryErrorKind::ExpectedComma),
        ("{ 3: service }", 1, EntryErrorKind::ExpectedIdent),
        ("{ etype service }", 2, EntryErrorKind::ExpectedColon),
        ("{ etype: service, colour: 1 }", 5, EntryErrorKind::UnknownField),
        ("{ etype: 3 }", 3, EntryErrorKind::ExpectedPath),
        ("{ etype: descriptor }", 3, EntryErrorKind::UnknownEntryType),
        ("{ etype: service, etype: service }", 7, EntryErrorKind::DuplicateEntryType),
        ("{ etype: service, uuid16: + }", 7, EntryErrorKind::ExpectedExpression),
        ("{ uuid16: 1, uuid128: 2 }", 7, EntryErrorKind::DuplicateUuid),
        ("{ length: 1 }", 3, EntryErrorKind::EntryTypeNotSet),
        ("{ etype: service, length: 1 }", 7, EntryErrorKind::NotCharacteristic),
        ("{ etype: service, user_description: \"x\" }", 7, EntryErrorKind::NotCharacteristic),
        ("{ etype: characteristic, user_description: x }", 7, EntryErrorKind::ExpectedStringLiteral),
        ("{ uuid16: 1 }", 0, EntryErrorKind::MissingEntryType),
        ("{ }", 0, EntryErrorKind::MissingEntryType),
        ("{ etype: service }", 0, EntryErrorKind::MissingUuid),
        ("{ etype: characteristic, uuid16: 1, perm: 1 }", 0, EntryErrorKind::MissingLength),
        ("{ etype: characteristic, uuid16: 1, length: 1 }", 0, EntryErrorKind::MissingPerm),
        ("{ etype: service", 0, EntryErrorKind::NotTokens),
    ];
    for (text, span, kind) in cases {
        assert_eq!(
            DatabaseDefinition::from_text(text).unwrap_err(),
            EntryError { span, kind },
            "{}",
            text
        );
    }
}
