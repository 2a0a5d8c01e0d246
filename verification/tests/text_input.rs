use gatt_compiler::config::{
    compile, find_unknown_key, parse_uuid, ConfigError, ConfigErrorKind,
    CustomServer1ServiceConfiguration, Error, FieldName,
};
use gatt_compiler::database::{BuildError, MaxLength};
use gatt_compiler::model::{Access, Characteristic, CharacteristicLength, Service, Uuid};
use gatt_compiler::permissions::{PermissionVariants, Permissions};
use gatt_compiler::records::{RecordValueData, Records};
use gatt_compiler::tokens::{lex, Delimiter, Token};

fn records(text: &str) -> Records {
    Records::parse(&lex(text).unwrap()).unwrap()
}

#[test]
fn a_text_is_split_into_flat_tokens() {
    let tokens = lex("a: { b: [0x10, \"s\"], c: (X | Y), d: p::q }").unwrap();
    assert_eq!(
        tokens,
        vec![
            Token::Ident("a".to_string()),
            Token::Punct(':', false),
            Token::Open(Delimiter::Brace),
            Token::Ident("b".to_string()),
            Token::Punct(':', false),
            Token::Open(Delimiter::Bracket),
            Token::Literal("0x10".to_string()),
            Token::Punct(',', false),
            Token::Literal("\"s\"".to_string()),
            Token::Close(Delimiter::Bracket),
            Token::Punct(',', false),
            Token::Ident("c".to_string()),
            Token::Punct(':', false),
            Token::Open(Delimiter::Parenthesis),
            Token::Ident("X".to_string()),
            Token::Punct('|', false),
            Token::Ident("Y".to_string()),
            Token::Close(Delimiter::Parenthesis),
            Token::Punct(',', false),
            Token::Ident("d".to_string()),
            Token::Punct(':', false),
            Token::Ident("p".to_string()),
            Token::Punct(':', true),
            Token::Punct(':', false),
            Token::Ident("q".to_string()),
            Token::Close(Delimiter::Brace),
        ]
    );
    assert_eq!(lex("").unwrap(), vec![]);
    assert!(lex("a: }").is_none());
    assert!(lex("\"open").is_none());
}

#[test]
fn literals_are_read_by_their_meaning() {
    let r = records("a: 0x1234, b: 1_000u16, c: \"T\\u{e9}\", d: r#\"raw\"#, e: 0b101");
    let digits = |key: &str| match &r.get(key).unwrap().data {
        RecordValueData::LitInt(d) => d.clone(),
        other => panic!("unexpected {:?}", other),
    };
    let string = |key: &str| match &r.get(key).unwrap().data {
        RecordValueData::LitStr(s) => s.clone(),
        other => panic!("unexpected {:?}", other),
    };
    assert_eq!(digits("a"), "4660");
    assert_eq!(digits("b"), "1000");
    assert_eq!(digits("e"), "5");
    assert_eq!(string("c"), "Té");
    assert_eq!(string("d"), "raw");
}

#[test]
fn the_fields_of_a_characteristic_are_read_one_by_one() {
    let r = records(
        "uuid: 0x2A6E, permissions: (READ_SECURE | NOTIFICATION_ENABLED), length: 2, \
         user_description: \"Temp\", read_handler: read, write_handler: a::write",
    );
    assert_eq!(parse_uuid(&r), Ok(Uuid::Uuid16(0x2A6E)));
    assert_eq!(Characteristic::parse_uuid(&r), Ok(Uuid::Uuid16(0x2A6E)));
    assert_eq!(Service::parse_uuid(&r), Ok(Uuid::Uuid16(0x2A6E)));
    assert_eq!(
        Characteristic::parse_permissions(&r),
        Ok(Permissions {
            read: PermissionVariants::Secure,
            notification: PermissionVariants::Enabled,
            ..Permissions::default()
        })
    );
    match Characteristic::parse_length(&r).unwrap() {
        CharacteristicLength::Int(2) => {}
        other => panic!("unexpected {:?}", other),
    }
    assert_eq!(Characteristic::parse_user_description(&r), Ok(Some("Temp".to_string())));
    assert_eq!(Characteristic::parse_read_handler(&r), Ok(Some("read".to_string())));
    assert_eq!(Characteristic::parse_write_handler(&r), Ok(Some("a :: write".to_string())));
    assert_eq!(Characteristic::parse_handler(&r, "missing"), Ok(None));
    assert_eq!(find_unknown_key(&r, false), None);
    assert_eq!(find_unknown_key(&r, true), Some(1));
    let c = Characteristic::parse("temperature", &r).unwrap();
    assert_eq!(c.name, "temperature");
    assert_eq!(c.user_description.as_deref().map(str::len), Some(4));
    assert_eq!(c.missing_handler(), None);

    // an empty group is an empty record map, never a flag-set
    assert_eq!(
        Characteristic::parse_permissions(&records("permissions: ()")).unwrap_err().kind,
        ConfigErrorKind::ExpectedFlags
    );
    // a call is no path
    assert!(Records::parse(&lex("length: size_of::<u8>()").unwrap()).is_err());
    match Characteristic::parse_length(&records("length: size_of::<u8>")).unwrap() {
        CharacteristicLength::Path(p) => assert_eq!(p, "size_of ::< u8 >"),
        other => panic!("unexpected {:?}", other),
    }

    let empty = records("");
    assert_eq!(
        parse_uuid(&empty),
        Err(ConfigError { span: 0, kind: ConfigErrorKind::Missing(FieldName::Uuid) })
    );
    assert_eq!(Characteristic::parse_user_description(&empty), Ok(None));
    assert_eq!(Characteristic::parse_read_handler(&empty), Ok(None));
    assert_eq!(
        Service::parse_characteristics(&empty).unwrap_err().kind,
        ConfigErrorKind::Missing(FieldName::Characteristics)
    );
    assert_eq!(
        Service::parse("s", &records("uuid: 1, characteristics: { c: 3 }")).unwrap_err().kind,
        ConfigErrorKind::ExpectedRecord
    );
}

#[test]
fn a_characteristic_reports_the_handler_it_lacks() {
    let mut c = Characteristic {
        name: "c".to_string(),
        permissions: Permissions {
            read: PermissionVariants::Unauth,
            write: PermissionVariants::Enabled,
            ..Permissions::default()
        },
        uuid: Uuid::Uuid16(1),
        length: CharacteristicLength::Int(1),
        user_description: None,
        write_handler: None,
        read_handler: None,
    };
    assert_eq!(c.missing_handler(), Some(Access::Read));
    c.read_handler = Some("r".to_string());
    assert_eq!(c.missing_handler(), Some(Access::Write));
    c.write_handler = Some("w".to_string());
    assert_eq!(c.missing_handler(), None);
    c.permissions = Permissions::default();
    c.read_handler = None;
    c.write_handler = None;
    assert_eq!(c.missing_handler(), None);
}

#[test]
fn uuids_lie_in_the_table_low_byte_first() {
    assert_eq!(Uuid::Uuid16(0x2800).to_bytes(), vec![0x00, 0x28]);
    assert_eq!(Uuid::Uuid16(0x1234).to_bytes(), vec![0x34, 0x12]);
    let long: [u8; 16] = [0, 1, 2, 3, 4, 5, 6, 7, 8, 9, 10, 11, 12, 13, 14, 15];
    assert_eq!(Uuid::Uuid128(long).to_bytes(), long.to_vec());
}

const TWO_SERVICES: &str = r#"
    environment: {
        uuid: 0x181A,
        characteristics: {
            temperature: {
                uuid: 0x2A6E,
                permissions: [READ_ENABLED | NOTIFICATION_ENABLED],
                length: 2,
                user_description: "Temp",
                read_handler: sensors::read_temperature,
            },
            interval: {
                uuid: 0x2A21,
                permissions: (READ_ENABLED | WRITE_ENABLED | WRITE_REQUEST_ACCEPTED),
                length: config::INTERVAL_LEN,
                read_handler: read_interval,
                write_handler: write_interval,
            },
        },
    },
    battery: {
        uuid: 0x180F,
        characteristics: {
            level: { uuid: 0x2A19, permissions: (WRITE_COMMAND_ACCEPTED), length: 1 },
        },
    },
"#;

#[test]
fn a_description_compiles_to_its_database() {
    let db = compile(TWO_SERVICES).unwrap();
    assert_eq!(db.records.len(), 2 + 3 + 2 + 2);
    assert_eq!(db.service_idxs, vec![0, 6, 9]);
    assert_eq!(
        db.char_idx_map,
        vec![
            ("temperature".to_string(), 2),
            ("interval".to_string(), 5),
            ("level".to_string(), 8),
        ]
    );
    assert_eq!(
        db.read_handlers,
        vec![
            (2, "sensors :: read_temperature".to_string()),
            (5, "read_interval".to_string()),
        ]
    );
    assert_eq!(db.write_handlers, vec![(5, "write_interval".to_string())]);
    assert_eq!(db.records[2].perm, 1 | (1 << 9));
    assert_eq!(db.records[2].max_length, MaxLength::Fixed(0x8002));
    assert_eq!(db.records[5].perm, 1 | (1 << 3) | (1 << 17));
    assert_eq!(
        db.records[5].max_length,
        MaxLength::Deferred {
            trigger: true,
            path: "config :: INTERVAL_LEN".to_string()
        }
    );
    assert_eq!(db.records[8].perm, 1 << 15);
    assert_eq!(db.records[8].max_length, MaxLength::Fixed(1));
}

#[test]
fn compilation_fails_with_the_first_error() {
    assert!(matches!(compile("a: {"), Err(Error::Syntax(_))));
    assert!(matches!(
        compile("a: { uuid: 1 }"),
        Err(Error::Config(ConfigError {
            kind: ConfigErrorKind::Missing(FieldName::Characteristics),
            ..
        }))
    ));
    let unrouted = TWO_SERVICES.replace("write_handler: write_interval,", "");
    assert_eq!(
        compile(&unrouted).unwrap_err(),
        Error::Build(BuildError::MissingWriteHandler { service: 0, characteristic: 1 })
    );
    let unread = TWO_SERVICES
        .replace("read_handler: read_interval,", "")
        .replace("write_handler: write_interval,", "");
    assert_eq!(
        compile(&unread).unwrap_err(),
        Error::Build(BuildError::MissingReadHandler { service: 0, characteristic: 1 })
    );
    let config = CustomServer1ServiceConfiguration::parse(&unread).unwrap();
    assert_eq!(config.services[0].characteristics[1].read_handler, None);
}
