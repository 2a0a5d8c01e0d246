use gatt_compiler::config::{
    ConfigError, ConfigErrorKind, CustomServer1ServiceConfiguration, Error, FieldName,
};
use gatt_compiler::database::{
    build, AttributeRecord, AttributeValue, BuildError, CompiledDatabase, MaxLength,
};
use gatt_compiler::flags::Category;
use gatt_compiler::model::{Characteristic, CharacteristicLength, Service, Uuid};
use gatt_compiler::parser::{ParseError, ParseErrorKind};
use gatt_compiler::permissions::{PermissionVariants, Permissions};

fn read_enabled() -> Permissions {
    Permissions { read: PermissionVariants::Enabled, ..Permissions::default() }
}

fn temperature(read_handler: Option<&str>, user_description: Option<&str>) -> Characteristic {
    Characteristic {
        name: "temperature".to_string(),
        permissions: read_enabled(),
        uuid: Uuid::Uuid16(0x5678),
        length: CharacteristicLength::Int(4),
        user_description: user_description.map(|s| s.to_string()),
        write_handler: None,
        read_handler: read_handler.map(|s| s.to_string()),
    }
}

fn one_service(characteristics: Vec<Characteristic>) -> Vec<Service> {
    vec![Service { name: "svc".to_string(), characteristics, uuid: Uuid::Uuid16(0x1234) }]
}

fn service_declaration(uuid: u16) -> AttributeRecord {
    AttributeRecord {
        uuid: Uuid::Uuid16(0x2800),
        uuid_size: 2,
        perm: 1,
        max_length: MaxLength::Fixed(2),
        length: 2,
        value: AttributeValue::Uuid(Uuid::Uuid16(uuid)),
    }
}

fn characteristic_declaration() -> AttributeRecord {
    AttributeRecord {
        uuid: Uuid::Uuid16(0x2803),
        uuid_size: 2,
        perm: 1,
        max_length: MaxLength::Fixed(0),
        length: 0,
        value: AttributeValue::Null,
    }
}

#[test]
fn one_readable_characteristic_compiles_to_three_records() {
    let db = build(&one_service(vec![temperature(Some("read_temp"), None)])).unwrap();
    let expected = CompiledDatabase {
        records: vec![
            service_declaration(0x1234),
            characteristic_declaration(),
            AttributeRecord {
                uuid: Uuid::Uuid16(0x5678),
                uuid_size: 2,
                perm: 1,
                max_length: MaxLength::Fixed((1 << 15) | 4),
                length: 0,
                value: AttributeValue::Null,
            },
        ],
        service_idxs: vec![0, 3],
        char_idx_map: vec![("temperature".to_string(), 2)],
        read_handlers: vec![(2, "read_temp".to_string())],
        write_handlers: vec![],
    };
    assert_eq!(db, expected);
    assert_eq!(db.records[2].max_length, MaxLength::Fixed(32772));
}

#[test]
fn readable_without_read_handler_is_rejected() {
    let r = build(&one_service(vec![temperature(None, None)]));
    assert_eq!(r, Err(BuildError::MissingReadHandler { service: 0, characteristic: 0 }));
}

#[test]
fn user_description_adds_one_record_after_the_value() {
    let plain = build(&one_service(vec![temperature(Some("read_temp"), None)])).unwrap();
    let db = build(&one_service(vec![temperature(Some("read_temp"), Some("Temp"))])).unwrap();
    assert_eq!(db.records.len(), plain.records.len() + 1);
    assert_eq!(db.records[..3], plain.records[..]);
    assert_eq!(
        db.records[3],
        AttributeRecord {
            uuid: Uuid::Uuid16(0x2901),
            uuid_size: 2,
            perm: 1,
            max_length: MaxLength::Fixed(4),
            length: 4,
            value: AttributeValue::Bytes(vec![b'T', b'e', b'm', b'p']),
        }
    );
    assert_eq!(db.service_idxs, vec![0, 4]);
}

#[test]
fn writable_without_write_handler_is_rejected() {
    let mut c = temperature(None, None);
    c.permissions = Permissions { write: PermissionVariants::Enabled, ..Permissions::default() };
    let r = build(&one_service(vec![c.clone()]));
    assert_eq!(r, Err(BuildError::MissingWriteHandler { service: 0, characteristic: 0 }));
    c.write_handler = Some("write_temp".to_string());
    let db = build(&one_service(vec![c])).unwrap();
    assert_eq!(db.write_handlers, vec![(2, "write_temp".to_string())]);
    assert_eq!(db.read_handlers, vec![]);
    assert_eq!(db.char_idx_map, vec![("temperature".to_string(), 2)]);
    assert_eq!(db.records[2].perm, 1 << 3);
    assert_eq!(db.records[2].max_length, MaxLength::Fixed(0x8004));
}

#[test]
fn read_handler_is_checked_before_write_handler() {
    let mut c = temperature(None, None);
    c.permissions.write = PermissionVariants::Auth;
    let r = build(&one_service(vec![c]));
    assert_eq!(r, Err(BuildError::MissingReadHandler { service: 0, characteristic: 0 }));
}

#[test]
fn first_incomplete_characteristic_is_reported() {
    let good = temperature(Some("read_temp"), None);
    let bad = temperature(None, None);
    let services = vec![
        Service { name: "a".to_string(), characteristics: vec![good.clone()], uuid: Uuid::Uuid16(1) },
        Service {
            name: "b".to_string(),
            characteristics: vec![good, bad.clone(), bad],
            uuid: Uuid::Uuid16(2),
        },
    ];
    assert_eq!(
        build(&services),
        Err(BuildError::MissingReadHandler { service: 1, characteristic: 1 })
    );
}

#[test]
fn record_count_and_start_indices_of_two_services() {
    let mut silent = temperature(None, None);
    silent.permissions = Permissions::default();
    silent.name = "silent".to_string();
    let services = vec![
        Service {
            name: "a".to_string(),
            characteristics: vec![
                temperature(Some("r0"), Some("Temp")),
                silent.clone(),
            ],
            uuid: Uuid::Uuid16(0x1111),
        },
        Service { name: "empty".to_string(), characteristics: vec![], uuid: Uuid::Uuid16(0x2222) },
        Service {
            name: "c".to_string(),
            characteristics: vec![temperature(Some("r1"), None)],
            uuid: Uuid::Uuid128([7; 16]),
        },
    ];
    let db = build(&services).unwrap();
    // 3 services, characteristics with 3 + 2 + 2 records
    assert_eq!(db.records.len(), 3 + 3 + 2 + 2);
    assert_eq!(db.service_idxs, vec![0, 6, 7, 10]);
    assert_eq!(
        db.char_idx_map,
        vec![
            ("temperature".to_string(), 2),
            ("silent".to_string(), 5),
            ("temperature".to_string(), 9),
        ]
    );
    assert_eq!(db.read_handlers, vec![(2, "r0".to_string()), (9, "r1".to_string())]);
    // of two characteristics with one name, the later one is found
    assert_eq!(db.value_index_of("temperature"), Some(9));
    assert_eq!(db.value_index_of("silent"), Some(5));
    assert!(db.write_handlers.is_empty());
    assert_eq!(db.records[0], service_declaration(0x1111));
    assert_eq!(db.records[6], service_declaration(0x2222));
    assert_eq!(db.records[7].value, AttributeValue::Uuid(Uuid::Uuid128([7; 16])));
    // no handler is routed: no trigger bit
    assert_eq!(db.records[5].max_length, MaxLength::Fixed(4));
    assert_eq!(db.records[5].perm, 0);
}

#[test]
fn deferred_length_keeps_its_path() {
    let mut c = temperature(Some("read_temp"), None);
    c.length = CharacteristicLength::Path("core :: mem :: SIZE".to_string());
    let db = build(&one_service(vec![c])).unwrap();
    assert_eq!(
        db.records[2].max_length,
        MaxLength::Deferred { trigger: true, path: "core :: mem :: SIZE".to_string() }
    );
}

#[test]
fn no_services_compile_to_an_empty_table() {
    let db = build(&vec![]).unwrap();
    assert!(db.records.is_empty());
    assert_eq!(db.service_idxs, vec![0]);
}

const TEMPERATURE: &str = r#"
    thermometer: {
        uuid: 0x1234,
        characteristics: {
            temperature: {
                uuid: 0x5678,
                permissions: (READ_ENABLED),
                length: 4,
                read_handler: read_temp,
            },
        },
    }
"#;

#[test]
fn description_text_compiles_like_the_model() {
    let config = CustomServer1ServiceConfiguration::parse(TEMPERATURE).unwrap();
    assert_eq!(config.services.len(), 1);
    assert_eq!(config.services[0].name, "thermometer");
    assert_eq!(config.services[0].uuid, Uuid::Uuid16(0x1234));
    let c = &config.services[0].characteristics[0];
    assert_eq!(c.name, "temperature");
    assert_eq!(c.uuid, Uuid::Uuid16(0x5678));
    assert_eq!(c.permissions, read_enabled());
    assert_eq!(c.read_handler, Some("read_temp".to_string()));
    assert_eq!(c.write_handler, None);
    assert_eq!(c.user_description, None);
    let db = config.generate().unwrap();
    assert_eq!(db.records.len(), 3);
    assert_eq!(db.service_idxs, vec![0, 3]);
    assert_eq!(db.char_idx_map, vec![("temperature".to_string(), 2)]);
    assert_eq!(db.read_handlers, vec![(2, "read_temp".to_string())]);
    assert_eq!(db.records[2].max_length, MaxLength::Fixed((1 << 15) | 4));
}

#[test]
fn description_with_user_description_and_paths() {
    let text = r#"
        svc: {
            uuid: 10,
            characteristics: {
                a: {
                    uuid: 11,
                    permissions: (WRITE_ENABLED | READ_AUTH | WRITE_REQUEST_ACCEPTED),
                    length: crate::LEN,
                    user_description: "Te\"mp",
                    read_handler: handlers::read_a,
                    write_handler: handlers::write_a
                }
            }
        }
    "#;
    let config = CustomServer1ServiceConfiguration::parse(text).unwrap();
    let c = &config.services[0].characteristics[0];
    assert_eq!(c.user_description, Some("Te\"mp".to_string()));
    assert_eq!(c.read_handler, Some("handlers :: read_a".to_string()));
    assert_eq!(c.write_handler, Some("handlers :: write_a".to_string()));
    match &c.length {
        CharacteristicLength::Path(p) => assert_eq!(p, "crate :: LEN"),
        other => panic!("unexpected length {:?}", other),
    }
    assert_eq!(c.permissions.read, PermissionVariants::Auth);
    assert_eq!(c.permissions.write, PermissionVariants::Enabled);
    assert!(c.permissions.write_request_accepted);
    assert!(!c.permissions.write_command_accepted);
}

#[test]
fn two_read_flags_fail_with_the_read_category() {
    let text = TEMPERATURE.replace("(READ_ENABLED)", "(READ_ENABLED | READ_AUTH)");
    match CustomServer1ServiceConfiguration::parse(&text) {
        Err(Error::Config(ConfigError {
            kind: ConfigErrorKind::MultiplePermissions(Category::Read),
            ..
        })) => {}
        other => panic!("unexpected result {:?}", other),
    }
}

#[test]
fn unknown_flag_is_rejected() {
    let text = TEMPERATURE.replace("(READ_ENABLED)", "(READ_ENABLED | BROADCAST)");
    match CustomServer1ServiceConfiguration::parse(&text) {
        Err(Error::Config(ConfigError { kind: ConfigErrorKind::UnknownFlag(1), .. })) => {}
        other => panic!("unexpected result {:?}", other),
    }
}

#[test]
fn missing_fields_are_named() {
    for (line, field) in [
        ("uuid: 0x5678,", FieldName::Uuid),
        ("permissions: (READ_ENABLED),", FieldName::Permissions),
        ("length: 4,", FieldName::Length),
    ] {
        let text = TEMPERATURE.replace(line, "");
        match CustomServer1ServiceConfiguration::parse(&text) {
            Err(Error::Config(ConfigError { kind: ConfigErrorKind::Missing(f), .. })) => {
                assert_eq!(f, field)
            }
            other => panic!("unexpected result {:?}", other),
        }
    }
    match CustomServer1ServiceConfiguration::parse("svc: { uuid: 1 }") {
        Err(Error::Config(ConfigError {
            kind: ConfigErrorKind::Missing(FieldName::Characteristics),
            ..
        })) => {}
        other => panic!("unexpected result {:?}", other),
    }
}

#[test]
fn wrong_kinds_of_value_are_rejected() {
    let cases = [
        ("uuid: 0x5678,", "uuid: \"x\",", ConfigErrorKind::ExpectedIntegerLiteral),
        ("uuid: 0x5678,", "uuid: 0x10000,", ConfigErrorKind::InvalidInteger),
        ("length: 4,", "length: \"4\",", ConfigErrorKind::ExpectedIntegerLiteral),
        ("permissions: (READ_ENABLED),", "permissions: 3,", ConfigErrorKind::ExpectedFlags),
        ("read_handler: read_temp,", "read_handler: 3,", ConfigErrorKind::ExpectedPath),
        (
            "read_handler: read_temp,",
            "user_description: temp,",
            ConfigErrorKind::ExpectedStringLiteral,
        ),
        ("read_handler: read_temp,", "colour: 3,", ConfigErrorKind::UnknownField(3)),
    ];
    for (from, to, kind) in cases {
        let text = TEMPERATURE.replace(from, to);
        match CustomServer1ServiceConfiguration::parse(&text) {
            Err(Error::Config(e)) => assert_eq!(e.kind, kind),
            other => panic!("unexpected result {:?}", other),
        }
    }
    match CustomServer1ServiceConfiguration::parse("svc: 3") {
        Err(Error::Config(ConfigError { kind: ConfigErrorKind::ExpectedRecord, span: 2 })) => {}
        other => panic!("unexpected result {:?}", other),
    }
    match CustomServer1ServiceConfiguration::parse("svc: { uuid: 1, characteristics: 3 }") {
        Err(Error::Config(ConfigError {
            kind: ConfigErrorKind::ExpectedCharacteristicsRecords,
            ..
        })) => {}
        other => panic!("unexpected result {:?}", other),
    }
}

#[test]
fn syntax_errors_name_the_token() {
    let cases = [
        ("svc { }", ParseError { span: 1, kind: ParseErrorKind::ExpectedColon }),
        ("svc", ParseError { span: 1, kind: ParseErrorKind::ExpectedColon }),
        ("3: { }", ParseError { span: 0, kind: ParseErrorKind::ExpectedIdent }),
        ("svc: 1.5", ParseError { span: 2, kind: ParseErrorKind::UnexpectedInput }),
        ("svc: ", ParseError { span: 2, kind: ParseErrorKind::UnexpectedInput }),
        ("svc: a b", ParseError { span: 2, kind: ParseErrorKind::UnexpectedInput }),
        ("svc: (", ParseError { span: 0, kind: ParseErrorKind::NotTokens }),
    ];
    for (text, error) in cases {
        match CustomServer1ServiceConfiguration::parse(text) {
            Err(Error::Syntax(e)) => assert_eq!(e, error, "{}", text),
            other => panic!("unexpected result {:?}", other),
        }
    }
}

#[test]
fn a_repeated_key_keeps_its_place_and_takes_the_last_value() {
    let text = r#"
        a: { uuid: 1, characteristics: {} },
        b: { uuid: 2, characteristics: {} },
        a: { uuid: 3, characteristics: {} },
    "#;
    let config = CustomServer1ServiceConfiguration::parse(text).unwrap();
    assert_eq!(config.services.len(), 2);
    assert_eq!(config.services[0].name, "a");
    assert_eq!(config.services[0].uuid, Uuid::Uuid16(3));
    assert_eq!(config.services[1].name, "b");
}
