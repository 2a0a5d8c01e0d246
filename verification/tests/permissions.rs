use gatt_compiler::flags::{
    count_in_category, crowded_category, effect_of, name_in_category, permissions_of_flags,
    Category, FlagEffect, Flags, PermissionError,
};
use gatt_compiler::permissions::{PermissionVariants, Permissions, UuidLength};
use gatt_compiler::text::{ends_with, parse_u16, starts_with, str_eq};

fn flags(names: &[&str]) -> Flags {
    let mut set = Flags::new();
    for name in names {
        set.insert(name.to_string());
    }
    set
}

#[test]
fn default_permissions_encode_to_zero() {
    assert_eq!(Permissions::default().get_bits(), 0);
    assert_eq!(PermissionVariants::default(), PermissionVariants::Disabled);
    assert_eq!(UuidLength::default(), UuidLength::L16);
    assert!(!Permissions::default().is_readable());
    assert!(!Permissions::default().is_writable());
}

#[test]
fn each_field_lies_at_its_offset() {
    let base = Permissions::default();
    assert_eq!(Permissions { read: PermissionVariants::Secure, ..base }.get_bits(), 4);
    assert_eq!(Permissions { write: PermissionVariants::Enabled, ..base }.get_bits(), 1 << 3);
    assert_eq!(Permissions { write: PermissionVariants::Auth, ..base }.get_bits(), 3 << 3);
    assert_eq!(Permissions { indication: PermissionVariants::Unauth, ..base }.get_bits(), 2 << 6);
    assert_eq!(Permissions { notification: PermissionVariants::Secure, ..base }.get_bits(), 4 << 9);
    assert_eq!(Permissions { extended_properties_present: true, ..base }.get_bits(), 1 << 12);
    assert_eq!(Permissions { broadcast_permission: true, ..base }.get_bits(), 1 << 13);
    assert_eq!(Permissions { encryption_key_length_16_bytes: true, ..base }.get_bits(), 1 << 14);
    assert_eq!(Permissions { write_command_accepted: true, ..base }.get_bits(), 1 << 15);
    assert_eq!(Permissions { write_signed_accepted: true, ..base }.get_bits(), 1 << 16);
    assert_eq!(Permissions { write_request_accepted: true, ..base }.get_bits(), 1 << 17);
    assert_eq!(Permissions { uuid_length: UuidLength::L32, ..base }.get_bits(), 1 << 18);
    assert_eq!(Permissions { uuid_length: UuidLength::L128, ..base }.get_bits(), 2 << 18);
    assert_eq!(Permissions { uuid_length: UuidLength::RFU, ..base }.get_bits(), 3 << 18);
}

#[test]
fn all_fields_together() {
    let p = Permissions {
        read: PermissionVariants::Enabled,
        write: PermissionVariants::Unauth,
        indication: PermissionVariants::Auth,
        notification: PermissionVariants::Secure,
        extended_properties_present: true,
        broadcast_permission: false,
        encryption_key_length_16_bytes: true,
        write_command_accepted: false,
        write_signed_accepted: true,
        write_request_accepted: true,
        uuid_length: UuidLength::L128,
    };
    let bits = 1 | (2 << 3) | (3 << 6) | (4 << 9) | (1 << 12) | (1 << 14) | (1 << 16) | (1 << 17)
        | (2 << 18);
    assert_eq!(p.get_bits(), bits);
    assert_eq!(Permissions::from_bits(bits), Some(p));
    assert!(p.is_readable());
    assert!(p.is_writable());
}

#[test]
fn decoding_reproduces_every_combination_of_levels() {
    let levels = [
        PermissionVariants::Disabled,
        PermissionVariants::Enabled,
        PermissionVariants::Unauth,
        PermissionVariants::Auth,
        PermissionVariants::Secure,
    ];
    for read in levels {
        for write in levels {
            for indication in levels {
                for notification in levels {
                    for flag_bits in 0u32..64 {
                        let p = Permissions {
                            read,
                            write,
                            indication,
                            notification,
                            extended_properties_present: flag_bits & 1 != 0,
                            broadcast_permission: flag_bits & 2 != 0,
                            encryption_key_length_16_bytes: flag_bits & 4 != 0,
                            write_command_accepted: flag_bits & 8 != 0,
                            write_signed_accepted: flag_bits & 16 != 0,
                            write_request_accepted: flag_bits & 32 != 0,
                            uuid_length: UuidLength::from_class(flag_bits % 4),
                        };
                        assert_eq!(Permissions::from_bits(p.get_bits()), Some(p));
                    }
                }
            }
        }
    }
}

#[test]
fn words_that_are_no_permissions_do_not_decode() {
    assert_eq!(Permissions::from_bits(5), None);
    assert_eq!(Permissions::from_bits(7 << 3), None);
    assert_eq!(Permissions::from_bits(6 << 6), None);
    assert_eq!(Permissions::from_bits(5 << 9), None);
    assert_eq!(Permissions::from_bits(1 << 20), None);
    assert_eq!(Permissions::from_bits(u32::MAX), None);
    assert_eq!(Permissions::from_bits(0), Some(Permissions::default()));
    assert_eq!(Permissions::from_bits(1), Some(Permissions::read_only()));
    assert_eq!(PermissionVariants::from_level(5), None);
    assert_eq!(PermissionVariants::from_level(3), Some(PermissionVariants::Auth));
    assert_eq!(PermissionVariants::Auth.to_level(), 3);
    assert_eq!(UuidLength::L128.to_class(), 2);
}

#[test]
fn flags_grant_their_levels() {
    let p = permissions_of_flags(&flags(&[
        "READ_ENABLED",
        "WRITE_AUTH",
        "INDICATION_UNAUTH",
        "NOTIFICATION_SECURE",
        "WRITE_COMMAND_ACCEPTED",
        "WRITE_REQUEST_ACCEPTED",
    ]))
    .unwrap();
    assert_eq!(
        p,
        Permissions {
            read: PermissionVariants::Enabled,
            write: PermissionVariants::Auth,
            indication: PermissionVariants::Unauth,
            notification: PermissionVariants::Secure,
            write_command_accepted: true,
            write_request_accepted: true,
            ..Permissions::default()
        }
    );
    assert_eq!(permissions_of_flags(&flags(&[])), Ok(Permissions::default()));
}

#[test]
fn two_flags_of_a_category_are_rejected() {
    let cases = [
        (["READ_ENABLED", "READ_AUTH"], Category::Read),
        (["WRITE_ENABLED", "WRITE_SECURE"], Category::Write),
        (["INDICATION_ENABLED", "INDICATION_UNAUTH"], Category::Indication),
        (["NOTIFICATION_AUTH", "NOTIFICATION_SECURE"], Category::Notification),
    ];
    for (names, category) in cases {
        assert_eq!(
            permissions_of_flags(&flags(&names)),
            Err(PermissionError::MultiplePermissions(category))
        );
        assert_eq!(crowded_category(&flags(&names)), Some(category));
    }
    // the categories are looked at in the order read, write, indication, notification
    assert_eq!(
        permissions_of_flags(&flags(&[
            "NOTIFICATION_AUTH",
            "NOTIFICATION_SECURE",
            "WRITE_AUTH",
            "WRITE_SECURE"
        ])),
        Err(PermissionError::MultiplePermissions(Category::Write))
    );
    // a crowded category is reported before an unknown name
    assert_eq!(
        permissions_of_flags(&flags(&["BOGUS", "READ_ENABLED", "READ_X"])),
        Err(PermissionError::MultiplePermissions(Category::Read))
    );
}

#[test]
fn accepted_flags_do_not_count_as_write_levels() {
    let set = flags(&["WRITE_ENABLED", "WRITE_COMMAND_ACCEPTED", "WRITE_REQUEST_ACCEPTED"]);
    assert_eq!(count_in_category(&set, Category::Write), 1);
    assert!(permissions_of_flags(&set).is_ok());
    assert!(name_in_category("WRITE_ENABLED", Category::Write));
    assert!(!name_in_category("WRITE_COMMAND_ACCEPTED", Category::Write));
    assert!(!name_in_category("WRITE_ENABLED", Category::Read));
    assert!(name_in_category("READ_WHATEVER", Category::Read));
}

#[test]
fn unknown_flags_are_rejected() {
    assert_eq!(
        permissions_of_flags(&flags(&["READ_ENABLED", "BROADCAST", "ALSO_BOGUS"])),
        Err(PermissionError::UnknownFlag(1))
    );
    assert_eq!(
        permissions_of_flags(&flags(&["WRITE_SIGNED_ACCEPTED"])),
        Err(PermissionError::UnknownFlag(0))
    );
    assert_eq!(effect_of("READ_ENABLE"), None);
    assert_eq!(
        effect_of("INDICATION_AUTH"),
        Some(FlagEffect::Level(Category::Indication, PermissionVariants::Auth))
    );
}

#[test]
fn a_flag_set_holds_each_name_once() {
    let mut set = Flags::new();
    assert!(set.insert("READ_ENABLED".to_string()));
    assert!(!set.insert("READ_ENABLED".to_string()));
    assert!(set.insert("WRITE_ENABLED".to_string()));
    assert_eq!(set.len(), 2);
    assert!(set.contains("WRITE_ENABLED"));
    assert!(!set.contains("WRITE"));
    assert_eq!(set.get(0), "READ_ENABLED");
    assert_eq!(set.names(), vec!["READ_ENABLED".to_string(), "WRITE_ENABLED".to_string()]);
    assert_eq!(Flags::new().names(), Vec::<String>::new());
    assert_eq!(count_in_category(&set, Category::Read), 1);
    assert!(permissions_of_flags(&set).is_ok());
}

#[test]
fn strings_are_compared_by_their_characters() {
    assert!(str_eq("abc", "abc"));
    assert!(!str_eq("abc", "abd"));
    assert!(!str_eq("abc", "ab"));
    assert!(str_eq("", ""));
    assert!(starts_with("READ_ENABLED", "READ_"));
    assert!(!starts_with("READ", "READ_"));
    assert!(!starts_with("XREAD_", "READ_"));
    assert!(starts_with("x", ""));
    assert!(ends_with("WRITE_COMMAND_ACCEPTED", "_ACCEPTED"));
    assert!(!ends_with("ACCEPTED", "_ACCEPTED"));
    assert!(!ends_with("_ACCEPTEDX", "_ACCEPTED"));
    assert!(ends_with("été", "té"));
}

#[test]
fn decimal_digits_are_read_as_u16() {
    assert_eq!(parse_u16("0"), Some(0));
    assert_eq!(parse_u16("4660"), Some(0x1234));
    assert_eq!(parse_u16("65535"), Some(65535));
    assert_eq!(parse_u16("0065535"), Some(65535));
    assert_eq!(parse_u16("65536"), None);
    assert_eq!(parse_u16("99999999999999999999999999"), None);
    assert_eq!(parse_u16(""), None);
    assert_eq!(parse_u16("-1"), None);
    assert_eq!(parse_u16("12a"), None);
    assert_eq!(parse_u16("700000x"), None);
}
