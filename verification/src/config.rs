//! From a tree of records to services and characteristics: which fields
//! a record must and may have, and of which kind each value must be.

use crate::database::{build, BuildError, CompiledDatabase};
use crate::flags::{permissions_of, permissions_of_flags, Category, PermissionError};
use crate::layout::{compiled, complete, complete_before};
use crate::model::{
    characteristics_view, services_view, text_view, Characteristic, CharacteristicLength,
    CharacteristicLengthView, CharacteristicView, Service, ServiceView, Uuid,
};
use crate::parser::{error_at, records_from, ParseError, ParseErrorKind};
use crate::permissions::Permissions;
use crate::records::{
    lookup, DataModel, RecordValue, RecordValueData, Records, RecordsModel, ValueModel,
};
use crate::text::{parse_u16, str_eq, u16_of};
use crate::tokens::{lex, tokens_view, Token, TokenView};
use vstd::prelude::*;

verus! {

/// The fields of services and characteristics.
#[derive(Debug, Clone, Copy, PartialEq, Eq, Structural)]
pub enum FieldName {
    Uuid,
    Permissions,
    Length,
    UserDescription,
    ReadHandler,
    WriteHandler,
    Characteristics,
}

/// What is wrong with a record.
#[derive(Debug, Clone, Copy, PartialEq, Eq, Structural)]
pub enum ConfigErrorKind {
    /// The field at this position of the record has a key that the
    /// record may not have.
    UnknownField(usize),
    /// A field that the record must have is missing.
    Missing(FieldName),
    ExpectedIntegerLiteral,
    /// An integer literal that does not fit in 16 bits.
    InvalidInteger,
    ExpectedFlags,
    /// More than one permission flag of a category.
    MultiplePermissions(Category),
    /// The name at this position of the flag-set is no flag.
    UnknownFlag(usize),
    ExpectedStringLiteral,
    ExpectedPath,
    ExpectedRecord,
    ExpectedCharacteristicsRecords,
}

/// An error in a record, with the position of the record or value that
/// it is about.
#[derive(Debug, Clone, Copy, PartialEq, Eq, Structural)]
pub struct ConfigError {
    pub span: usize,
    pub kind: ConfigErrorKind,
}

/// The error that names the record or value at a position.
pub open spec fn config_error(span: int, kind: ConfigErrorKind) -> ConfigError {
    ConfigError { span: span as usize, kind }
}

/// The keys that a characteristic may have.
pub open spec fn is_characteristic_key(key: Seq<char>) -> bool {
    key == "uuid"@ || key == "permissions"@ || key == "length"@ || key == "user_description"@
        || key == "read_handler"@ || key == "write_handler"@
}

/// The keys that a service may have.
pub open spec fn is_service_key(key: Seq<char>) -> bool {
    key == "uuid"@ || key == "characteristics"@
}

/// The position of the first field, from `from` on, whose key the record
/// may not have.
pub open spec fn unknown_key(
    fields: Seq<(Seq<char>, ValueModel)>,
    from: int,
    service: bool,
) -> Option<int>
    decreases fields.len() - from,
{
    if from < 0 || from >= fields.len() {
        None
    } else if (service && !is_service_key(fields[from].0)) || (!service && !is_characteristic_key(
        fields[from].0,
    )) {
        Some(from)
    } else {
        unknown_key(fields, from + 1, service)
    }
}

/// The 16-bit UUID of a record.
pub open spec fn uuid_of(r: RecordsModel) -> Result<Uuid, ConfigError> {
    match lookup(r.fields, "uuid"@) {
        Some(v) => match v.data {
            DataModel::LitInt(digits) => match u16_of(digits) {
                Some(n) => Ok(Uuid::Uuid16(n)),
                None => Err(config_error(v.span, ConfigErrorKind::InvalidInteger)),
            },
            _ => Err(config_error(v.span, ConfigErrorKind::ExpectedIntegerLiteral)),
        },
        None => Err(config_error(r.span, ConfigErrorKind::Missing(FieldName::Uuid))),
    }
}

/// The kind of error that a flag-set's error becomes.
pub open spec fn permission_error_kind(e: PermissionError) -> ConfigErrorKind {
    match e {
        PermissionError::MultiplePermissions(c) => ConfigErrorKind::MultiplePermissions(c),
        PermissionError::UnknownFlag(i) => ConfigErrorKind::UnknownFlag(i),
    }
}

/// The permissions of a characteristic's record.
pub open spec fn record_permissions(r: RecordsModel) -> Result<Permissions, ConfigError> {
    match lookup(r.fields, "permissions"@) {
        Some(v) => match v.data {
            DataModel::Flags(names) => match permissions_of(names) {
                Ok(p) => Ok(p),
                Err(e) => Err(config_error(v.span, permission_error_kind(e))),
            },
            _ => Err(config_error(v.span, ConfigErrorKind::ExpectedFlags)),
        },
        None => Err(config_error(r.span, ConfigErrorKind::Missing(FieldName::Permissions))),
    }
}

/// The length of a characteristic's record.
pub open spec fn record_length(r: RecordsModel) -> Result<CharacteristicLengthView, ConfigError> {
    match lookup(r.fields, "length"@) {
        Some(v) => match v.data {
            DataModel::LitInt(digits) => match u16_of(digits) {
                Some(n) => Ok(CharacteristicLengthView::Int(n)),
                None => Err(config_error(v.span, ConfigErrorKind::InvalidInteger)),
            },
            DataModel::Path(p) => Ok(CharacteristicLengthView::Path(p)),
            _ => Err(config_error(v.span, ConfigErrorKind::ExpectedIntegerLiteral)),
        },
        None => Err(config_error(r.span, ConfigErrorKind::Missing(FieldName::Length))),
    }
}

/// The user description of a characteristic's record, if it has one.
pub open spec fn record_user_description(r: RecordsModel) -> Result<Option<Seq<char>>, ConfigError> {
    match lookup(r.fields, "user_description"@) {
        Some(v) => match v.data {
            DataModel::LitStr(s) => Ok(Some(s)),
            _ => Err(config_error(v.span, ConfigErrorKind::ExpectedStringLiteral)),
        },
        None => Ok(None),
    }
}

/// The handler that a characteristic's record names under `key`, if any.
pub open spec fn record_handler(r: RecordsModel, key: Seq<char>) -> Result<
    Option<Seq<char>>,
    ConfigError,
> {
    match lookup(r.fields, key) {
        Some(v) => match v.data {
            DataModel::Path(p) => Ok(Some(p)),
            _ => Err(config_error(v.span, ConfigErrorKind::ExpectedPath)),
        },
        None => Ok(None),
    }
}

/// The characteristic that a record describes. The record's keys are
/// checked first, then its fields in the order permissions, UUID, length,
/// user description, write handler, read handler.
pub open spec fn characteristic_of(name: Seq<char>, r: RecordsModel) -> Result<
    CharacteristicView,
    ConfigError,
> {
    if unknown_key(r.fields, 0, false) is Some {
        Err(
            config_error(
                r.span,
                ConfigErrorKind::UnknownField(unknown_key(r.fields, 0, false).unwrap() as usize),
            ),
        )
    } else if record_permissions(r) is Err {
        Err(record_permissions(r)->Err_0)
    } else if uuid_of(r) is Err {
        Err(uuid_of(r)->Err_0)
    } else if record_length(r) is Err {
        Err(record_length(r)->Err_0)
    } else if record_user_description(r) is Err {
        Err(record_user_description(r)->Err_0)
    } else if record_handler(r, "write_handler"@) is Err {
        Err(record_handler(r, "write_handler"@)->Err_0)
    } else if record_handler(r, "read_handler"@) is Err {
        Err(record_handler(r, "read_handler"@)->Err_0)
    } else {
        Ok(
            CharacteristicView {
                name,
                permissions: record_permissions(r)->Ok_0,
                uuid: uuid_of(r)->Ok_0,
                length: record_length(r)->Ok_0,
                user_description: record_user_description(r)->Ok_0,
                write_handler: record_handler(r, "write_handler"@)->Ok_0,
                read_handler: record_handler(r, "read_handler"@)->Ok_0,
            },
        )
    }
}

/// The characteristic that one field of a `characteristics` map describes.
pub open spec fn characteristic_of_field(field: (Seq<char>, ValueModel)) -> Result<
    CharacteristicView,
    ConfigError,
> {
    match field.1.data {
        DataModel::Records(r) => characteristic_of(field.0, r),
        _ => Err(config_error(field.1.span, ConfigErrorKind::ExpectedRecord)),
    }
}

/// The characteristics that the first `n` fields describe, or the first
/// error among them.
pub open spec fn characteristics_upto(fields: Seq<(Seq<char>, ValueModel)>, n: int) -> Result<
    Seq<CharacteristicView>,
    ConfigError,
>
    decreases n,
{
    if n <= 0 || n > fields.len() {
        Ok(Seq::empty())
    } else {
        match characteristics_upto(fields, n - 1) {
            Ok(cs) => match characteristic_of_field(fields[n - 1]) {
                Ok(c) => Ok(cs.push(c)),
                Err(e) => Err(e),
            },
            Err(e) => Err(e),
        }
    }
}

/// The characteristics of a service's record.
pub open spec fn record_characteristics(r: RecordsModel) -> Result<
    Seq<CharacteristicView>,
    ConfigError,
> {
    match lookup(r.fields, "characteristics"@) {
        Some(v) => match v.data {
            DataModel::Records(cr) => characteristics_upto(cr.fields, cr.fields.len() as int),
            _ => Err(config_error(v.span, ConfigErrorKind::ExpectedCharacteristicsRecords)),
        },
        None => Err(config_error(r.span, ConfigErrorKind::Missing(FieldName::Characteristics))),
    }
}

/// The service that a record describes. The record's keys are checked
/// first, then its UUID, then its characteristics in order.
pub open spec fn service_of(name: Seq<char>, r: RecordsModel) -> Result<ServiceView, ConfigError> {
    if unknown_key(r.fields, 0, true) is Some {
        Err(
            config_error(
                r.span,
                ConfigErrorKind::UnknownField(unknown_key(r.fields, 0, true).unwrap() as usize),
            ),
        )
    } else if uuid_of(r) is Err {
        Err(uuid_of(r)->Err_0)
    } else if record_characteristics(r) is Err {
        Err(record_characteristics(r)->Err_0)
    } else {
        Ok(
            ServiceView {
                name,
                characteristics: record_characteristics(r)->Ok_0,
                uuid: uuid_of(r)->Ok_0,
            },
        )
    }
}

/// The service that one top-level field describes.
pub open spec fn service_of_field(field: (Seq<char>, ValueModel)) -> Result<
    ServiceView,
    ConfigError,
> {
    match field.1.data {
        DataModel::Records(r) => service_of(field.0, r),
        _ => Err(config_error(field.1.span, ConfigErrorKind::ExpectedRecord)),
    }
}

/// The services that the first `n` top-level fields describe, or the
/// first error among them.
pub open spec fn services_upto(fields: Seq<(Seq<char>, ValueModel)>, n: int) -> Result<
    Seq<ServiceView>,
    ConfigError,
>
    decreases n,
{
    if n <= 0 || n > fields.len() {
        Ok(Seq::empty())
    } else {
        match services_upto(fields, n - 1) {
            Ok(ss) => match service_of_field(fields[n - 1]) {
                Ok(s) => Ok(ss.push(s)),
                Err(e) => Err(e),
            },
            Err(e) => Err(e),
        }
    }
}

/// Once a field is in error, the error stays whatever follows.
pub proof fn lemma_characteristics_error(fields: Seq<(Seq<char>, ValueModel)>, k: int, n: int)
    requires
        0 < k <= n <= fields.len(),
        characteristics_upto(fields, k) is Err,
    ensures
        characteristics_upto(fields, n) == characteristics_upto(fields, k),
    decreases n - k,
{
    if k < n {
        lemma_characteristics_error(fields, k, n - 1);
    }
}

/// Once a service is in error, the error stays whatever follows.
pub proof fn lemma_services_error(fields: Seq<(Seq<char>, ValueModel)>, k: int, n: int)
    requires
        0 < k <= n <= fields.len(),
        services_upto(fields, k) is Err,
    ensures
        services_upto(fields, n) == services_upto(fields, k),
    decreases n - k,
{
    if k < n {
        lemma_services_error(fields, k, n - 1);
    }
}

/// Whether a characteristic may have the key.
pub fn characteristic_key(key: &str) -> (r: bool)
    ensures
        r == is_characteristic_key(key@),
{
    str_eq(key, "uuid") || str_eq(key, "permissions") || str_eq(key, "length") || str_eq(
        key,
        "user_description",
    ) || str_eq(key, "read_handler") || str_eq(key, "write_handler")
}

/// Whether a service may have the key.
pub fn service_key(key: &str) -> (r: bool)
    ensures
        r == is_service_key(key@),
{
    str_eq(key, "uuid") || str_eq(key, "characteristics")
}

/// Finds the first field whose key the record may not have.
pub fn find_unknown_key(records: &Records, service: bool) -> (r: Option<usize>)
    requires
        records.wf(),
    ensures
        match r {
            Some(i) => unknown_key(records.model().fields, 0, service) == Some(i as int),
            None => unknown_key(records.model().fields, 0, service).is_none(),
        },
{
    let n = records.len();
    let mut i: usize = 0;
    while i < n
        invariant
            records.wf(),
            n == records.model().fields.len(),
            0 <= i <= n,
            unknown_key(records.model().fields, 0, service) == unknown_key(
                records.model().fields,
                i as int,
                service,
            ),
        decreases n - i,
    {
        let key = records.key_at(i);
        let known = if service {
            service_key(key.as_str())
        } else {
            characteristic_key(key.as_str())
        };
        if !known {
            return Some(i);
        }
        i += 1;
    }
    None
}

/// The UUID of a service's or characteristic's record.
pub fn parse_uuid(records: &Records) -> (r: Result<Uuid, ConfigError>)
    requires
        records.wf(),
    ensures
        r == uuid_of(records.model()),
{
    match records.get("uuid") {
        Some(value) => match &value.data {
            RecordValueData::LitInt(digits) => match parse_u16(digits.as_str()) {
                Some(n) => Ok(Uuid::Uuid16(n)),
                None => Err(ConfigError { span: value.span, kind: ConfigErrorKind::InvalidInteger }),
            },
            _ => Err(
                ConfigError { span: value.span, kind: ConfigErrorKind::ExpectedIntegerLiteral },
            ),
        },
        None => Err(
            ConfigError { span: records.span(), kind: ConfigErrorKind::Missing(FieldName::Uuid) },
        ),
    }
}

impl Characteristic {
    /// The UUID of a characteristic's record.
    pub fn parse_uuid(records: &Records) -> (r: Result<Uuid, ConfigError>)
        requires
            records.wf(),
        ensures
            r == uuid_of(records.model()),
    {
        parse_uuid(records)
    }

    /// The permissions of a characteristic's record.
    pub fn parse_permissions(records: &Records) -> (r: Result<Permissions, ConfigError>)
        requires
            records.wf(),
        ensures
            r == record_permissions(records.model()),
    {
        match records.get("permissions") {
            Some(value) => match &value.data {
                RecordValueData::Flags(flags) => match permissions_of_flags(flags) {
                    Ok(p) => Ok(p),
                    Err(PermissionError::MultiplePermissions(c)) => Err(
                        ConfigError {
                            span: value.span,
                            kind: ConfigErrorKind::MultiplePermissions(c),
                        },
                    ),
                    Err(PermissionError::UnknownFlag(i)) => Err(
                        ConfigError { span: value.span, kind: ConfigErrorKind::UnknownFlag(i) },
                    ),
                },
                _ => Err(ConfigError { span: value.span, kind: ConfigErrorKind::ExpectedFlags }),
            },
            None => Err(
                ConfigError {
                    span: records.span(),
                    kind: ConfigErrorKind::Missing(FieldName::Permissions),
                },
            ),
        }
    }

    /// The length of a characteristic's record.
    pub fn parse_length(records: &Records) -> (r: Result<CharacteristicLength, ConfigError>)
        requires
            records.wf(),
        ensures
            match r {
                Ok(length) => record_length(records.model()) == Ok::<
                    CharacteristicLengthView,
                    ConfigError,
                >(length@),
                Err(e) => record_length(records.model()) == Err::<
                    CharacteristicLengthView,
                    ConfigError,
                >(e),
            },
    {
        match records.get("length") {
            Some(value) => match &value.data {
                RecordValueData::LitInt(digits) => match parse_u16(digits.as_str()) {
                    Some(n) => Ok(CharacteristicLength::Int(n)),
                    None => Err(
                        ConfigError { span: value.span, kind: ConfigErrorKind::InvalidInteger },
                    ),
                },
                RecordValueData::Path(path) => Ok(CharacteristicLength::Path(path.clone())),
                _ => Err(
                    ConfigError { span: value.span, kind: ConfigErrorKind::ExpectedIntegerLiteral },
                ),
            },
            None => Err(
                ConfigError {
                    span: records.span(),
                    kind: ConfigErrorKind::Missing(FieldName::Length),
                },
            ),
        }
    }

    /// The user description of a characteristic's record, if it has one.
    pub fn parse_user_description(records: &Records) -> (r: Result<Option<String>, ConfigError>)
        requires
            records.wf(),
        ensures
            match r {
                Ok(text) => record_user_description(records.model()) == Ok::<
                    Option<Seq<char>>,
                    ConfigError,
                >(text_view(text)),
                Err(e) => record_user_description(records.model()) == Err::<
                    Option<Seq<char>>,
                    ConfigError,
                >(e),
            },
    {
        match records.get("user_description") {
            Some(value) => match &value.data {
                RecordValueData::LitStr(text) => Ok(Some(text.clone())),
                _ => Err(
                    ConfigError { span: value.span, kind: ConfigErrorKind::ExpectedStringLiteral },
                ),
            },
            None => Ok(None),
        }
    }

    /// The handler that a characteristic's record names under `key`.
    pub fn parse_handler(records: &Records, key: &str) -> (r: Result<Option<String>, ConfigError>)
        requires
            records.wf(),
        ensures
            match r {
                Ok(path) => record_handler(records.model(), key@) == Ok::<
                    Option<Seq<char>>,
                    ConfigError,
                >(text_view(path)),
                Err(e) => record_handler(records.model(), key@) == Err::<
                    Option<Seq<char>>,
                    ConfigError,
                >(e),
            },
    {
        match records.get(key) {
            Some(value) => match &value.data {
                RecordValueData::Path(path) => Ok(Some(path.clone())),
                _ => Err(ConfigError { span: value.span, kind: ConfigErrorKind::ExpectedPath }),
            },
            None => Ok(None),
        }
    }

    /// The read handler of a characteristic's record, if it names one.
    pub fn parse_read_handler(records: &Records) -> (r: Result<Option<String>, ConfigError>)
        requires
            records.wf(),
        ensures
            match r {
                Ok(path) => record_handler(records.model(), "read_handler"@) == Ok::<
                    Option<Seq<char>>,
                    ConfigError,
                >(text_view(path)),
                Err(e) => record_handler(records.model(), "read_handler"@) == Err::<
                    Option<Seq<char>>,
                    ConfigError,
                >(e),
            },
    {
        Self::parse_handler(records, "read_handler")
    }

    /// The write handler of a characteristic's record, if it names one.
    pub fn parse_write_handler(records: &Records) -> (r: Result<Option<String>, ConfigError>)
        requires
            records.wf(),
        ensures
            match r {
                Ok(path) => record_handler(records.model(), "write_handler"@) == Ok::<
                    Option<Seq<char>>,
                    ConfigError,
                >(text_view(path)),
                Err(e) => record_handler(records.model(), "write_handler"@) == Err::<
                    Option<Seq<char>>,
                    ConfigError,
                >(e),
            },
    {
        Self::parse_handler(records, "write_handler")
    }

    /// The characteristic that a record describes.
    pub fn parse(name: &str, records: &Records) -> (r: Result<Characteristic, ConfigError>)
        requires
            records.wf(),
        ensures
            match r {
                Ok(c) => characteristic_of(name@, records.model()) == Ok::<
                    CharacteristicView,
                    ConfigError,
                >(c@),
                Err(e) => characteristic_of(name@, records.model()) == Err::<
                    CharacteristicView,
                    ConfigError,
                >(e),
            },
    {
        match find_unknown_key(records, false) {
            Some(i) => {
                return Err(
                    ConfigError { span: records.span(), kind: ConfigErrorKind::UnknownField(i) },
                );
            },
            None => {},
        }
        let permissions = match Self::parse_permissions(records) {
            Ok(p) => p,
            Err(e) => {
                return Err(e);
            },
        };
        let uuid = match Self::parse_uuid(records) {
            Ok(u) => u,
            Err(e) => {
                return Err(e);
            },
        };
        let length = match Self::parse_length(records) {
            Ok(l) => l,
            Err(e) => {
                return Err(e);
            },
        };
        let user_description = match Self::parse_user_description(records) {
            Ok(d) => d,
            Err(e) => {
                return Err(e);
            },
        };
        let write_handler = match Self::parse_write_handler(records) {
            Ok(h) => h,
            Err(e) => {
                return Err(e);
            },
        };
        let read_handler = match Self::parse_read_handler(records) {
            Ok(h) => h,
            Err(e) => {
                return Err(e);
            },
        };
        Ok(
            Characteristic {
                name: name.to_owned(),
                permissions,
                uuid,
                length,
                user_description,
                write_handler,
                read_handler,
            },
        )
    }
}

impl Service {
    /// The UUID of a service's record.
    pub fn parse_uuid(records: &Records) -> (r: Result<Uuid, ConfigError>)
        requires
            records.wf(),
        ensures
            r == uuid_of(records.model()),
    {
        parse_uuid(records)
    }

    /// The characteristics of a service's record, in declaration order.
    pub fn parse_characteristics(records: &Records) -> (r: Result<
        Vec<Characteristic>,
        ConfigError,
    >)
        requires
            records.wf(),
        ensures
            match r {
                Ok(cs) => record_characteristics(records.model()) == Ok::<
                    Seq<CharacteristicView>,
                    ConfigError,
                >(characteristics_view(cs@)),
                Err(e) => record_characteristics(records.model()) == Err::<
                    Seq<CharacteristicView>,
                    ConfigError,
                >(e),
            },
    {
        match records.get("characteristics") {
            Some(value) => match &value.data {
                RecordValueData::Records(map) => {
                    let ghost fields = map.model().fields;
                    let n = map.len();
                    let mut out: Vec<Characteristic> = Vec::new();
                    let mut i: usize = 0;
                    assert(characteristics_view(out@) =~= Seq::empty());
                    assert(record_characteristics(records.model()) == characteristics_upto(
                        fields,
                        n as int,
                    ));
                    while i < n
                        invariant
                            map.wf(),
                            record_characteristics(records.model()) == characteristics_upto(
                                fields,
                                n as int,
                            ),
                            fields == map.model().fields,
                            n == fields.len(),
                            0 <= i <= n,
                            characteristics_upto(fields, i as int) == Ok::<
                                Seq<CharacteristicView>,
                                ConfigError,
                            >(characteristics_view(out@)),
                        decreases n - i,
                    {
                        let name = map.key_at(i);
                        let field = map.value_at(i);
                        let ghost before = characteristics_view(out@);
                        match &field.data {
                            RecordValueData::Records(inner) => {
                                match Characteristic::parse(name.as_str(), inner) {
                                    Ok(c) => {
                                        out.push(c);
                                        assert(characteristics_view(out@) =~= before.push(c@));
                                    },
                                    Err(e) => {
                                        proof {
                                            lemma_characteristics_error(fields, i + 1, n as int);
                                        }
                                        return Err(e);
                                    },
                                }
                            },
                            _ => {
                                proof {
                                    lemma_characteristics_error(fields, i + 1, n as int);
                                }
                                return Err(
                                    ConfigError {
                                        span: field.span,
                                        kind: ConfigErrorKind::ExpectedRecord,
                                    },
                                );
                            },
                        }
                        i += 1;
                    }
                    Ok(out)
                },
                _ => Err(
                    ConfigError {
                        span: value.span,
                        kind: ConfigErrorKind::ExpectedCharacteristicsRecords,
                    },
                ),
            },
            None => Err(
                ConfigError {
                    span: records.span(),
                    kind: ConfigErrorKind::Missing(FieldName::Characteristics),
                },
            ),
        }
    }

    /// The service that a record describes.
    pub fn parse(name: &str, records: &Records) -> (r: Result<Service, ConfigError>)
        requires
            records.wf(),
        ensures
            match r {
                Ok(s) => service_of(name@, records.model()) == Ok::<ServiceView, ConfigError>(s@),
                Err(e) => service_of(name@, records.model()) == Err::<ServiceView, ConfigError>(e),
            },
    {
        match find_unknown_key(records, true) {
            Some(i) => {
                return Err(
                    ConfigError { span: records.span(), kind: ConfigErrorKind::UnknownField(i) },
                );
            },
            None => {},
        }
        let uuid = match Self::parse_uuid(records) {
            Ok(u) => u,
            Err(e) => {
                return Err(e);
            },
        };
        let characteristics = match Self::parse_characteristics(records) {
            Ok(cs) => cs,
            Err(e) => {
                return Err(e);
            },
        };
        Ok(Service { name: name.to_owned(), characteristics, uuid })
    }
}

/// Why a description does not compile.
#[derive(Debug, Clone, Copy, PartialEq, Eq, Structural)]
pub enum Error {
    /// The text does not follow the grammar.
    Syntax(ParseError),
    /// A record lacks a field, has one it may not have, or has one of
    /// the wrong kind.
    Config(ConfigError),
    /// A characteristic lacks a handler that its permissions call for.
    Build(BuildError),
}

/// The services that a description declares.
#[derive(Debug, Clone)]
pub struct CustomServer1ServiceConfiguration {
    pub services: Vec<Service>,
}

/// What a whole sequence of tokens describes: a syntax error, an error
/// in a record, or a list of services.
pub open spec fn described(ts: Seq<TokenView>) -> Result<Seq<ServiceView>, Error> {
    match records_from(ts, 0, ts.len() as int, Seq::empty()) {
        Err(e) => Err(Error::Syntax(e)),
        Ok(fields) => match services_upto(fields, fields.len() as int) {
            Err(e) => Err(Error::Config(e)),
            Ok(ss) => Ok(ss),
        },
    }
}

/// Whether `r` is what a whole sequence of tokens describes.
pub open spec fn described_by(
    ts: Seq<TokenView>,
    r: Result<CustomServer1ServiceConfiguration, Error>,
) -> bool {
    match r {
        Ok(c) => described(ts) == Ok::<Seq<ServiceView>, Error>(services_view(c.services@)),
        Err(e) => described(ts) == Err::<Seq<ServiceView>, Error>(e),
    }
}

/// The error for a text that is no sequence of tokens.
pub open spec fn not_tokens() -> Error {
    Error::Syntax(error_at(0, ParseErrorKind::NotTokens))
}

impl CustomServer1ServiceConfiguration {
    /// The services that the top-level records describe, in order.
    pub fn from_records(records: &Records) -> (r: Result<
        CustomServer1ServiceConfiguration,
        ConfigError,
    >)
        requires
            records.wf(),
        ensures
            match r {
                Ok(c) => services_upto(
                    records.model().fields,
                    records.model().fields.len() as int,
                ) == Ok::<Seq<ServiceView>, ConfigError>(services_view(c.services@)),
                Err(e) => services_upto(
                    records.model().fields,
                    records.model().fields.len() as int,
                ) == Err::<Seq<ServiceView>, ConfigError>(e),
            },
    {
        let ghost fields = records.model().fields;
        let n = records.len();
        let mut services: Vec<Service> = Vec::new();
        let mut i: usize = 0;
        assert(services_view(services@) =~= Seq::empty());
        while i < n
            invariant
                records.wf(),
                fields == records.model().fields,
                n == fields.len(),
                0 <= i <= n,
                services_upto(fields, i as int) == Ok::<Seq<ServiceView>, ConfigError>(
                    services_view(services@),
                ),
            decreases n - i,
        {
            let name = records.key_at(i);
            let field = records.value_at(i);
            let ghost before = services_view(services@);
            match &field.data {
                RecordValueData::Records(inner) => {
                    match Service::parse(name.as_str(), inner) {
                        Ok(s) => {
                            services.push(s);
                            assert(services_view(services@) =~= before.push(s@));
                        },
                        Err(e) => {
                            proof {
                                lemma_services_error(fields, i + 1, n as int);
                            }
                            return Err(e);
                        },
                    }
                },
                _ => {
                    proof {
                        lemma_services_error(fields, i + 1, n as int);
                    }
                    return Err(
                        ConfigError { span: field.span, kind: ConfigErrorKind::ExpectedRecord },
                    );
                },
            }
            i += 1;
        }
        Ok(CustomServer1ServiceConfiguration { services })
    }

    /// Reads a whole sequence of tokens as a description in the
    /// nested-record grammar.
    pub fn from_tokens(tokens: &Vec<Token>) -> (r: Result<CustomServer1ServiceConfiguration, Error>)
        ensures
            described_by(tokens_view(tokens@), r),
    {
        let records = match Records::parse(tokens) {
            Ok(records) => records,
            Err(e) => {
                return Err(Error::Syntax(e));
            },
        };
        match Self::from_records(&records) {
            Ok(c) => Ok(c),
            Err(e) => Err(Error::Config(e)),
        }
    }

    /// Reads a description in the nested-record grammar: fails where the
    /// text is no sequence of tokens, and else gives what `from_tokens`
    /// makes of its tokens.
    pub fn parse(text: &str) -> (r: Result<CustomServer1ServiceConfiguration, Error>)
        ensures
            r == Err::<CustomServer1ServiceConfiguration, Error>(not_tokens()) || exists|
                ts: Seq<TokenView>,
            | #[trigger] described_by(ts, r),
    {
        match lex(text) {
            Some(tokens) => {
                let r = Self::from_tokens(&tokens);
                assert(described_by(tokens_view(tokens@), r));
                r
            },
            None => Err(Error::Syntax(ParseError { span: 0, kind: ParseErrorKind::NotTokens })),
        }
    }

    /// Compiles the services: the attribute table and the dispatch lists.
    pub fn generate(&self) -> (r: Result<CompiledDatabase, BuildError>)
        ensures
            match r {
                Ok(db) => complete(services_view(self.services@)) && db@ == compiled(
                    services_view(self.services@),
                ),
                Err(e) => {
                    let ss = services_view(self.services@);
                    &&& 0 <= e.service() < ss.len()
                    &&& 0 <= e.characteristic() < ss[e.service()].characteristics.len()
                    &&& complete_before(ss, e.service(), e.characteristic())
                    &&& ss[e.service()].characteristics[e.characteristic()].missing_handler()
                        == Some(e.handler())
                },
            },
    {
        build(&self.services)
    }
}

/// Whether `r` is what a whole sequence of tokens compiles to: the error
/// in its description, or the first characteristic that lacks a handler,
/// or the database of its services.
pub open spec fn compiles_to(ts: Seq<TokenView>, r: Result<CompiledDatabase, Error>) -> bool {
    match described(ts) {
        Err(e) => r == Err::<CompiledDatabase, Error>(e),
        Ok(ss) => match r {
            Ok(db) => complete(ss) && db@ == compiled(ss),
            Err(Error::Build(e)) => {
                &&& 0 <= e.service() < ss.len()
                &&& 0 <= e.characteristic() < ss[e.service()].characteristics.len()
                &&& complete_before(ss, e.service(), e.characteristic())
                &&& ss[e.service()].characteristics[e.characteristic()].missing_handler() == Some(
                    e.handler(),
                )
            },
            Err(_) => false,
        },
    }
}

/// Compiles a whole sequence of tokens: reads the description, checks its
/// records, and lays out the attribute table and the dispatch lists.
pub fn compile_tokens(tokens: &Vec<Token>) -> (r: Result<CompiledDatabase, Error>)
    ensures
        compiles_to(tokens_view(tokens@), r),
{
    let config = match CustomServer1ServiceConfiguration::from_tokens(tokens) {
        Ok(config) => config,
        Err(e) => {
            return Err(e);
        },
    };
    match config.generate() {
        Ok(db) => Ok(db),
        Err(e) => Err(Error::Build(e)),
    }
}

/// Compiles a description in the nested-record grammar: fails where the
/// text is no sequence of tokens, and else gives what `compile_tokens`
/// makes of its tokens.
pub fn compile(text: &str) -> (r: Result<CompiledDatabase, Error>)
    ensures
        r == Err::<CompiledDatabase, Error>(not_tokens()) || exists|ts: Seq<TokenView>|
         #[trigger] compiles_to(ts, r),
{
    match lex(text) {
        Some(tokens) => {
            let r = compile_tokens(&tokens);
            assert(compiles_to(tokens_view(tokens@), r));
            r
        },
        None => Err(Error::Syntax(ParseError { span: 0, kind: ParseErrorKind::NotTokens })),
    }
}

/// The first value, among the first `n` fields and what lies within
/// them, whose first token stands at `span`.
pub open spec fn value_with_span(
    fields: Seq<(Seq<char>, ValueModel)>,
    n: int,
    span: int,
) -> Option<ValueModel>
    decreases fields, n,
{
    if n <= 0 || n > fields.len() {
        None
    } else {
        match value_with_span(fields, n - 1, span) {
            Some(v) => Some(v),
            None => {
                let v = fields[n - 1].1;
                if v.span == span {
                    Some(v)
                } else {
                    match v.data {
                        DataModel::Records(inner) => value_with_span(
                            inner.fields,
                            inner.fields.len() as int,
                            span,
                        ),
                        _ => None,
                    }
                }
            },
        }
    }
}

/// A value that is found among the first fields is found among all.
pub proof fn lemma_value_found(fields: Seq<(Seq<char>, ValueModel)>, k: int, n: int, span: int)
    requires
        0 < k <= n <= fields.len(),
        value_with_span(fields, k, span).is_some(),
    ensures
        value_with_span(fields, n, span) == value_with_span(fields, k, span),
    decreases n - k,
{
    if k < n {
        lemma_value_found(fields, k, n - 1, span);
    }
}

/// Finds the value whose first token stands at `span`: the place that
/// an error names.
pub fn find_value(records: &Records, span: usize) -> (r: Option<&RecordValue>)
    requires
        records.wf(),
    ensures
        match r {
            Some(v) => v.wf() && value_with_span(
                records.model().fields,
                records.model().fields.len() as int,
                span as int,
            ) == Some(v.model()),
            None => value_with_span(
                records.model().fields,
                records.model().fields.len() as int,
                span as int,
            ).is_none(),
        },
    decreases records.model().fields,
{
    let ghost fields = records.model().fields;
    let n = records.len();
    let mut i: usize = 0;
    while i < n
        invariant
            records.wf(),
            fields == records.model().fields,
            n == fields.len(),
            0 <= i <= n,
            value_with_span(fields, i as int, span as int).is_none(),
        decreases n - i,
    {
        let value = records.value_at(i);
        if value.span == span {
            proof {
                lemma_value_found(fields, i + 1, n as int, span as int);
            }
            return Some(value);
        }
        match &value.data {
            RecordValueData::Records(inner) => {
                match find_value(inner, span) {
                    Some(found) => {
                        proof {
                            lemma_value_found(fields, i + 1, n as int, span as int);
                        }
                        return Some(found);
                    },
                    None => {},
                }
            },
            _ => {},
        }
        i += 1;
    }
    None
}

/// The name that an error is about: the key of an unknown field, or the
/// unknown flag.
pub open spec fn error_name(fields: Seq<(Seq<char>, ValueModel)>, e: ConfigError) -> Option<
    Seq<char>,
> {
    match value_with_span(fields, fields.len() as int, e.span as int) {
        Some(v) => match (e.kind, v.data) {
            (ConfigErrorKind::UnknownField(i), DataModel::Records(r)) => if i < r.fields.len() {
                Some(r.fields[i as int].0)
            } else {
                None
            },
            (ConfigErrorKind::UnknownFlag(i), DataModel::Flags(names)) => if i < names.len() {
                Some(names[i as int])
            } else {
                None
            },
            _ => None,
        },
        None => None,
    }
}

/// The flag-set that an error about permissions is about.
pub open spec fn error_flags(fields: Seq<(Seq<char>, ValueModel)>, e: ConfigError) -> Option<
    Seq<Seq<char>>,
> {
    match value_with_span(fields, fields.len() as int, e.span as int) {
        Some(v) => match (e.kind, v.data) {
            (ConfigErrorKind::UnknownFlag(_), DataModel::Flags(names)) => Some(names),
            (ConfigErrorKind::MultiplePermissions(_), DataModel::Flags(names)) => Some(names),
            _ => None,
        },
        None => None,
    }
}

/// The characters of each name.
pub open spec fn names_of(names: Option<Vec<String>>) -> Option<Seq<Seq<char>>> {
    match names {
        Some(names) => Some(Seq::new(names@.len(), |i: int| names@[i]@)),
        None => None,
    }
}

/// The name that an error in a description is about: the key of an
/// unknown field, or the unknown flag.
pub fn offending_name(records: &Records, e: ConfigError) -> (r: Option<String>)
    requires
        records.wf(),
    ensures
        text_view(r) == error_name(records.model().fields, e),
{
    match find_value(records, e.span) {
        Some(value) => match (e.kind, &value.data) {
            (ConfigErrorKind::UnknownField(i), RecordValueData::Records(inner)) => {
                if i < inner.len() {
                    Some(inner.key_at(i))
                } else {
                    None
                }
            },
            (ConfigErrorKind::UnknownFlag(i), RecordValueData::Flags(flags)) => {
                if i < flags.len() {
                    Some(flags.get(i).clone())
                } else {
                    None
                }
            },
            _ => None,
        },
        None => None,
    }
}

/// The whole flag-set that an error about permissions is about.
pub fn offending_flags(records: &Records, e: ConfigError) -> (r: Option<Vec<String>>)
    requires
        records.wf(),
    ensures
        names_of(r) == error_flags(records.model().fields, e),
{
    match find_value(records, e.span) {
        Some(value) => match (e.kind, &value.data) {
            (ConfigErrorKind::UnknownFlag(_), RecordValueData::Flags(flags)) => Some(flags.names()),
            (ConfigErrorKind::MultiplePermissions(_), RecordValueData::Flags(flags)) => Some(
                flags.names(),
            ),
            _ => None,
        },
        None => None,
    }
}

} // verus!
