//! The explicit-entry grammar: an ordered list of braced entries, each a
//! service or a characteristic whose UUID, length and permissions are
//! expressions that the surrounding build evaluates.
//!
//! ```text
//! definition := ( entry ( "," entry )* ","? )?
//! entry      := "{" ( field ( "," field )* ","? )? "}"
//! field      := IDENT ":" value
//! ```
//!
//! A value reaches to the next comma that stands in no group and within no
//! angle brackets of a path (`a::<B, C>`).

use crate::layout::{
    read_only_bits, ATT_DECL_CHARACTERISTIC, ATT_DECL_PRIMARY_SERVICE,
    ATT_DESC_CHAR_USER_DESCRIPTION, ATT_UUID_16_LEN,
};
use crate::model::text_view;
use crate::parser::{
    find_close, find_value_end, group_close, is_punct, lemma_value_end_bounds, render, rendered,
    token_is_punct, value_end,
};
use crate::permissions::Permissions;
use crate::text::str_eq;
use crate::tokens::{
    expr_text, lex, path_text, read_string, reads_as_expr, reads_as_path, string_denoted,
    tokens_view, Delimiter, Token, TokenView,
};
use vstd::prelude::*;
use vstd::slice::slice_to_vec;
use vstd::utf8::encode_utf8;

verus! {

/// The two kinds of entry.
#[derive(Debug, Clone, Copy, PartialEq, Eq, Structural)]
pub enum EntryType {
    Service,
    Characteristic,
}

/// An entry in the making.
#[derive(Debug, Clone, PartialEq, Eq)]
pub struct DatabaseEntryBuilder {
    pub entry_type: Option<EntryType>,
    pub uuid: Option<String>,
    pub uuid_len: Option<u8>,
    pub length: Option<String>,
    pub user_description: Option<String>,
    pub perm: Option<String>,
}

/// An entry in the making, with its texts as characters.
pub struct DatabaseEntryBuilderView {
    pub entry_type: Option<EntryType>,
    pub uuid: Option<Seq<char>>,
    pub uuid_len: Option<u8>,
    pub length: Option<Seq<char>>,
    pub user_description: Option<Seq<char>>,
    pub perm: Option<Seq<char>>,
}

impl View for DatabaseEntryBuilder {
    type V = DatabaseEntryBuilderView;

    open spec fn view(&self) -> DatabaseEntryBuilderView {
        DatabaseEntryBuilderView {
            entry_type: self.entry_type,
            uuid: text_view(self.uuid),
            uuid_len: self.uuid_len,
            length: text_view(self.length),
            user_description: text_view(self.user_description),
            perm: text_view(self.perm),
        }
    }
}

/// One entry: a service, or a characteristic with its user description
/// where it has one.
#[derive(Debug, Clone, PartialEq, Eq)]
pub enum DatabaseEntry {
    Service { uuid: String },
    Characteristic { uuid: String, length: String, perm: String, user_description: Option<String> },
}

/// One entry, with its texts as characters.
pub enum DatabaseEntryView {
    Service { uuid: Seq<char> },
    Characteristic {
        uuid: Seq<char>,
        length: Seq<char>,
        perm: Seq<char>,
        user_description: Option<Seq<char>>,
    },
}

impl View for DatabaseEntry {
    type V = DatabaseEntryView;

    open spec fn view(&self) -> DatabaseEntryView {
        match self {
            DatabaseEntry::Service { uuid } => DatabaseEntryView::Service { uuid: uuid@ },
            DatabaseEntry::Characteristic {
                uuid,
                length,
                perm,
                user_description,
            } => DatabaseEntryView::Characteristic {
                uuid: uuid@,
                length: length@,
                perm: perm@,
                user_description: text_view(*user_description),
            },
        }
    }
}

/// A field of a record that may be an expression.
#[derive(Debug, Clone, PartialEq, Eq)]
pub enum Operand {
    Null,
    Number(u32),
    /// An expression, as text.
    Expr(String),
    /// The trigger bit or-ed with an expression.
    TriggerOr(String),
    Bytes(Vec<u8>),
}

/// A field of a record, with its text as characters.
pub enum OperandView {
    Null,
    Number(u32),
    Expr(Seq<char>),
    TriggerOr(Seq<char>),
    Bytes(Seq<u8>),
}

impl View for Operand {
    type V = OperandView;

    open spec fn view(&self) -> OperandView {
        match self {
            Operand::Null => OperandView::Null,
            Operand::Number(n) => OperandView::Number(*n),
            Operand::Expr(e) => OperandView::Expr(e@),
            Operand::TriggerOr(e) => OperandView::TriggerOr(e@),
            Operand::Bytes(b) => OperandView::Bytes(b@),
        }
    }
}

/// One row of the attribute table of an explicit-entry definition.
#[derive(Debug, Clone, PartialEq, Eq)]
pub struct EntryRecord {
    pub uuid: Operand,
    pub uuid_size: u8,
    pub perm: Operand,
    pub max_length: Operand,
    pub length: u16,
    pub value: Operand,
}

/// One row of the attribute table of an explicit-entry definition.
pub struct EntryRecordView {
    pub uuid: OperandView,
    pub uuid_size: u8,
    pub perm: OperandView,
    pub max_length: OperandView,
    pub length: u16,
    pub value: OperandView,
}

impl View for EntryRecord {
    type V = EntryRecordView;

    open spec fn view(&self) -> EntryRecordView {
        EntryRecordView {
            uuid: self.uuid@,
            uuid_size: self.uuid_size,
            perm: self.perm@,
            max_length: self.max_length@,
            length: self.length,
            value: self.value@,
        }
    }
}

/// The views of a sequence of records, in order.
pub open spec fn entry_records_view(rs: Seq<EntryRecord>) -> Seq<EntryRecordView> {
    Seq::new(rs.len(), |i: int| rs[i]@)
}

/// The records of an entry: one for a service; for a characteristic its
/// declaration, its value, and its user description where it has one.
pub open spec fn entry_records(e: DatabaseEntryView) -> Seq<EntryRecordView> {
    match e {
        DatabaseEntryView::Service { uuid } => seq![
            EntryRecordView {
                uuid: OperandView::Number(ATT_DECL_PRIMARY_SERVICE as u32),
                uuid_size: ATT_UUID_16_LEN,
                perm: OperandView::Number(read_only_bits()),
                max_length: OperandView::Number(2),
                length: 2,
                value: OperandView::Expr(uuid),
            },
        ],
        DatabaseEntryView::Characteristic { uuid, length, perm, user_description } => {
            let declaration = EntryRecordView {
                uuid: OperandView::Number(ATT_DECL_CHARACTERISTIC as u32),
                uuid_size: ATT_UUID_16_LEN,
                perm: OperandView::Number(read_only_bits()),
                max_length: OperandView::Number(0),
                length: 0,
                value: OperandView::Null,
            };
            let value = EntryRecordView {
                uuid: OperandView::Expr(uuid),
                uuid_size: ATT_UUID_16_LEN,
                perm: OperandView::Expr(perm),
                max_length: OperandView::TriggerOr(length),
                length: 0,
                value: OperandView::Null,
            };
            match user_description {
                Some(text) => seq![
                    declaration,
                    value,
                    EntryRecordView {
                        uuid: OperandView::Number(ATT_DESC_CHAR_USER_DESCRIPTION as u32),
                        uuid_size: ATT_UUID_16_LEN,
                        perm: OperandView::Number(read_only_bits()),
                        max_length: OperandView::Number((encode_utf8(text).len() % 65536) as u32),
                        length: (encode_utf8(text).len() % 65536) as u16,
                        value: OperandView::Bytes(encode_utf8(text)),
                    },
                ],
                None => seq![declaration, value],
            }
        },
    }
}

/// The entry that a builder holds; `None` while it has no type.
pub open spec fn built(b: DatabaseEntryBuilderView) -> Option<DatabaseEntryView>
    recommends
        b.can_build(),
{
    match b.entry_type {
        Some(EntryType::Service) => Some(DatabaseEntryView::Service { uuid: b.uuid.unwrap() }),
        Some(EntryType::Characteristic) => Some(
            DatabaseEntryView::Characteristic {
                uuid: b.uuid.unwrap(),
                length: b.length.unwrap(),
                perm: b.perm.unwrap(),
                user_description: b.user_description,
            },
        ),
        None => None,
    }
}

impl DatabaseEntryBuilderView {
    /// Nothing that the entry's type calls for is missing.
    pub open spec fn can_build(self) -> bool {
        match self.entry_type {
            Some(EntryType::Service) => self.uuid.is_some(),
            Some(EntryType::Characteristic) => self.uuid.is_some() && self.length.is_some()
                && self.perm.is_some(),
            None => true,
        }
    }

    /// The builder with nothing set.
    pub open spec fn empty() -> DatabaseEntryBuilderView {
        DatabaseEntryBuilderView {
            entry_type: None,
            uuid: None,
            uuid_len: None,
            length: None,
            user_description: None,
            perm: None,
        }
    }
}

/// The entry type that a word names.
pub open spec fn entry_type_of(word: Seq<char>) -> Option<EntryType> {
    if word == "service"@ {
        Some(EntryType::Service)
    } else if word == "characteristic"@ {
        Some(EntryType::Characteristic)
    } else {
        None
    }
}

/// Reads a word as an entry type.
pub fn entry_type_named(word: &str) -> (r: Option<EntryType>)
    ensures
        r == entry_type_of(word@),
{
    if str_eq(word, "service") {
        Some(EntryType::Service)
    } else if str_eq(word, "characteristic") {
        Some(EntryType::Characteristic)
    } else {
        None
    }
}

impl DatabaseEntryBuilder {
    /// A builder with nothing set.
    pub fn new() -> (r: DatabaseEntryBuilder)
        ensures
            r@ == DatabaseEntryBuilderView::empty(),
    {
        DatabaseEntryBuilder {
            entry_type: None,
            uuid: None,
            uuid_len: None,
            length: None,
            user_description: None,
            perm: None,
        }
    }

    /// Sets the entry's type, once, to `service` or `characteristic`.
    pub fn set_type(self, entry_type: &String) -> (r: DatabaseEntryBuilder)
        requires
            self.entry_type.is_none(),
            entry_type_of(entry_type@).is_some(),
        ensures
            r@ == (DatabaseEntryBuilderView { entry_type: entry_type_of(entry_type@), ..self@ }),
    {
        let mut r = self;
        r.entry_type = entry_type_named(entry_type.as_str());
        r
    }

    /// Sets a 16-bit UUID, where none is set.
    pub fn set_uuid16(self, uuid: String) -> (r: DatabaseEntryBuilder)
        requires
            self.uuid.is_none(),
        ensures
            r@ == (DatabaseEntryBuilderView { uuid: Some(uuid@), uuid_len: Some(2), ..self@ }),
    {
        let mut r = self;
        r.uuid = Some(uuid);
        r.uuid_len = Some(2);
        r
    }

    /// Sets a 128-bit UUID, where none is set.
    pub fn set_uuid128(self, uuid: String) -> (r: DatabaseEntryBuilder)
        requires
            self.uuid.is_none(),
        ensures
            r@ == (DatabaseEntryBuilderView { uuid: Some(uuid@), uuid_len: Some(16), ..self@ }),
    {
        let mut r = self;
        r.uuid = Some(uuid);
        r.uuid_len = Some(16);
        r
    }

    /// Sets the length of a characteristic.
    pub fn set_length(self, length: String) -> (r: DatabaseEntryBuilder)
        requires
            self.entry_type == Some(EntryType::Characteristic),
        ensures
            r@ == (DatabaseEntryBuilderView { length: Some(length@), ..self@ }),
    {
        let mut r = self;
        r.length = Some(length);
        r
    }

    /// Sets the permissions.
    pub fn set_perm(self, perm: String) -> (r: DatabaseEntryBuilder)
        ensures
            r@ == (DatabaseEntryBuilderView { perm: Some(perm@), ..self@ }),
    {
        let mut r = self;
        r.perm = Some(perm);
        r
    }

    /// Sets the user description of a characteristic.
    pub fn set_user_description(self, user_description: String) -> (r: DatabaseEntryBuilder)
        requires
            self.entry_type == Some(EntryType::Characteristic),
        ensures
            r@ == (DatabaseEntryBuilderView {
                user_description: Some(user_description@),
                ..self@
            }),
    {
        let mut r = self;
        r.user_description = Some(user_description);
        r
    }

    /// Whether nothing that the entry's type calls for is missing.
    pub fn can_build(&self) -> (r: bool)
        ensures
            r == self@.can_build(),
    {
        match self.entry_type {
            Some(EntryType::Service) => self.uuid.is_some(),
            Some(EntryType::Characteristic) => self.uuid.is_some() && self.length.is_some()
                && self.perm.is_some(),
            None => true,
        }
    }

    /// The entry; `None` where no type was set.
    pub fn build(self) -> (r: Option<DatabaseEntry>)
        requires
            self@.can_build(),
        ensures
            match r {
                Some(e) => built(self@) == Some(e@),
                None => built(self@).is_none(),
            },
    {
        match self.entry_type {
            Some(EntryType::Service) => match self.uuid {
                Some(uuid) => Some(DatabaseEntry::Service { uuid }),
                None => None,
            },
            Some(EntryType::Characteristic) => match (self.uuid, self.length, self.perm) {
                (Some(uuid), Some(length), Some(perm)) => Some(
                    DatabaseEntry::Characteristic {
                        uuid,
                        length,
                        perm,
                        user_description: self.user_description,
                    },
                ),
                _ => None,
            },
            None => None,
        }
    }
}

fn fixed_record(uuid: u16, max_length: u32, length: u16, value: Operand) -> (r: EntryRecord)
    ensures
        r@ == (EntryRecordView {
            uuid: OperandView::Number(uuid as u32),
            uuid_size: ATT_UUID_16_LEN,
            perm: OperandView::Number(read_only_bits()),
            max_length: OperandView::Number(max_length),
            length,
            value: value@,
        }),
{
    EntryRecord {
        uuid: Operand::Number(uuid as u32),
        uuid_size: ATT_UUID_16_LEN,
        perm: Operand::Number(Permissions::read_only().get_bits()),
        max_length: Operand::Number(max_length),
        length,
        value,
    }
}

impl DatabaseEntry {
    /// The records of the entry.
    pub fn generate(&self) -> (r: Vec<EntryRecord>)
        ensures
            entry_records_view(r@) == entry_records(self@),
    {
        let mut out: Vec<EntryRecord> = Vec::new();
        match self {
            DatabaseEntry::Service { uuid } => {
                out.push(fixed_record(ATT_DECL_PRIMARY_SERVICE, 2, 2, Operand::Expr(uuid.clone())));
            },
            DatabaseEntry::Characteristic { uuid, length, perm, user_description } => {
                out.push(fixed_record(ATT_DECL_CHARACTERISTIC, 0, 0, Operand::Null));
                out.push(
                    EntryRecord {
                        uuid: Operand::Expr(uuid.clone()),
                        uuid_size: ATT_UUID_16_LEN,
                        perm: Operand::Expr(perm.clone()),
                        max_length: Operand::TriggerOr(length.clone()),
                        length: 0,
                        value: Operand::Null,
                    },
                );
                match user_description {
                    Some(text) => {
                        let bytes = slice_to_vec(text.as_str().as_bytes());
                        let n: u16 = (bytes.len() % 65536) as u16;
                        out.push(
                            fixed_record(
                                ATT_DESC_CHAR_USER_DESCRIPTION,
                                n as u32,
                                n,
                                Operand::Bytes(bytes),
                            ),
                        );
                    },
                    None => {},
                }
            },
        }
        assert(entry_records_view(out@) =~= entry_records(self@));
        out
    }

    /// The number of records of the entry: one for a service, two for a
    /// characteristic, and one more for its user description.
    pub fn entry_count(&self) -> (n: usize)
        ensures
            n == entry_records(self@).len(),
            n == match self@ {
                DatabaseEntryView::Service { .. } => 1int,
                DatabaseEntryView::Characteristic { user_description, .. } => 2 + if user_description.is_some() {
                    1int
                } else {
                    0int
                },
            },
    {
        match self {
            DatabaseEntry::Service { .. } => 1,
            DatabaseEntry::Characteristic { user_description, .. } => 2 + if user_description.is_some() {
                1
            } else {
                0
            },
        }
    }
}

/// The views of a sequence of entries, in order.
pub open spec fn entries_view(es: Seq<DatabaseEntry>) -> Seq<DatabaseEntryView> {
    Seq::new(es.len(), |i: int| es[i]@)
}

/// The records of the first `n` entries, in declaration order.
pub open spec fn definition_records(es: Seq<DatabaseEntryView>, n: int) -> Seq<EntryRecordView>
    decreases n,
{
    if n <= 0 || n > es.len() {
        Seq::empty()
    } else {
        definition_records(es, n - 1) + entry_records(es[n - 1])
    }
}

/// A list of entries, in declaration order.
#[derive(Debug, Clone, PartialEq, Eq)]
pub struct DatabaseDefinition {
    pub entries: Vec<DatabaseEntry>,
}

impl DatabaseDefinition {
    /// The attribute table: the records of every entry, in order.
    pub fn generate(&self) -> (r: Vec<EntryRecord>)
        ensures
            entry_records_view(r@) == definition_records(
                entries_view(self.entries@),
                self.entries@.len() as int,
            ),
    {
        let ghost es = entries_view(self.entries@);
        let mut out: Vec<EntryRecord> = Vec::new();
        let mut i: usize = 0;
        assert(entry_records_view(out@) =~= definition_records(es, 0));
        while i < self.entries.len()
            invariant
                es == entries_view(self.entries@),
                0 <= i <= self.entries.len(),
                entry_records_view(out@) == definition_records(es, i as int),
            decreases self.entries.len() - i,
        {
            let mut records = self.entries[i].generate();
            let ghost before = entry_records_view(out@);
            let ghost added = entry_records_view(records@);
            out.append(&mut records);
            assert(entry_records_view(out@) =~= before + added);
            i += 1;
        }
        out
    }
}

/// What is wrong with an explicit-entry definition.
#[derive(Debug, Clone, Copy, PartialEq, Eq, Structural)]
pub enum EntryErrorKind {
    /// The text is no sequence of tokens.
    NotTokens,
    /// A braced entry was expected.
    ExpectedEntry,
    /// A comma was expected between two entries.
    ExpectedComma,
    /// A key was expected.
    ExpectedIdent,
    /// A colon was expected after a key.
    ExpectedColon,
    /// A key that an entry may not have.
    UnknownField,
    /// The value of `etype` is no path.
    ExpectedPath,
    /// The value of `etype` is neither `service` nor `characteristic`.
    UnknownEntryType,
    /// `etype` is given twice.
    DuplicateEntryType,
    /// The value is no expression.
    ExpectedExpression,
    /// A UUID is given twice.
    DuplicateUuid,
    /// A length or user description stands before `etype`.
    EntryTypeNotSet,
    /// A length or user description is given to a service.
    NotCharacteristic,
    /// The user description is no string literal.
    ExpectedStringLiteral,
    MissingEntryType,
    MissingUuid,
    MissingLength,
    MissingPerm,
}

/// An error in a definition, with the position of the offending token.
#[derive(Debug, Clone, Copy, PartialEq, Eq, Structural)]
pub struct EntryError {
    pub span: usize,
    pub kind: EntryErrorKind,
}

/// The error that names the token at a position.
pub open spec fn entry_error(pos: int, kind: EntryErrorKind) -> EntryError {
    EntryError { span: pos as usize, kind }
}

/// The first identifier among the tokens from `from` to `to`.
pub open spec fn first_ident(ts: Seq<TokenView>, from: int, to: int) -> Option<Seq<char>>
    decreases to - from,
{
    if from < 0 || from >= to || to > ts.len() {
        None
    } else {
        match ts[from] {
            TokenView::Ident(word) => Some(word),
            _ => first_ident(ts, from + 1, to),
        }
    }
}

/// The string that the tokens from `from` to `to` denote, where they are
/// one string literal.
pub open spec fn string_literal(ts: Seq<TokenView>, from: int, to: int) -> Option<Seq<char>> {
    if 0 <= from && to == from + 1 && to <= ts.len() && ts[from] is Literal {
        string_denoted(ts[from]->Literal_0)
    } else {
        None
    }
}

/// The error for a length or user description that the entry's type
/// does not admit.
pub open spec fn type_error(b: DatabaseEntryBuilderView, pos: int) -> Option<EntryError> {
    match b.entry_type {
        Some(EntryType::Characteristic) => None,
        Some(EntryType::Service) => Some(entry_error(pos, EntryErrorKind::NotCharacteristic)),
        None => Some(entry_error(pos, EntryErrorKind::EntryTypeNotSet)),
    }
}

/// The builder after the field `key`, whose value is the tokens from
/// `from` to `to`, has been set.
pub open spec fn with_field(
    ts: Seq<TokenView>,
    b: DatabaseEntryBuilderView,
    key: Seq<char>,
    from: int,
    to: int,
) -> Result<DatabaseEntryBuilderView, EntryError> {
    let text = rendered(ts, from, to);
    if key == "etype"@ {
        if !reads_as_path(text) || first_ident(ts, from, to).is_none() {
            Err(entry_error(from, EntryErrorKind::ExpectedPath))
        } else if b.entry_type.is_some() {
            Err(entry_error(from, EntryErrorKind::DuplicateEntryType))
        } else {
            match entry_type_of(first_ident(ts, from, to).unwrap()) {
                Some(t) => Ok(DatabaseEntryBuilderView { entry_type: Some(t), ..b }),
                None => Err(entry_error(from, EntryErrorKind::UnknownEntryType)),
            }
        }
    } else if key == "uuid16"@ || key == "uuid128"@ {
        if !reads_as_expr(text) {
            Err(entry_error(from, EntryErrorKind::ExpectedExpression))
        } else if b.uuid.is_some() {
            Err(entry_error(from, EntryErrorKind::DuplicateUuid))
        } else {
            Ok(
                DatabaseEntryBuilderView {
                    uuid: Some(text),
                    uuid_len: Some(
                        if key == "uuid16"@ {
                            2u8
                        } else {
                            16u8
                        },
                    ),
                    ..b
                },
            )
        }
    } else if key == "length"@ {
        if !reads_as_expr(text) {
            Err(entry_error(from, EntryErrorKind::ExpectedExpression))
        } else if type_error(b, from).is_some() {
            Err(type_error(b, from).unwrap())
        } else {
            Ok(DatabaseEntryBuilderView { length: Some(text), ..b })
        }
    } else if key == "perm"@ {
        if !reads_as_expr(text) {
            Err(entry_error(from, EntryErrorKind::ExpectedExpression))
        } else {
            Ok(DatabaseEntryBuilderView { perm: Some(text), ..b })
        }
    } else if key == "user_description"@ {
        if string_literal(ts, from, to).is_none() {
            Err(entry_error(from, EntryErrorKind::ExpectedStringLiteral))
        } else if type_error(b, from).is_some() {
            Err(type_error(b, from).unwrap())
        } else {
            Ok(DatabaseEntryBuilderView { user_description: string_literal(ts, from, to), ..b })
        }
    } else {
        Err(entry_error(from - 2, EntryErrorKind::UnknownField))
    }
}

#[via_fn]
proof fn fields_from_decreases(
    ts: Seq<TokenView>,
    pos: int,
    end: int,
    b: DatabaseEntryBuilderView,
) {
    if 0 <= pos && pos + 1 < end <= ts.len() {
        lemma_value_end_bounds(ts, pos + 2, end, 0, 0);
    }
}

/// The builder after the fields from `pos` to `end` have been set.
pub open spec fn fields_from(
    ts: Seq<TokenView>,
    pos: int,
    end: int,
    b: DatabaseEntryBuilderView,
) -> Result<DatabaseEntryBuilderView, EntryError>
    decreases end - pos,
    via fields_from_decreases
{
    if pos >= end || pos < 0 || end > ts.len() {
        Ok(b)
    } else {
        match ts[pos] {
            TokenView::Ident(key) => if pos + 1 < end && is_punct(ts[pos + 1], ':') {
                let stop = value_end(ts, pos + 2, end, 0, 0);
                match with_field(ts, b, key, pos + 2, stop) {
                    Ok(next) => if stop >= end {
                        Ok(next)
                    } else {
                        fields_from(ts, stop + 1, end, next)
                    },
                    Err(e) => Err(e),
                }
            } else {
                Err(entry_error(pos + 1, EntryErrorKind::ExpectedColon))
            },
            _ => Err(entry_error(pos, EntryErrorKind::ExpectedIdent)),
        }
    }
}

/// The entry that a builder gives, or what it lacks.
pub open spec fn finished(b: DatabaseEntryBuilderView, span: int) -> Result<
    DatabaseEntryView,
    EntryError,
> {
    if b.entry_type.is_none() {
        Err(entry_error(span, EntryErrorKind::MissingEntryType))
    } else if b.uuid.is_none() {
        Err(entry_error(span, EntryErrorKind::MissingUuid))
    } else if b.entry_type == Some(EntryType::Characteristic) && b.length.is_none() {
        Err(entry_error(span, EntryErrorKind::MissingLength))
    } else if b.entry_type == Some(EntryType::Characteristic) && b.perm.is_none() {
        Err(entry_error(span, EntryErrorKind::MissingPerm))
    } else {
        Ok(built(b).unwrap())
    }
}

/// The entry that the fields from `from` to `to` describe; `span` is the
/// position of the entry's opening brace.
pub open spec fn entry_of(ts: Seq<TokenView>, from: int, to: int, span: int) -> Result<
    DatabaseEntryView,
    EntryError,
> {
    match fields_from(ts, from, to, DatabaseEntryBuilderView::empty()) {
        Ok(b) => finished(b, span),
        Err(e) => Err(e),
    }
}

/// Whether a braced group opens at `pos` and closes at `close`.
pub open spec fn entry_at(ts: Seq<TokenView>, pos: int, end: int, close: int) -> bool {
    &&& 0 <= pos < close < end <= ts.len()
    &&& ts[pos] == TokenView::Open(Delimiter::Brace)
    &&& group_close(ts, pos, end) == Some(close)
}

/// The entries that the tokens from `pos` to `end` add to `entries`.
pub open spec fn entries_from(
    ts: Seq<TokenView>,
    pos: int,
    end: int,
    entries: Seq<DatabaseEntryView>,
) -> Result<Seq<DatabaseEntryView>, EntryError>
    decreases end - pos,
{
    if pos >= end || pos < 0 || end > ts.len() {
        Ok(entries)
    } else if group_close(ts, pos, end).is_some() && entry_at(
        ts,
        pos,
        end,
        group_close(ts, pos, end).unwrap(),
    ) {
        let close = group_close(ts, pos, end).unwrap();
        match entry_of(ts, pos + 1, close, pos) {
            Ok(entry) => if close + 1 >= end {
                Ok(entries.push(entry))
            } else if !is_punct(ts[close + 1], ',') {
                Err(entry_error(close + 1, EntryErrorKind::ExpectedComma))
            } else if close + 2 >= end {
                Ok(entries.push(entry))
            } else {
                entries_from(ts, close + 2, end, entries.push(entry))
            },
            Err(e) => Err(e),
        }
    } else {
        Err(entry_error(pos, EntryErrorKind::ExpectedEntry))
    }
}

/// Finds the first identifier among the tokens from `from` to `to`.
pub fn find_first_ident(tokens: &Vec<Token>, from: usize, to: usize) -> (r: Option<String>)
    requires
        from <= to <= tokens.len(),
    ensures
        text_view(r) == first_ident(tokens_view(tokens@), from as int, to as int),
{
    let ghost ts = tokens_view(tokens@);
    let mut pos: usize = from;
    while pos < to
        invariant
            ts == tokens_view(tokens@),
            from <= pos <= to <= tokens.len(),
            first_ident(ts, from as int, to as int) == first_ident(ts, pos as int, to as int),
        decreases to - pos,
    {
        assert(ts[pos as int] == tokens[pos as int]@);
        match &tokens[pos] {
            Token::Ident(word) => {
                return Some(word.clone());
            },
            _ => {},
        }
        pos += 1;
    }
    None
}

/// Reads the tokens from `from` to `to` as one string literal.
pub fn read_string_literal(tokens: &Vec<Token>, from: usize, to: usize) -> (r: Option<String>)
    requires
        from <= to <= tokens.len(),
    ensures
        text_view(r) == string_literal(tokens_view(tokens@), from as int, to as int),
{
    if to - from != 1 {
        return None;
    }
    assert(tokens_view(tokens@)[from as int] == tokens[from as int]@);
    match &tokens[from] {
        Token::Literal(text) => read_string(text.as_str()),
        _ => None,
    }
}

impl DatabaseEntryBuilder {
    /// The error for a length or user description that the entry's type
    /// does not admit.
    pub fn type_error(&self, pos: usize) -> (r: Option<EntryError>)
        ensures
            r == type_error(self@, pos as int),
    {
        match self.entry_type {
            Some(EntryType::Characteristic) => None,
            Some(EntryType::Service) => Some(
                EntryError { span: pos, kind: EntryErrorKind::NotCharacteristic },
            ),
            None => Some(EntryError { span: pos, kind: EntryErrorKind::EntryTypeNotSet }),
        }
    }

    /// Sets the field `key`, whose value is the tokens from `from` to `to`.
    pub fn set_field(self, tokens: &Vec<Token>, key: &str, from: usize, to: usize) -> (r: Result<
        DatabaseEntryBuilder,
        EntryError,
    >)
        requires
            2 <= from <= to <= tokens.len(),
        ensures
            match r {
                Ok(b) => with_field(tokens_view(tokens@), self@, key@, from as int, to as int)
                    == Ok::<DatabaseEntryBuilderView, EntryError>(b@),
                Err(e) => with_field(tokens_view(tokens@), self@, key@, from as int, to as int)
                    == Err::<DatabaseEntryBuilderView, EntryError>(e),
            },
    {
        let text = render(tokens, from, to);
        if str_eq(key, "etype") {
            let word = find_first_ident(tokens, from, to);
            match word {
                Some(word) => {
                    if !path_text(text.as_str()) {
                        return Err(EntryError { span: from, kind: EntryErrorKind::ExpectedPath });
                    }
                    if self.entry_type.is_some() {
                        return Err(
                            EntryError { span: from, kind: EntryErrorKind::DuplicateEntryType },
                        );
                    }
                    if entry_type_named(word.as_str()).is_none() {
                        return Err(
                            EntryError { span: from, kind: EntryErrorKind::UnknownEntryType },
                        );
                    }
                    Ok(self.set_type(&word))
                },
                None => Err(EntryError { span: from, kind: EntryErrorKind::ExpectedPath }),
            }
        } else if str_eq(key, "uuid16") || str_eq(key, "uuid128") {
            if !expr_text(text.as_str()) {
                return Err(EntryError { span: from, kind: EntryErrorKind::ExpectedExpression });
            }
            if self.uuid.is_some() {
                return Err(EntryError { span: from, kind: EntryErrorKind::DuplicateUuid });
            }
            if str_eq(key, "uuid16") {
                Ok(self.set_uuid16(text))
            } else {
                Ok(self.set_uuid128(text))
            }
        } else if str_eq(key, "length") {
            if !expr_text(text.as_str()) {
                return Err(EntryError { span: from, kind: EntryErrorKind::ExpectedExpression });
            }
            match self.type_error(from) {
                Some(e) => Err(e),
                None => Ok(self.set_length(text)),
            }
        } else if str_eq(key, "perm") {
            if !expr_text(text.as_str()) {
                return Err(EntryError { span: from, kind: EntryErrorKind::ExpectedExpression });
            }
            Ok(self.set_perm(text))
        } else if str_eq(key, "user_description") {
            match read_string_literal(tokens, from, to) {
                Some(value) => match self.type_error(from) {
                    Some(e) => Err(e),
                    None => Ok(self.set_user_description(value)),
                },
                None => Err(
                    EntryError { span: from, kind: EntryErrorKind::ExpectedStringLiteral },
                ),
            }
        } else {
            Err(EntryError { span: from - 2, kind: EntryErrorKind::UnknownField })
        }
    }

    /// The entry, or what the builder lacks.
    pub fn finish(self, span: usize) -> (r: Result<DatabaseEntry, EntryError>)
        ensures
            match r {
                Ok(e) => finished(self@, span as int) == Ok::<DatabaseEntryView, EntryError>(e@),
                Err(e) => finished(self@, span as int) == Err::<DatabaseEntryView, EntryError>(e),
            },
    {
        if self.entry_type.is_none() {
            return Err(EntryError { span, kind: EntryErrorKind::MissingEntryType });
        }
        if self.uuid.is_none() {
            return Err(EntryError { span, kind: EntryErrorKind::MissingUuid });
        }
        let characteristic = match self.entry_type {
            Some(EntryType::Characteristic) => true,
            _ => false,
        };
        if characteristic && self.length.is_none() {
            return Err(EntryError { span, kind: EntryErrorKind::MissingLength });
        }
        if characteristic && self.perm.is_none() {
            return Err(EntryError { span, kind: EntryErrorKind::MissingPerm });
        }
        match self.build() {
            Some(entry) => Ok(entry),
            None => Err(EntryError { span, kind: EntryErrorKind::MissingEntryType }),
        }
    }
}

impl DatabaseEntry {
    /// Reads the fields from `from` to `to` as one entry; `span` is the
    /// position of the entry's opening brace.
    pub fn parse(tokens: &Vec<Token>, from: usize, to: usize, span: usize) -> (r: Result<
        DatabaseEntry,
        EntryError,
    >)
        requires
            from <= to <= tokens.len(),
        ensures
            match r {
                Ok(e) => entry_of(tokens_view(tokens@), from as int, to as int, span as int)
                    == Ok::<DatabaseEntryView, EntryError>(e@),
                Err(e) => entry_of(tokens_view(tokens@), from as int, to as int, span as int)
                    == Err::<DatabaseEntryView, EntryError>(e),
            },
    {
        let ghost ts = tokens_view(tokens@);
        let mut builder = DatabaseEntryBuilder::new();
        let mut pos: usize = from;
        while pos < to
            invariant
                ts == tokens_view(tokens@),
                from <= pos,
                to <= tokens.len(),
                fields_from(ts, from as int, to as int, DatabaseEntryBuilderView::empty())
                    == fields_from(ts, pos as int, to as int, builder@),
            decreases to - pos,
        {
            assert(ts[pos as int] == tokens[pos as int]@);
            match &tokens[pos] {
                Token::Ident(key) => {
                    if pos + 1 >= to {
                        return Err(
                            EntryError { span: pos + 1, kind: EntryErrorKind::ExpectedColon },
                        );
                    }
                    assert(ts[pos + 1] == tokens[pos + 1]@);
                    if !token_is_punct(&tokens[pos + 1], ':') {
                        return Err(
                            EntryError { span: pos + 1, kind: EntryErrorKind::ExpectedColon },
                        );
                    }
                    let stop = find_value_end(tokens, pos + 2, to);
                    match builder.set_field(tokens, key.as_str(), pos + 2, stop) {
                        Ok(next) => {
                            builder = next;
                        },
                        Err(e) => {
                            return Err(e);
                        },
                    }
                    if stop >= to {
                        return builder.finish(span);
                    }
                    pos = stop + 1;
                },
                _ => {
                    return Err(EntryError { span: pos, kind: EntryErrorKind::ExpectedIdent });
                },
            }
        }
        builder.finish(span)
    }
}

impl DatabaseDefinition {
    /// Reads a whole sequence of tokens as braced entries separated by
    /// commas.
    pub fn parse(tokens: &Vec<Token>) -> (r: Result<DatabaseDefinition, EntryError>)
        ensures
            match r {
                Ok(d) => entries_from(tokens_view(tokens@), 0, tokens@.len() as int, Seq::empty())
                    == Ok::<Seq<DatabaseEntryView>, EntryError>(entries_view(d.entries@)),
                Err(e) => entries_from(tokens_view(tokens@), 0, tokens@.len() as int, Seq::empty())
                    == Err::<Seq<DatabaseEntryView>, EntryError>(e),
            },
    {
        let ghost ts = tokens_view(tokens@);
        let end = tokens.len();
        let mut entries: Vec<DatabaseEntry> = Vec::new();
        let mut pos: usize = 0;
        assert(entries_view(entries@) =~= Seq::empty());
        while pos < end
            invariant
                ts == tokens_view(tokens@),
                end == tokens.len(),
                entries_from(ts, 0, end as int, Seq::empty()) == entries_from(
                    ts,
                    pos as int,
                    end as int,
                    entries_view(entries@),
                ),
            decreases end - pos,
        {
            assert(ts[pos as int] == tokens[pos as int]@);
            let brace = match &tokens[pos] {
                Token::Open(Delimiter::Brace) => true,
                _ => false,
            };
            let close = match find_close(tokens, pos, end) {
                Some(close) => close,
                None => {
                    return Err(EntryError { span: pos, kind: EntryErrorKind::ExpectedEntry });
                },
            };
            if !brace {
                return Err(EntryError { span: pos, kind: EntryErrorKind::ExpectedEntry });
            }
            let ghost before = entries_view(entries@);
            match DatabaseEntry::parse(tokens, pos + 1, close, pos) {
                Ok(entry) => {
                    entries.push(entry);
                    assert(entries_view(entries@) =~= before.push(entry@));
                },
                Err(e) => {
                    return Err(e);
                },
            }
            if close + 1 >= end {
                return Ok(DatabaseDefinition { entries });
            }
            assert(ts[close + 1] == tokens[close + 1]@);
            if !token_is_punct(&tokens[close + 1], ',') {
                return Err(EntryError { span: close + 1, kind: EntryErrorKind::ExpectedComma });
            }
            if close + 2 >= end {
                return Ok(DatabaseDefinition { entries });
            }
            pos = close + 2;
        }
        Ok(DatabaseDefinition { entries })
    }

    /// Reads a description in the explicit-entry grammar: fails where the
    /// text is no sequence of tokens, and else gives what `parse` makes of
    /// its tokens.
    pub fn from_text(text: &str) -> (r: Result<DatabaseDefinition, EntryError>)
        ensures
            r == Err::<DatabaseDefinition, EntryError>(
                entry_error(0, EntryErrorKind::NotTokens),
            ) || exists|ts: Seq<TokenView>| #[trigger] defined_by(ts, r),
    {
        match lex(text) {
            Some(tokens) => {
                let r = Self::parse(&tokens);
                assert(defined_by(tokens_view(tokens@), r));
                r
            },
            None => Err(EntryError { span: 0, kind: EntryErrorKind::NotTokens }),
        }
    }
}

/// Whether `r` is what a whole sequence of tokens defines: an error, or
/// a list of entries.
pub open spec fn defined_by(ts: Seq<TokenView>, r: Result<DatabaseDefinition, EntryError>) -> bool {
    let entries = entries_from(ts, 0, ts.len() as int, Seq::empty());
    match r {
        Ok(d) => entries == Ok::<Seq<DatabaseEntryView>, EntryError>(entries_view(d.entries@)),
        Err(e) => entries == Err::<Seq<DatabaseEntryView>, EntryError>(e),
    }
}

} // verus!
