//! The attribute table builder: from a list of services to the flat table
//! of attribute records, the start index of each service, the value index
//! of each characteristic, and the read and write dispatch lists.

use crate::layout::{
    characteristic_declaration, characteristic_records, characteristic_value,
    characteristics_dispatch, characteristics_names, characteristics_records, compiled, complete, complete_before, lemma_characteristics_step,
    lemma_table_step, read_only_bits, routed, service_declaration, service_start, service_starts,
    table_dispatch, table_names, table_records, user_description, value_index_from, AttributeRecordView, AttributeValueView, CompiledDatabaseView,
    MaxLengthView, ATT_DECL_CHARACTERISTIC, ATT_DECL_PRIMARY_SERVICE,
    ATT_DESC_CHAR_USER_DESCRIPTION, ATT_UUID_16_LEN, TRIGGER_READ_WRITE_INDICATION,
};
use crate::model::{
    characteristics_view, services_view, Access, Characteristic, CharacteristicLength, Service, Uuid,
};
use crate::permissions::Permissions;
use vstd::prelude::*;
use vstd::slice::slice_to_vec;

verus! {

/// Maximum length of an attribute's value.
#[derive(Debug, Clone, PartialEq, Eq)]
pub enum MaxLength {
    Fixed(u16),
    Deferred { trigger: bool, path: String },
}

impl View for MaxLength {
    type V = MaxLengthView;

    open spec fn view(&self) -> MaxLengthView {
        match self {
            MaxLength::Fixed(n) => MaxLengthView::Fixed(*n),
            MaxLength::Deferred { trigger, path } => MaxLengthView::Deferred {
                trigger: *trigger,
                path: path@,
            },
        }
    }
}

/// Initial value of an attribute.
#[derive(Debug, Clone, PartialEq, Eq)]
pub enum AttributeValue {
    Null,
    Uuid(Uuid),
    Bytes(Vec<u8>),
}

impl View for AttributeValue {
    type V = AttributeValueView;

    open spec fn view(&self) -> AttributeValueView {
        match self {
            AttributeValue::Null => AttributeValueView::Null,
            AttributeValue::Uuid(u) => AttributeValueView::Uuid(*u),
            AttributeValue::Bytes(b) => AttributeValueView::Bytes(b@),
        }
    }
}

/// One row of the attribute table.
#[derive(Debug, Clone, PartialEq, Eq)]
pub struct AttributeRecord {
    pub uuid: Uuid,
    pub uuid_size: u8,
    pub perm: u32,
    pub max_length: MaxLength,
    pub length: u16,
    pub value: AttributeValue,
}

impl View for AttributeRecord {
    type V = AttributeRecordView;

    open spec fn view(&self) -> AttributeRecordView {
        AttributeRecordView {
            uuid: self.uuid,
            uuid_size: self.uuid_size,
            perm: self.perm,
            max_length: self.max_length@,
            length: self.length,
            value: self.value@,
        }
    }
}

/// The views of a sequence of records, in order.
pub open spec fn records_view(rs: Seq<AttributeRecord>) -> Seq<AttributeRecordView> {
    Seq::new(rs.len(), |i: int| rs[i]@)
}

/// A list of indices as mathematical integers.
pub open spec fn indices_view(v: Seq<usize>) -> Seq<int> {
    Seq::new(v.len(), |i: int| v[i] as int)
}

/// A list of names with their indices.
pub open spec fn names_view(v: Seq<(String, usize)>) -> Seq<(Seq<char>, int)> {
    Seq::new(v.len(), |i: int| (v[i].0@, v[i].1 as int))
}

/// A dispatch list: indices with the handlers they are routed to.
pub open spec fn dispatch_view(v: Seq<(usize, String)>) -> Seq<(int, Seq<char>)> {
    Seq::new(v.len(), |i: int| (v[i].0 as int, v[i].1@))
}

/// The compiled attribute database.
#[derive(Debug, Clone, PartialEq, Eq)]
pub struct CompiledDatabase {
    /// The attribute table.
    pub records: Vec<AttributeRecord>,
    /// Index of each service's declaration record, then the record count.
    pub service_idxs: Vec<usize>,
    /// Each characteristic's name with the index of its value record.
    pub char_idx_map: Vec<(String, usize)>,
    /// Value indices whose reads are routed, each with its handler.
    pub read_handlers: Vec<(usize, String)>,
    /// Value indices whose writes are routed, each with its handler.
    pub write_handlers: Vec<(usize, String)>,
}

impl View for CompiledDatabase {
    type V = CompiledDatabaseView;

    open spec fn view(&self) -> CompiledDatabaseView {
        CompiledDatabaseView {
            records: records_view(self.records@),
            service_idxs: indices_view(self.service_idxs@),
            char_idx_map: names_view(self.char_idx_map@),
            read_handlers: dispatch_view(self.read_handlers@),
            write_handlers: dispatch_view(self.write_handlers@),
        }
    }
}

/// Why a list of services does not compile: the first characteristic, in
/// declaration order, whose permissions call for a handler it lacks.
#[derive(Debug, Clone, Copy, PartialEq, Eq, Structural)]
pub enum BuildError {
    MissingReadHandler { service: usize, characteristic: usize },
    MissingWriteHandler { service: usize, characteristic: usize },
}

impl BuildError {
    /// Position of the service that holds the characteristic.
    pub open spec fn service(self) -> int {
        match self {
            BuildError::MissingReadHandler { service, .. } => service as int,
            BuildError::MissingWriteHandler { service, .. } => service as int,
        }
    }

    /// Position of the characteristic within its service.
    pub open spec fn characteristic(self) -> int {
        match self {
            BuildError::MissingReadHandler { characteristic, .. } => characteristic as int,
            BuildError::MissingWriteHandler { characteristic, .. } => characteristic as int,
        }
    }

    /// Which handler is missing.
    pub open spec fn handler(self) -> Access {
        match self {
            BuildError::MissingReadHandler { .. } => Access::Read,
            BuildError::MissingWriteHandler { .. } => Access::Write,
        }
    }
}

fn read_only_word() -> (bits: u32)
    ensures
        bits == read_only_bits(),
{
    Permissions::read_only().get_bits()
}

fn service_declaration_record(uuid: Uuid) -> (r: AttributeRecord)
    ensures
        r@ == service_declaration(uuid),
{
    AttributeRecord {
        uuid: Uuid::Uuid16(ATT_DECL_PRIMARY_SERVICE),
        uuid_size: ATT_UUID_16_LEN,
        perm: read_only_word(),
        max_length: MaxLength::Fixed(2),
        length: 2,
        value: AttributeValue::Uuid(uuid),
    }
}

fn characteristic_declaration_record() -> (r: AttributeRecord)
    ensures
        r@ == characteristic_declaration(),
{
    AttributeRecord {
        uuid: Uuid::Uuid16(ATT_DECL_CHARACTERISTIC),
        uuid_size: ATT_UUID_16_LEN,
        perm: read_only_word(),
        max_length: MaxLength::Fixed(0),
        length: 0,
        value: AttributeValue::Null,
    }
}

fn characteristic_value_record(c: &Characteristic) -> (r: AttributeRecord)
    ensures
        r@ == characteristic_value(c@),
{
    let trigger = (c.permissions.is_readable() && c.read_handler.is_some()) || (
    c.permissions.is_writable() && c.write_handler.is_some());
    let max_length = match &c.length {
        CharacteristicLength::Int(n) => MaxLength::Fixed(
            if trigger {
                TRIGGER_READ_WRITE_INDICATION | *n
            } else {
                *n
            },
        ),
        CharacteristicLength::Path(p) => MaxLength::Deferred { trigger, path: p.clone() },
    };
    AttributeRecord {
        uuid: c.uuid,
        uuid_size: ATT_UUID_16_LEN,
        perm: c.permissions.get_bits(),
        max_length,
        length: 0,
        value: AttributeValue::Null,
    }
}

fn user_description_record(text: &String) -> (r: AttributeRecord)
    ensures
        r@ == user_description(text@),
{
    let bytes = slice_to_vec(text.as_str().as_bytes());
    let length: u16 = (bytes.len() % 65536) as u16;
    AttributeRecord {
        uuid: Uuid::Uuid16(ATT_DESC_CHAR_USER_DESCRIPTION),
        uuid_size: ATT_UUID_16_LEN,
        perm: read_only_word(),
        max_length: MaxLength::Fixed(length),
        length,
        value: AttributeValue::Bytes(bytes),
    }
}

/// Appends the records of one characteristic that lacks no handler, and
/// enters its value index in the name map and the dispatch lists.
fn push_characteristic(db: &mut CompiledDatabase, characteristic: &Characteristic)
    requires
        characteristic@.missing_handler().is_none(),
    ensures
        final(db)@.records == old(db)@.records + characteristic_records(characteristic@),
        final(db)@.service_idxs == old(db)@.service_idxs,
        final(db)@.char_idx_map == old(db)@.char_idx_map.push(
            (characteristic@.name, (old(db)@.records.len() + 1) as int),
        ),
        final(db)@.read_handlers == routed(
            old(db)@.read_handlers,
            characteristic@.grants(Access::Read),
            (old(db)@.records.len() + 1) as int,
            characteristic@.read_handler,
        ),
        final(db)@.write_handlers == routed(
            old(db)@.write_handlers,
            characteristic@.grants(Access::Write),
            (old(db)@.records.len() + 1) as int,
            characteristic@.write_handler,
        ),
{
    db.records.push(characteristic_declaration_record());
    let value_index = db.records.len();
    db.char_idx_map.push((characteristic.name.clone(), value_index));
    if characteristic.permissions.is_readable() {
        match &characteristic.read_handler {
            Some(handler) => {
                db.read_handlers.push((value_index, handler.clone()));
            },
            None => {},
        }
    }
    if characteristic.permissions.is_writable() {
        match &characteristic.write_handler {
            Some(handler) => {
                db.write_handlers.push((value_index, handler.clone()));
            },
            None => {},
        }
    }
    db.records.push(characteristic_value_record(characteristic));
    match &characteristic.user_description {
        Some(text) => {
            db.records.push(user_description_record(text));
        },
        None => {},
    }
    proof {
        assert(final(db)@.records =~= old(db)@.records + characteristic_records(characteristic@));
        assert(final(db)@.service_idxs =~= old(db)@.service_idxs);
        assert(final(db)@.char_idx_map =~= old(db)@.char_idx_map.push(
            (characteristic@.name, (old(db)@.records.len() + 1) as int),
        ));
        assert(final(db)@.read_handlers =~= routed(
            old(db)@.read_handlers,
            characteristic@.grants(Access::Read),
            (old(db)@.records.len() + 1) as int,
            characteristic@.read_handler,
        ));
        assert(final(db)@.write_handlers =~= routed(
            old(db)@.write_handlers,
            characteristic@.grants(Access::Write),
            (old(db)@.records.len() + 1) as int,
            characteristic@.write_handler,
        ));
    }
}

/// Appends the records of a service's characteristics, in order, until
/// one lacks a handler.
fn push_characteristics(db: &mut CompiledDatabase, characteristics: &Vec<Characteristic>) -> (r:
    Option<(usize, Access)>)
    ensures
        ({
            let cs = characteristics_view(characteristics@);
            let base = old(db)@.records.len() as int;
            match r {
                None => {
                    &&& forall|j: int| 0 <= j < cs.len() ==> (#[trigger] cs[j]).missing_handler().is_none()
                    &&& final(db)@.records == old(db)@.records + characteristics_records(cs)
                    &&& final(db)@.service_idxs == old(db)@.service_idxs
                    &&& final(db)@.char_idx_map == old(db)@.char_idx_map + characteristics_names(
                        cs,
                        base,
                    )
                    &&& final(db)@.read_handlers == old(db)@.read_handlers
                        + characteristics_dispatch(cs, base, Access::Read)
                    &&& final(db)@.write_handlers == old(db)@.write_handlers
                        + characteristics_dispatch(cs, base, Access::Write)
                },
                Some((j, h)) => {
                    &&& 0 <= j < cs.len()
                    &&& cs[j as int].missing_handler() == Some(h)
                    &&& forall|k: int| 0 <= k < j ==> (#[trigger] cs[k]).missing_handler().is_none()
                },
            }
        }),
{
    let ghost cs = characteristics_view(characteristics@);
    let ghost base = db@.records.len() as int;
    let ghost start = db@;
    let mut c: usize = 0;
    assert(cs.take(0) =~= Seq::empty());
    assert(db@.records =~= start.records + characteristics_records(cs.take(0)));
    assert(db@.read_handlers =~= start.read_handlers + characteristics_dispatch(cs.take(0), base, Access::Read));
    assert(db@.write_handlers =~= start.write_handlers + characteristics_dispatch(cs.take(0), base, Access::Write));
    while c < characteristics.len()
        invariant
            cs == characteristics_view(characteristics@),
            0 <= c <= characteristics.len(),
            base == start.records.len(),
            forall|j: int| 0 <= j < c ==> (#[trigger] cs[j]).missing_handler().is_none(),
            db@.records == start.records + characteristics_records(cs.take(c as int)),
            db@.service_idxs == start.service_idxs,
            db@.char_idx_map.len() == start.char_idx_map.len() + c,
            forall|k: int|
                0 <= k < start.char_idx_map.len() ==> db@.char_idx_map[k] == start.char_idx_map[k],
            forall|k: int|
                0 <= k < c ==> db@.char_idx_map[start.char_idx_map.len() + k] == (
                    cs[k].name,
                    value_index_from(cs, base, k),
                ),
            db@.read_handlers == start.read_handlers + characteristics_dispatch(cs.take(c as int), base, Access::Read),
            db@.write_handlers == start.write_handlers + characteristics_dispatch(cs.take(c as int), base, Access::Write),
        decreases characteristics.len() - c,
    {
        let characteristic = &characteristics[c];
        assert(cs[c as int] == characteristic@);
        match characteristic.missing_handler() {
            Some(h) => {
                return Some((c, h));
            },
            None => {},
        }
        let ghost before = db@;
        push_characteristic(db, characteristic);
        proof {
            lemma_characteristics_step(cs, base, c as int);
            assert(db@.records =~= start.records + characteristics_records(cs.take(c + 1)));
            assert(before.records.len() + 1 == value_index_from(cs, base, c as int));
            assert(db@.read_handlers =~= start.read_handlers + characteristics_dispatch(cs.take(c + 1), base, Access::Read));
            assert(db@.write_handlers =~= start.write_handlers + characteristics_dispatch(cs.take(c + 1), base, Access::Write));
        }
        c += 1;
    }
    proof {
        assert(cs.take(c as int) =~= cs);
        assert(db@.char_idx_map =~= start.char_idx_map + characteristics_names(cs, base));
    }
    None
}

/// Compiles a list of services.
///
/// Succeeds exactly when every characteristic has the handlers that its
/// permissions call for, and then returns the database laid out as
/// `compiled` says. Otherwise the error names the first characteristic,
/// in declaration order, that lacks a handler, and which one it lacks.
pub fn build(services: &Vec<Service>) -> (r: Result<CompiledDatabase, BuildError>)
    ensures
        match r {
            Ok(db) => complete(services_view(services@)) && db@ == compiled(
                services_view(services@),
            ),
            Err(e) => {
                let ss = services_view(services@);
                &&& 0 <= e.service() < ss.len()
                &&& 0 <= e.characteristic() < ss[e.service()].characteristics.len()
                &&& complete_before(ss, e.service(), e.characteristic())
                &&& ss[e.service()].characteristics[e.characteristic()].missing_handler() == Some(
                    e.handler(),
                )
            },
        },
{
    let ghost ss = services_view(services@);
    let mut db = CompiledDatabase {
        records: Vec::new(),
        service_idxs: Vec::new(),
        char_idx_map: Vec::new(),
        read_handlers: Vec::new(),
        write_handlers: Vec::new(),
    };
    let mut s: usize = 0;
    assert(ss.take(0) =~= Seq::empty());
    assert(db@.records =~= table_records(ss.take(0)));
    assert(db@.char_idx_map =~= table_names(ss.take(0)));
    assert(db@.read_handlers =~= table_dispatch(ss.take(0), Access::Read));
    assert(db@.write_handlers =~= table_dispatch(ss.take(0), Access::Write));
    while s < services.len()
        invariant
            ss == services_view(services@),
            0 <= s <= services.len(),
            db@.records == table_records(ss.take(s as int)),
            db@.service_idxs.len() == s,
            forall|i: int| 0 <= i < s ==> db@.service_idxs[i] == service_start(ss, i),
            db@.char_idx_map == table_names(ss.take(s as int)),
            db@.read_handlers == table_dispatch(ss.take(s as int), Access::Read),
            db@.write_handlers == table_dispatch(ss.take(s as int), Access::Write),
            complete_before(ss, s as int, 0),
        decreases services.len() - s,
    {
        let service = &services[s];
        let ghost before = db@;
        assert(ss[s as int] == service@);
        db.service_idxs.push(db.records.len());
        db.records.push(service_declaration_record(service.uuid));
        let ghost declared = db@;
        assert(declared.records =~= before.records.push(service_declaration(service.uuid)));
        assert(declared.service_idxs =~= before.service_idxs.push(service_start(ss, s as int)));
        assert(declared.char_idx_map =~= before.char_idx_map);
        assert(declared.read_handlers =~= before.read_handlers);
        assert(declared.write_handlers =~= before.write_handlers);
        match push_characteristics(&mut db, &service.characteristics) {
            Some((c, Access::Read)) => {
                return Err(BuildError::MissingReadHandler { service: s, characteristic: c });
            },
            Some((c, Access::Write)) => {
                return Err(BuildError::MissingWriteHandler { service: s, characteristic: c });
            },
            None => {},
        }
        proof {
            lemma_table_step(ss, s as int);
            assert(db@.records =~= table_records(ss.take(s + 1)));
            assert forall|i: int, j: int|
                0 <= i < ss.len() && 0 <= j < ss[i].characteristics.len() && (i < s + 1 || (i == s
                    + 1 && j < 0)) implies (#[trigger] ss[i].characteristics[j]).missing_handler().is_none() by {
                if i < s {
                    assert(i < s || (i == s && j < 0));
                }
            }
        }
        s += 1;
    }
    db.service_idxs.push(db.records.len());
    proof {
        assert(ss.take(s as int) =~= ss);
        assert(db@.service_idxs =~= service_starts(ss));
    }
    Ok(db)
}

} // verus!
