//! The layout of the attribute table, stated over the views of the model:
//! which records a declaration gives, and at which index each one lies.

use crate::model::{Access, CharacteristicLengthView, CharacteristicView, ServiceView, Uuid};
use crate::permissions::Permissions;
use vstd::prelude::*;
use vstd::utf8::encode_utf8;

verus! {

/// Attribute type of a primary service declaration.
pub const ATT_DECL_PRIMARY_SERVICE: u16 = 0x2800;

/// Attribute type of a characteristic declaration.
pub const ATT_DECL_CHARACTERISTIC: u16 = 0x2803;

/// Attribute type of a characteristic user description.
pub const ATT_DESC_CHAR_USER_DESCRIPTION: u16 = 0x2901;

/// Width in bytes of a 16-bit UUID.
pub const ATT_UUID_16_LEN: u8 = 2;

/// Bit of `max_length` that asks the stack to hand reads and writes of the
/// value to the application.
pub const TRIGGER_READ_WRITE_INDICATION: u16 = 0x8000;

/// Maximum length of an attribute's value.
pub enum MaxLengthView {
    /// A length known now.
    Fixed(u16),
    /// A length that the surrounding build resolves, with or without the
    /// trigger bit set on it.
    Deferred { trigger: bool, path: Seq<char> },
}

/// Initial value of an attribute.
pub enum AttributeValueView {
    Null,
    Uuid(Uuid),
    Bytes(Seq<u8>),
}

/// One row of the attribute table.
pub struct AttributeRecordView {
    pub uuid: Uuid,
    pub uuid_size: u8,
    pub perm: u32,
    pub max_length: MaxLengthView,
    pub length: u16,
    pub value: AttributeValueView,
}

/// The word of the fixed read-only permission.
pub open spec fn read_only_bits() -> u32 {
    Permissions::spec_read_only().spec_bits() as u32
}

/// The record that declares a primary service.
pub open spec fn service_declaration(uuid: Uuid) -> AttributeRecordView {
    AttributeRecordView {
        uuid: Uuid::Uuid16(ATT_DECL_PRIMARY_SERVICE),
        uuid_size: ATT_UUID_16_LEN,
        perm: read_only_bits(),
        max_length: MaxLengthView::Fixed(2),
        length: 2,
        value: AttributeValueView::Uuid(uuid),
    }
}

/// The record that declares a characteristic.
pub open spec fn characteristic_declaration() -> AttributeRecordView {
    AttributeRecordView {
        uuid: Uuid::Uuid16(ATT_DECL_CHARACTERISTIC),
        uuid_size: ATT_UUID_16_LEN,
        perm: read_only_bits(),
        max_length: MaxLengthView::Fixed(0),
        length: 0,
        value: AttributeValueView::Null,
    }
}

/// The maximum length of a value record: the configured length, with the
/// trigger bit where the value is routed to a handler.
pub open spec fn value_max_length(length: CharacteristicLengthView, trigger: bool) -> MaxLengthView {
    match length {
        CharacteristicLengthView::Int(n) => MaxLengthView::Fixed(
            if trigger {
                TRIGGER_READ_WRITE_INDICATION | n
            } else {
                n
            },
        ),
        CharacteristicLengthView::Path(p) => MaxLengthView::Deferred { trigger, path: p },
    }
}

/// The record that holds a characteristic's value.
pub open spec fn characteristic_value(c: CharacteristicView) -> AttributeRecordView {
    AttributeRecordView {
        uuid: c.uuid,
        uuid_size: ATT_UUID_16_LEN,
        perm: c.permissions.spec_bits() as u32,
        max_length: value_max_length(c.length, c.routes(Access::Read) || c.routes(Access::Write)),
        length: 0,
        value: AttributeValueView::Null,
    }
}

/// The record that holds a characteristic's user description. The two
/// length fields are 16 bits wide and hold the byte length modulo 65536.
pub open spec fn user_description(text: Seq<char>) -> AttributeRecordView {
    let bytes = encode_utf8(text);
    AttributeRecordView {
        uuid: Uuid::Uuid16(ATT_DESC_CHAR_USER_DESCRIPTION),
        uuid_size: ATT_UUID_16_LEN,
        perm: read_only_bits(),
        max_length: MaxLengthView::Fixed((bytes.len() % 65536) as u16),
        length: (bytes.len() % 65536) as u16,
        value: AttributeValueView::Bytes(bytes),
    }
}

/// The records of one characteristic: declaration, value, and the user
/// description if there is one.
pub open spec fn characteristic_records(c: CharacteristicView) -> Seq<AttributeRecordView> {
    match c.user_description {
        Some(text) => seq![
            characteristic_declaration(),
            characteristic_value(c),
            user_description(text),
        ],
        None => seq![characteristic_declaration(), characteristic_value(c)],
    }
}

/// The number of records of one characteristic.
pub open spec fn characteristic_record_count(c: CharacteristicView) -> nat {
    if c.user_description.is_some() {
        3
    } else {
        2
    }
}

/// The records of a run of characteristics, in declaration order.
pub open spec fn characteristics_records(cs: Seq<CharacteristicView>) -> Seq<AttributeRecordView>
    decreases cs.len(),
{
    if cs.len() == 0 {
        Seq::empty()
    } else {
        characteristics_records(cs.drop_last()) + characteristic_records(cs.last())
    }
}

/// The records of one service: its declaration, then its characteristics.
pub open spec fn service_records(s: ServiceView) -> Seq<AttributeRecordView> {
    seq![service_declaration(s.uuid)] + characteristics_records(s.characteristics)
}

/// The whole table: the records of every service, in declaration order.
pub open spec fn table_records(ss: Seq<ServiceView>) -> Seq<AttributeRecordView>
    decreases ss.len(),
{
    if ss.len() == 0 {
        Seq::empty()
    } else {
        table_records(ss.drop_last()) + service_records(ss.last())
    }
}

/// Index of the declaration record of service `s`; for `s == ss.len()`,
/// the number of records in the table.
pub open spec fn service_start(ss: Seq<ServiceView>, s: int) -> int
    recommends
        0 <= s <= ss.len(),
{
    table_records(ss.take(s)).len() as int
}

/// The list of start indices: one per service, then the record count.
pub open spec fn service_starts(ss: Seq<ServiceView>) -> Seq<int> {
    Seq::new(ss.len() + 1, |s: int| service_start(ss, s))
}

/// Index of the value record of characteristic `c` among characteristics
/// whose first record lies at index `base`.
pub open spec fn value_index_from(cs: Seq<CharacteristicView>, base: int, c: int) -> int
    recommends
        0 <= c < cs.len(),
{
    base + characteristics_records(cs.take(c)).len() + 1
}

/// Index of the value record of characteristic `c` of service `s`.
pub open spec fn value_index(ss: Seq<ServiceView>, s: int, c: int) -> int
    recommends
        0 <= s < ss.len(),
        0 <= c < ss[s].characteristics.len(),
{
    value_index_from(ss[s].characteristics, service_start(ss, s) + 1, c)
}

/// Name and value index of each characteristic of a run.
pub open spec fn characteristics_names(cs: Seq<CharacteristicView>, base: int) -> Seq<
    (Seq<char>, int),
> {
    Seq::new(cs.len(), |c: int| (cs[c].name, value_index_from(cs, base, c)))
}

/// Name and value index of every characteristic, in declaration order.
pub open spec fn table_names(ss: Seq<ServiceView>) -> Seq<(Seq<char>, int)>
    decreases ss.len(),
{
    if ss.len() == 0 {
        Seq::empty()
    } else {
        table_names(ss.drop_last()) + characteristics_names(
            ss.last().characteristics,
            service_start(ss, ss.len() - 1) + 1,
        )
    }
}

/// A dispatch list with one more entry, where `on` holds.
pub open spec fn routed(
    list: Seq<(int, Seq<char>)>,
    on: bool,
    index: int,
    handler: Option<Seq<char>>,
) -> Seq<(int, Seq<char>)> {
    if on && handler.is_some() {
        list.push((index, handler.unwrap()))
    } else {
        list
    }
}

/// The dispatch list of a run of characteristics for one kind of access:
/// value index and handler of each characteristic that routes it.
pub open spec fn characteristics_dispatch(
    cs: Seq<CharacteristicView>,
    base: int,
    access: Access,
) -> Seq<(int, Seq<char>)>
    decreases cs.len(),
{
    if cs.len() == 0 {
        Seq::empty()
    } else {
        routed(
            characteristics_dispatch(cs.drop_last(), base, access),
            cs.last().grants(access),
            value_index_from(cs, base, cs.len() - 1),
            cs.last().handler(access),
        )
    }
}

/// The dispatch list of the whole table for one kind of access.
pub open spec fn table_dispatch(ss: Seq<ServiceView>, access: Access) -> Seq<(int, Seq<char>)>
    decreases ss.len(),
{
    if ss.len() == 0 {
        Seq::empty()
    } else {
        table_dispatch(ss.drop_last(), access) + characteristics_dispatch(
            ss.last().characteristics,
            service_start(ss, ss.len() - 1) + 1,
            access,
        )
    }
}

/// No characteristic before characteristic `c` of service `s`, in
/// declaration order, lacks a handler.
pub open spec fn complete_before(ss: Seq<ServiceView>, s: int, c: int) -> bool {
    forall|i: int, j: int|
        0 <= i < ss.len() && 0 <= j < ss[i].characteristics.len() && (i < s || (i == s && j < c))
            ==> (#[trigger] ss[i].characteristics[j]).missing_handler().is_none()
}

/// Every characteristic has the handlers that its permissions call for.
pub open spec fn complete(ss: Seq<ServiceView>) -> bool {
    complete_before(ss, ss.len() as int, 0)
}

/// The attribute table with its start indices, name map and dispatch
/// lists.
pub struct CompiledDatabaseView {
    pub records: Seq<AttributeRecordView>,
    pub service_idxs: Seq<int>,
    pub char_idx_map: Seq<(Seq<char>, int)>,
    pub read_handlers: Seq<(int, Seq<char>)>,
    pub write_handlers: Seq<(int, Seq<char>)>,
}

/// What a complete list of services compiles to.
pub open spec fn compiled(ss: Seq<ServiceView>) -> CompiledDatabaseView {
    CompiledDatabaseView {
        records: table_records(ss),
        service_idxs: service_starts(ss),
        char_idx_map: table_names(ss),
        read_handlers: table_dispatch(ss, Access::Read),
        write_handlers: table_dispatch(ss, Access::Write),
    }
}

/// What one more characteristic adds to the records and dispatch lists of
/// the characteristics before it.
pub proof fn lemma_characteristics_step(cs: Seq<CharacteristicView>, base: int, c: int)
    requires
        0 <= c < cs.len(),
    ensures
        characteristics_records(cs.take(c + 1)) == characteristics_records(cs.take(c))
            + characteristic_records(cs[c]),
        forall|access: Access| #[trigger]
            characteristics_dispatch(cs.take(c + 1), base, access) == routed(
                characteristics_dispatch(cs.take(c), base, access),
                cs[c].grants(access),
                value_index_from(cs, base, c),
                cs[c].handler(access),
            ),
{
    let next = cs.take(c + 1);
    assert(next.drop_last() =~= cs.take(c));
    assert(next.take(c) =~= cs.take(c));
    assert(next.last() == cs[c]);
    assert(value_index_from(next, base, c) == value_index_from(cs, base, c));
}

/// What one more service adds to the table of the services before it.
pub proof fn lemma_table_step(ss: Seq<ServiceView>, s: int)
    requires
        0 <= s < ss.len(),
    ensures
        table_records(ss.take(s + 1)) == table_records(ss.take(s)) + service_records(ss[s]),
        table_names(ss.take(s + 1)) == table_names(ss.take(s)) + characteristics_names(
            ss[s].characteristics,
            service_start(ss, s) + 1,
        ),
        forall|access: Access| #[trigger]
            table_dispatch(ss.take(s + 1), access) == table_dispatch(ss.take(s), access)
                + characteristics_dispatch(
                ss[s].characteristics,
                service_start(ss, s) + 1,
                access,
            ),
{
    let next = ss.take(s + 1);
    assert(next.drop_last() =~= ss.take(s));
    assert(next.take(s) =~= ss.take(s));
    assert(next.last() == ss[s]);
    assert(service_start(next, s) == service_start(ss, s));
}

} // verus!
