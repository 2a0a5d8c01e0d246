//! The declarative model: services, their characteristics, and the values
//! that describe them.

use crate::permissions::Permissions;
use vstd::prelude::*;

verus! {

/// Identifier of a service or characteristic.
#[derive(Debug, Clone, Copy, PartialEq, Eq)]
pub enum Uuid {
    Uuid16(u16),
    Uuid128([u8; 16]),
}

impl Uuid {
    /// The bytes of the identifier as they lie in the attribute table:
    /// a 16-bit value with its low byte first, a 128-bit value as given.
    pub open spec fn spec_bytes(self) -> Seq<u8> {
        match self {
            Uuid::Uuid16(v) => seq![(v % 256) as u8, (v / 256) as u8],
            Uuid::Uuid128(b) => b@,
        }
    }

    /// The bytes of the identifier as they lie in the attribute table.
    pub fn to_bytes(&self) -> (r: Vec<u8>)
        ensures
            r@ == self.spec_bytes(),
    {
        let mut out: Vec<u8> = Vec::new();
        match self {
            Uuid::Uuid16(v) => {
                out.push((*v % 256) as u8);
                out.push((*v / 256) as u8);
                assert(out@ =~= self.spec_bytes());
            },
            Uuid::Uuid128(b) => {
                let mut i: usize = 0;
                while i < 16
                    invariant
                        i <= 16,
                        out@ =~= b@.take(i as int),
                    decreases 16 - i,
                {
                    out.push(b[i]);
                    i += 1;
                }
                assert(b@.take(16) =~= b@);
            },
        }
        out
    }
}

/// Maximum length of a characteristic's value: a number, or the path of
/// a constant that the surrounding build resolves.
#[derive(Debug, Clone)]
pub enum CharacteristicLength {
    Int(u16),
    Path(String),
}

/// Maximum length of a characteristic's value.
pub enum CharacteristicLengthView {
    Int(u16),
    Path(Seq<char>),
}

impl View for CharacteristicLength {
    type V = CharacteristicLengthView;

    open spec fn view(&self) -> CharacteristicLengthView {
        match self {
            CharacteristicLength::Int(n) => CharacteristicLengthView::Int(*n),
            CharacteristicLength::Path(p) => CharacteristicLengthView::Path(p@),
        }
    }
}

/// One characteristic of a service.
#[derive(Debug, Clone)]
pub struct Characteristic {
    pub name: String,
    pub permissions: Permissions,
    pub uuid: Uuid,
    pub length: CharacteristicLength,
    pub user_description: Option<String>,
    pub write_handler: Option<String>,
    pub read_handler: Option<String>,
}

/// One characteristic, with its texts as characters.
pub struct CharacteristicView {
    pub name: Seq<char>,
    pub permissions: Permissions,
    pub uuid: Uuid,
    pub length: CharacteristicLengthView,
    pub user_description: Option<Seq<char>>,
    pub write_handler: Option<Seq<char>>,
    pub read_handler: Option<Seq<char>>,
}

/// The characters of an optional string.
pub open spec fn text_view(s: Option<String>) -> Option<Seq<char>> {
    match s {
        Some(s) => Some(s@),
        None => None,
    }
}

impl View for Characteristic {
    type V = CharacteristicView;

    open spec fn view(&self) -> CharacteristicView {
        CharacteristicView {
            name: self.name@,
            permissions: self.permissions,
            uuid: self.uuid,
            length: self.length@,
            user_description: text_view(self.user_description),
            write_handler: text_view(self.write_handler),
            read_handler: text_view(self.read_handler),
        }
    }
}

/// The two kinds of access that are routed to handlers.
#[derive(Debug, Clone, Copy, PartialEq, Eq, Structural)]
pub enum Access {
    Read,
    Write,
}

impl CharacteristicView {
    /// The handler that the permissions call for and the characteristic
    /// does not have; the read handler is looked at first.
    pub open spec fn missing_handler(self) -> Option<Access> {
        if self.permissions.spec_is_readable() && self.read_handler.is_none() {
            Some(Access::Read)
        } else if self.permissions.spec_is_writable() && self.write_handler.is_none() {
            Some(Access::Write)
        } else {
            None
        }
    }

    /// Whether the permissions grant this kind of access at any level.
    pub open spec fn grants(self, access: Access) -> bool {
        match access {
            Access::Read => self.permissions.spec_is_readable(),
            Access::Write => self.permissions.spec_is_writable(),
        }
    }

    /// The handler named for this kind of access, if any.
    pub open spec fn handler(self, access: Access) -> Option<Seq<char>> {
        match access {
            Access::Read => self.read_handler,
            Access::Write => self.write_handler,
        }
    }

    /// Whether this kind of access to the value is routed to a handler.
    pub open spec fn routes(self, access: Access) -> bool {
        self.grants(access) && self.handler(access).is_some()
    }
}

impl Characteristic {
    /// Checks that every access the permissions grant has its handler.
    pub fn missing_handler(&self) -> (r: Option<Access>)
        ensures
            r == self@.missing_handler(),
    {
        if self.permissions.is_readable() && self.read_handler.is_none() {
            Some(Access::Read)
        } else if self.permissions.is_writable() && self.write_handler.is_none() {
            Some(Access::Write)
        } else {
            None
        }
    }
}

/// A service: its identifier and its characteristics in declaration order.
#[derive(Debug, Clone)]
pub struct Service {
    pub name: String,
    pub characteristics: Vec<Characteristic>,
    pub uuid: Uuid,
}

/// One service, with its texts as characters.
pub struct ServiceView {
    pub name: Seq<char>,
    pub characteristics: Seq<CharacteristicView>,
    pub uuid: Uuid,
}

/// The views of a sequence of characteristics, in order.
pub open spec fn characteristics_view(cs: Seq<Characteristic>) -> Seq<CharacteristicView> {
    Seq::new(cs.len(), |i: int| cs[i]@)
}

/// The views of a sequence of services, in order.
pub open spec fn services_view(ss: Seq<Service>) -> Seq<ServiceView> {
    Seq::new(ss.len(), |i: int| ss[i]@)
}

impl View for Service {
    type V = ServiceView;

    open spec fn view(&self) -> ServiceView {
        ServiceView {
            name: self.name@,
            characteristics: characteristics_view(self.characteristics@),
            uuid: self.uuid,
        }
    }
}

} // verus!
