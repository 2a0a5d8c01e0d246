//! Attribute permissions and their packed 32-bit encoding.
//!
//! The permission word is laid out as follows (bit 0 is the least significant):
//!
//! | bits  | field                              |
//! |-------|------------------------------------|
//! | 0-2   | read level                         |
//! | 3-5   | write level                        |
//! | 6-8   | indication level                   |
//! | 9-11  | notification level                 |
//! | 12    | extended properties present        |
//! | 13    | broadcast permission               |
//! | 14    | 16-byte encryption key required    |
//! | 15    | write command accepted             |
//! | 16    | write signed accepted              |
//! | 17    | write request accepted             |
//! | 18-19 | UUID length class                  |

use vstd::prelude::*;

verus! {

/// Privilege level required to perform one kind of access.
#[derive(Debug, Clone, Copy, PartialEq, Eq, Structural, PartialOrd)]
pub enum PermissionVariants {
    Disabled,
    Enabled,
    Unauth,
    Auth,
    Secure,
}

impl PermissionVariants {
    /// The number that stands for this level in the permission word.
    pub open spec fn level(self) -> nat {
        match self {
            PermissionVariants::Disabled => 0,
            PermissionVariants::Enabled => 1,
            PermissionVariants::Unauth => 2,
            PermissionVariants::Auth => 3,
            PermissionVariants::Secure => 4,
        }
    }

    /// The level that a number stands for, if any.
    pub open spec fn spec_from_level(level: nat) -> Option<PermissionVariants> {
        if level == 0 {
            Some(PermissionVariants::Disabled)
        } else if level == 1 {
            Some(PermissionVariants::Enabled)
        } else if level == 2 {
            Some(PermissionVariants::Unauth)
        } else if level == 3 {
            Some(PermissionVariants::Auth)
        } else if level == 4 {
            Some(PermissionVariants::Secure)
        } else {
            None
        }
    }

    /// A level is the level that its number stands for.
    pub proof fn lemma_level_round_trip(self)
        ensures
            Self::spec_from_level(self.level()) == Some(self),
            self.level() <= 4,
    {
    }

    /// The number that stands for this level in the permission word.
    pub fn to_level(self) -> (n: u32)
        ensures
            n == self.level(),
    {
        match self {
            PermissionVariants::Disabled => 0,
            PermissionVariants::Enabled => 1,
            PermissionVariants::Unauth => 2,
            PermissionVariants::Auth => 3,
            PermissionVariants::Secure => 4,
        }
    }

    /// The level that a number stands for, if any.
    pub fn from_level(level: u32) -> (r: Option<PermissionVariants>)
        ensures
            r == Self::spec_from_level(level as nat),
    {
        if level == 0 {
            Some(PermissionVariants::Disabled)
        } else if level == 1 {
            Some(PermissionVariants::Enabled)
        } else if level == 2 {
            Some(PermissionVariants::Unauth)
        } else if level == 3 {
            Some(PermissionVariants::Auth)
        } else if level == 4 {
            Some(PermissionVariants::Secure)
        } else {
            None
        }
    }
}

impl Default for PermissionVariants {
    fn default() -> (r: Self)
        ensures
            r == PermissionVariants::Disabled,
    {
        PermissionVariants::Disabled
    }
}

/// Width class of the UUID that an attribute carries.
#[derive(Debug, Clone, Copy, PartialEq, Eq, Structural, PartialOrd)]
pub enum UuidLength {
    L16,
    L32,
    L128,
    RFU,
}

impl UuidLength {
    /// The number that stands for this class in the permission word.
    pub open spec fn class(self) -> nat {
        match self {
            UuidLength::L16 => 0,
            UuidLength::L32 => 1,
            UuidLength::L128 => 2,
            UuidLength::RFU => 3,
        }
    }

    /// The class that a two-bit number stands for.
    pub open spec fn spec_from_class(class: nat) -> UuidLength {
        if class == 0 {
            UuidLength::L16
        } else if class == 1 {
            UuidLength::L32
        } else if class == 2 {
            UuidLength::L128
        } else {
            UuidLength::RFU
        }
    }

    /// The number that stands for this class in the permission word.
    pub fn to_class(self) -> (n: u32)
        ensures
            n == self.class(),
    {
        match self {
            UuidLength::L16 => 0,
            UuidLength::L32 => 1,
            UuidLength::L128 => 2,
            UuidLength::RFU => 3,
        }
    }

    /// The class that a number stands for; any number above 2 is reserved.
    pub fn from_class(class: u32) -> (r: UuidLength)
        ensures
            r == Self::spec_from_class(class as nat),
    {
        if class == 0 {
            UuidLength::L16
        } else if class == 1 {
            UuidLength::L32
        } else if class == 2 {
            UuidLength::L128
        } else {
            UuidLength::RFU
        }
    }
}

impl Default for UuidLength {
    fn default() -> (r: Self)
        ensures
            r == UuidLength::L16,
    {
        UuidLength::L16
    }
}

/// The permissions of one attribute.
#[derive(Debug, Clone, Copy, PartialEq, Eq, Structural)]
pub struct Permissions {
    pub read: PermissionVariants,
    pub write: PermissionVariants,
    pub indication: PermissionVariants,
    pub notification: PermissionVariants,
    pub extended_properties_present: bool,
    pub broadcast_permission: bool,
    pub encryption_key_length_16_bytes: bool,
    pub write_command_accepted: bool,
    pub write_signed_accepted: bool,
    pub write_request_accepted: bool,
    pub uuid_length: UuidLength,
}

/// One or zero, for a flag that is set or clear.
pub open spec fn flag_bit(flag: bool) -> nat {
    if flag {
        1
    } else {
        0
    }
}

/// The `width`-bit field that starts at bit `offset` of `bits`, where
/// `weight` is two to the power `offset` and `span` two to the power `width`.
#[verifier::opaque]
pub open spec fn field(bits: nat, weight: nat, span: nat) -> nat
    recommends
        weight > 0,
        span > 0,
{
    (bits / weight) % span
}

fn flag_to_bit(flag: bool) -> (n: u32)
    ensures
        n == flag_bit(flag),
{
    if flag {
        1
    } else {
        0
    }
}

/// The sum that places each field at its offset in the permission word.
#[verifier::opaque]
pub open spec fn packed(
    r: nat,
    w: nat,
    i: nat,
    n: nat,
    e: nat,
    b: nat,
    k: nat,
    c: nat,
    s: nat,
    q: nat,
    u: nat,
) -> nat {
    r + 8 * w + 64 * i + 512 * n + 4096 * e + 8192 * b + 16384 * k + 32768 * c + 65536 * s + 131072
        * q + 262144 * u
}

fn pack(r: u32, w: u32, i: u32, n: u32, e: u32, b: u32, k: u32, c: u32, s: u32, q: u32, u: u32) -> (bits: u32)
    requires
        r < 8,
        w < 8,
        i < 8,
        n < 8,
        e < 2,
        b < 2,
        k < 2,
        c < 2,
        s < 2,
        q < 2,
        u < 4,
    ensures
        bits == packed(
            r as nat,
            w as nat,
            i as nat,
            n as nat,
            e as nat,
            b as nat,
            k as nat,
            c as nat,
            s as nat,
            q as nat,
            u as nat,
        ),
        bits < 1048576,
{
    reveal(packed);
    let b0: u32 = r | (w << 3);
    assert(b0 == r + 8 * w) by (bit_vector)
        requires
            b0 == r | (w << 3),
            r < 8,
            w < 8,
    ;
    let b1: u32 = b0 | (i << 6);
    assert(b1 == b0 + 64 * i) by (bit_vector)
        requires
            b1 == b0 | (i << 6),
            b0 < 64,
            i < 8,
    ;
    let b2: u32 = b1 | (n << 9);
    assert(b2 == b1 + 512 * n) by (bit_vector)
        requires
            b2 == b1 | (n << 9),
            b1 < 512,
            n < 8,
    ;
    let b3: u32 = b2 | (e << 12);
    assert(b3 == b2 + 4096 * e) by (bit_vector)
        requires
            b3 == b2 | (e << 12),
            b2 < 4096,
            e < 2,
    ;
    let b4: u32 = b3 | (b << 13);
    assert(b4 == b3 + 8192 * b) by (bit_vector)
        requires
            b4 == b3 | (b << 13),
            b3 < 8192,
            b < 2,
    ;
    let b5: u32 = b4 | (k << 14);
    assert(b5 == b4 + 16384 * k) by (bit_vector)
        requires
            b5 == b4 | (k << 14),
            b4 < 16384,
            k < 2,
    ;
    let b6: u32 = b5 | (c << 15);
    assert(b6 == b5 + 32768 * c) by (bit_vector)
        requires
            b6 == b5 | (c << 15),
            b5 < 32768,
            c < 2,
    ;
    let b7: u32 = b6 | (s << 16);
    assert(b7 == b6 + 65536 * s) by (bit_vector)
        requires
            b7 == b6 | (s << 16),
            b6 < 65536,
            s < 2,
    ;
    let b8: u32 = b7 | (q << 17);
    assert(b8 == b7 + 131072 * q) by (bit_vector)
        requires
            b8 == b7 | (q << 17),
            b7 < 131072,
            q < 2,
    ;
    let bits: u32 = b8 | (u << 18);
    assert(bits == b8 + 262144 * u) by (bit_vector)
        requires
            bits == b8 | (u << 18),
            b8 < 262144,
            u < 4,
    ;
    bits
}

/// Each field of a packed word is the number that was placed there.
proof fn lemma_fields_of_packed(
    r: nat,
    w: nat,
    i: nat,
    n: nat,
    e: nat,
    b: nat,
    k: nat,
    c: nat,
    s: nat,
    q: nat,
    u: nat,
)
    requires
        r < 8,
        w < 8,
        i < 8,
        n < 8,
        e < 2,
        b < 2,
        k < 2,
        c < 2,
        s < 2,
        q < 2,
        u < 4,
    ensures
        ({
            let bits = packed(r, w, i, n, e, b, k, c, s, q, u);
            &&& bits < 1048576
            &&& field(bits, 1, 8) == r
            &&& field(bits, 8, 8) == w
            &&& field(bits, 64, 8) == i
            &&& field(bits, 512, 8) == n
            &&& field(bits, 4096, 2) == e
            &&& field(bits, 8192, 2) == b
            &&& field(bits, 16384, 2) == k
            &&& field(bits, 32768, 2) == c
            &&& field(bits, 65536, 2) == s
            &&& field(bits, 131072, 2) == q
            &&& field(bits, 262144, 4) == u
        }),
{
    reveal(packed);
    reveal(field);
    let bits = packed(r, w, i, n, e, b, k, c, s, q, u);
    let t9 = q + 2 * u;
    let t8 = s + 2 * t9;
    let t7 = c + 2 * t8;
    let t6 = k + 2 * t7;
    let t5 = b + 2 * t6;
    let t4 = e + 2 * t5;
    let t3 = n + 8 * t4;
    let t2 = i + 8 * t3;
    let t1 = w + 8 * t2;
    assert(bits == r + 8 * t1);
    assert(bits / 8 == t1 && bits % 8 == r);
    assert(bits / 64 == t2 && t1 % 8 == w);
    assert(bits / 512 == t3 && t2 % 8 == i);
    assert(bits / 4096 == t4 && t3 % 8 == n);
    assert(bits / 8192 == t5 && t4 % 2 == e);
    assert(bits / 16384 == t6 && t5 % 2 == b);
    assert(bits / 32768 == t7 && t6 % 2 == k);
    assert(bits / 65536 == t8 && t7 % 2 == c);
    assert(bits / 131072 == t9 && t8 % 2 == s);
    assert(bits / 262144 == u && t9 % 2 == q);
}

impl Permissions {
    /// Everything disabled, every flag clear, 16-bit UUID class.
    pub open spec fn spec_default() -> Permissions {
        Permissions {
            read: PermissionVariants::Disabled,
            write: PermissionVariants::Disabled,
            indication: PermissionVariants::Disabled,
            notification: PermissionVariants::Disabled,
            extended_properties_present: false,
            broadcast_permission: false,
            encryption_key_length_16_bytes: false,
            write_command_accepted: false,
            write_signed_accepted: false,
            write_request_accepted: false,
            uuid_length: UuidLength::L16,
        }
    }

    /// Read access at level `Enabled` and nothing else: the permission of
    /// every declaration and description record.
    pub open spec fn spec_read_only() -> Permissions {
        Permissions { read: PermissionVariants::Enabled, ..Self::spec_default() }
    }

    /// The permission word: each field at its place in the layout.
    pub open spec fn spec_bits(self) -> nat {
        packed(
            self.read.level(),
            self.write.level(),
            self.indication.level(),
            self.notification.level(),
            flag_bit(self.extended_properties_present),
            flag_bit(self.broadcast_permission),
            flag_bit(self.encryption_key_length_16_bytes),
            flag_bit(self.write_command_accepted),
            flag_bit(self.write_signed_accepted),
            flag_bit(self.write_request_accepted),
            self.uuid_length.class(),
        )
    }

    /// The permissions that a word stands for: `None` where bits above
    /// bit 19 are set or a level field holds a number above 4.
    pub open spec fn spec_from_bits(bits: nat) -> Option<Permissions> {
        let read = PermissionVariants::spec_from_level(field(bits, 1, 8));
        let write = PermissionVariants::spec_from_level(field(bits, 8, 8));
        let indication = PermissionVariants::spec_from_level(field(bits, 64, 8));
        let notification = PermissionVariants::spec_from_level(field(bits, 512, 8));
        if bits >= 1048576 || read.is_none() || write.is_none() || indication.is_none()
            || notification.is_none() {
            None
        } else {
            Some(
                Permissions {
                    read: read.unwrap(),
                    write: write.unwrap(),
                    indication: indication.unwrap(),
                    notification: notification.unwrap(),
                    extended_properties_present: field(bits, 4096, 2) == 1,
                    broadcast_permission: field(bits, 8192, 2) == 1,
                    encryption_key_length_16_bytes: field(bits, 16384, 2) == 1,
                    write_command_accepted: field(bits, 32768, 2) == 1,
                    write_signed_accepted: field(bits, 65536, 2) == 1,
                    write_request_accepted: field(bits, 131072, 2) == 1,
                    uuid_length: UuidLength::spec_from_class(field(bits, 262144, 4)),
                },
            )
        }
    }

    /// Read access at level `Enabled` and nothing else.
    pub fn read_only() -> (r: Permissions)
        ensures
            r == Self::spec_read_only(),
    {
        Permissions {
            read: PermissionVariants::Enabled,
            write: PermissionVariants::Disabled,
            indication: PermissionVariants::Disabled,
            notification: PermissionVariants::Disabled,
            extended_properties_present: false,
            broadcast_permission: false,
            encryption_key_length_16_bytes: false,
            write_command_accepted: false,
            write_signed_accepted: false,
            write_request_accepted: false,
            uuid_length: UuidLength::L16,
        }
    }

    /// Packs the permissions into the permission word.
    pub fn get_bits(&self) -> (bits: u32)
        ensures
            bits == self.spec_bits(),
            bits < 1048576,
    {
        pack(
            self.read.to_level(),
            self.write.to_level(),
            self.indication.to_level(),
            self.notification.to_level(),
            flag_to_bit(self.extended_properties_present),
            flag_to_bit(self.broadcast_permission),
            flag_to_bit(self.encryption_key_length_16_bytes),
            flag_to_bit(self.write_command_accepted),
            flag_to_bit(self.write_signed_accepted),
            flag_to_bit(self.write_request_accepted),
            self.uuid_length.to_class(),
        )
    }

    /// Unpacks a permission word.
    pub fn from_bits(bits: u32) -> (r: Option<Permissions>)
        ensures
            r == Self::spec_from_bits(bits as nat),
    {
        proof {
            reveal(field);
        }
        if bits >= 1048576 {
            return None;
        }
        let read = PermissionVariants::from_level(bits % 8);
        let write = PermissionVariants::from_level((bits / 8) % 8);
        let indication = PermissionVariants::from_level((bits / 64) % 8);
        let notification = PermissionVariants::from_level((bits / 512) % 8);
        match (read, write, indication, notification) {
            (Some(read), Some(write), Some(indication), Some(notification)) => Some(
                Permissions {
                    read,
                    write,
                    indication,
                    notification,
                    extended_properties_present: (bits / 4096) % 2 == 1,
                    broadcast_permission: (bits / 8192) % 2 == 1,
                    encryption_key_length_16_bytes: (bits / 16384) % 2 == 1,
                    write_command_accepted: (bits / 32768) % 2 == 1,
                    write_signed_accepted: (bits / 65536) % 2 == 1,
                    write_request_accepted: (bits / 131072) % 2 == 1,
                    uuid_length: UuidLength::from_class((bits / 262144) % 4),
                },
            ),
            _ => None,
        }
    }

    /// Read access is granted at some level.
    pub open spec fn spec_is_readable(self) -> bool {
        self.read != PermissionVariants::Disabled
    }

    /// Write access is granted at some level.
    pub open spec fn spec_is_writable(self) -> bool {
        self.write != PermissionVariants::Disabled
    }

    /// Whether read access is granted at any level.
    pub fn is_readable(&self) -> (r: bool)
        ensures
            r == self.spec_is_readable(),
    {
        self.read != PermissionVariants::Disabled
    }

    /// Whether write access is granted at any level.
    pub fn is_writable(&self) -> (r: bool)
        ensures
            r == self.spec_is_writable(),
    {
        self.write != PermissionVariants::Disabled
    }

    /// Decoding the word of any permissions gives those permissions back.
    pub proof fn lemma_decode_encode(self)
        ensures
            Self::spec_from_bits(self.spec_bits()) == Some(self),
    {
        let bits = self.spec_bits();
        lemma_fields_of_packed(
            self.read.level(),
            self.write.level(),
            self.indication.level(),
            self.notification.level(),
            flag_bit(self.extended_properties_present),
            flag_bit(self.broadcast_permission),
            flag_bit(self.encryption_key_length_16_bytes),
            flag_bit(self.write_command_accepted),
            flag_bit(self.write_signed_accepted),
            flag_bit(self.write_request_accepted),
            self.uuid_length.class(),
        );
        self.read.lemma_level_round_trip();
        self.write.lemma_level_round_trip();
        self.indication.lemma_level_round_trip();
        self.notification.lemma_level_round_trip();
        let decoded = Self::spec_from_bits(bits);
        assert(decoded.is_some());
        let d = decoded.unwrap();
        assert(d.read == self.read);
        assert(d.write == self.write);
        assert(d.indication == self.indication);
        assert(d.notification == self.notification);
        assert(d.extended_properties_present == self.extended_properties_present);
        assert(d.broadcast_permission == self.broadcast_permission);
        assert(d.encryption_key_length_16_bytes == self.encryption_key_length_16_bytes);
        assert(d.write_command_accepted == self.write_command_accepted);
        assert(d.write_signed_accepted == self.write_signed_accepted);
        assert(d.write_request_accepted == self.write_request_accepted);
        assert(d.uuid_length == self.uuid_length);
    }

    /// A word below two to the power 20 is the sum of its fields.
    proof fn lemma_sum_of_fields(bits: nat)
        requires
            bits < 1048576,
        ensures
            bits == field(bits, 1, 8) + 8 * field(bits, 8, 8) + 64 * field(bits, 64, 8) + 512
                * field(bits, 512, 8) + 4096 * field(bits, 4096, 2) + 8192 * field(bits, 8192, 2)
                + 16384 * field(bits, 16384, 2) + 32768 * field(bits, 32768, 2) + 65536 * field(
                bits,
                65536,
                2,
            ) + 131072 * field(bits, 131072, 2) + 262144 * field(bits, 262144, 4),
    {
        reveal(field);
        let q1 = bits / 8;
        let q2 = bits / 64;
        let q3 = bits / 512;
        let q4 = bits / 4096;
        let q5 = bits / 8192;
        let q6 = bits / 16384;
        let q7 = bits / 32768;
        let q8 = bits / 65536;
        let q9 = bits / 131072;
        let q10 = bits / 262144;
        assert(bits == bits % 8 + 8 * q1);
        assert(q1 / 8 == q2 && q1 == q1 % 8 + 8 * q2);
        assert(q2 / 8 == q3 && q2 == q2 % 8 + 8 * q3);
        assert(q3 / 8 == q4 && q3 == q3 % 8 + 8 * q4);
        assert(q4 / 2 == q5 && q4 == q4 % 2 + 2 * q5);
        assert(q5 / 2 == q6 && q5 == q5 % 2 + 2 * q6);
        assert(q6 / 2 == q7 && q6 == q6 % 2 + 2 * q7);
        assert(q7 / 2 == q8 && q7 == q7 % 2 + 2 * q8);
        assert(q8 / 2 == q9 && q8 == q8 % 2 + 2 * q9);
        assert(q9 / 2 == q10 && q9 == q9 % 2 + 2 * q10);
        assert(q10 < 4);
    }

    /// A word that decodes is the word of what it decodes to.
    pub proof fn lemma_encode_decode(bits: nat)
        requires
            Self::spec_from_bits(bits).is_some(),
        ensures
            Self::spec_from_bits(bits).unwrap().spec_bits() == bits,
    {
        Self::lemma_sum_of_fields(bits);
        reveal(packed);
        reveal(field);
        let d = Self::spec_from_bits(bits).unwrap();
        assert(d.read.level() == field(bits, 1, 8));
        assert(d.write.level() == field(bits, 8, 8));
        assert(d.indication.level() == field(bits, 64, 8));
        assert(d.notification.level() == field(bits, 512, 8));
        assert(flag_bit(d.extended_properties_present) == field(bits, 4096, 2));
        assert(flag_bit(d.broadcast_permission) == field(bits, 8192, 2));
        assert(flag_bit(d.encryption_key_length_16_bytes) == field(bits, 16384, 2));
        assert(flag_bit(d.write_command_accepted) == field(bits, 32768, 2));
        assert(flag_bit(d.write_signed_accepted) == field(bits, 65536, 2));
        assert(flag_bit(d.write_request_accepted) == field(bits, 131072, 2));
        assert(d.uuid_length.class() == field(bits, 262144, 4));
    }

    /// Two different permissions never share a word.
    pub proof fn lemma_bits_injective(self, other: Permissions)
        requires
            self.spec_bits() == other.spec_bits(),
        ensures
            self == other,
    {
        self.lemma_decode_encode();
        other.lemma_decode_encode();
    }
}

impl Default for Permissions {
    fn default() -> (r: Self)
        ensures
            r == Permissions::spec_default(),
    {
        Permissions {
            read: PermissionVariants::Disabled,
            write: PermissionVariants::Disabled,
            indication: PermissionVariants::Disabled,
            notification: PermissionVariants::Disabled,
            extended_properties_present: false,
            broadcast_permission: false,
            encryption_key_length_16_bytes: false,
            write_command_accepted: false,
            write_signed_accepted: false,
            write_request_accepted: false,
            uuid_length: UuidLength::L16,
        }
    }
}

} // verus!
