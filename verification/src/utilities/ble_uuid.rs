//! Bluetooth identifiers of 16, 32 and 128 bits.

use vstd::prelude::*;

verus! {

/// The identifier of an attribute.
///
/// Two identifiers are equal when they have the same width and the same
/// value: a 16 bit identifier is never equal to its 128 bit expansion.
/// Compare expansions (`as_uuid128_array`) to compare across widths.
#[derive(Copy, Clone, Debug)]
pub enum BleUuid {
    Uuid16(u16),
    Uuid32(u32),
    /// The sixteen bytes, least significant first.
    Uuid128([u8; 16]),
}

/// The Bluetooth base identifier, least significant byte first. Short
/// identifiers stand for this value with bytes 12 to 15 replaced.
pub open spec fn base_uuid() -> Seq<u8> {
    seq![
        0xfbu8, 0x34u8, 0x9bu8, 0x5fu8, 0x80u8, 0x00u8, 0x00u8, 0x80u8,
        0x00u8, 0x10u8, 0x00u8, 0x00u8, 0x00u8, 0x00u8, 0x00u8, 0x00u8,
    ]
}

fn bytes16_eq(a: &[u8; 16], b: &[u8; 16]) -> (r: bool)
    ensures
        r == (*a == *b),
{
    let mut i: usize = 0;
    while i < 16
        invariant
            i <= 16,
            forall|k: int| 0 <= k < i ==> a[k] == b[k],
        decreases 16 - i,
    {
        if a[i] != b[i] {
            return false;
        }
        i += 1;
    }
    assert(*a =~= *b);
    true
}

impl BleUuid {
    pub fn from_uuid16(uuid: u16) -> (r: Self)
        ensures
            r == BleUuid::Uuid16(uuid),
    {
        BleUuid::Uuid16(uuid)
    }

    pub fn from_uuid32(uuid: u32) -> (r: Self)
        ensures
            r == BleUuid::Uuid32(uuid),
    {
        BleUuid::Uuid32(uuid)
    }

    pub fn from_uuid128(uuid: [u8; 16]) -> (r: Self)
        ensures
            r == BleUuid::Uuid128(uuid),
    {
        BleUuid::Uuid128(uuid)
    }

    /// The sixteen bytes that the identifier stands for, least significant
    /// first: a short identifier is laid over bytes 12 and up of the base
    /// identifier, a long one is taken as it is.
    pub open spec fn expansion(self) -> Seq<u8> {
        match self {
            BleUuid::Uuid16(uuid) => base_uuid()
                .update(12, (uuid % 256) as u8)
                .update(13, (uuid / 256) as u8),
            BleUuid::Uuid32(uuid) => base_uuid()
                .update(12, (uuid % 256) as u8)
                .update(13, (uuid / 256 % 256) as u8)
                .update(14, (uuid / 65536 % 256) as u8)
                .update(15, (uuid / 16777216) as u8),
            BleUuid::Uuid128(uuid) => uuid@,
        }
    }

    pub fn as_uuid128_array(&self) -> (r: [u8; 16])
        ensures
            r@ == self.expansion(),
    {
        let mut uuid128: [u8; 16] = [
            0xfb, 0x34, 0x9b, 0x5f, 0x80, 0x00, 0x00, 0x80,
            0x00, 0x10, 0x00, 0x00, 0x00, 0x00, 0x00, 0x00,
        ];
        match self {
            BleUuid::Uuid16(uuid) => {
                assert(uuid128@ =~= base_uuid());
                uuid128[12] = (*uuid % 256) as u8;
                uuid128[13] = (*uuid / 256) as u8;
                uuid128
            },
            BleUuid::Uuid32(uuid) => {
                assert(uuid128@ =~= base_uuid());
                uuid128[12] = (*uuid % 256) as u8;
                uuid128[13] = (*uuid / 256 % 256) as u8;
                uuid128[14] = (*uuid / 65536 % 256) as u8;
                uuid128[15] = (*uuid / 16777216) as u8;
                uuid128
            },
            BleUuid::Uuid128(uuid) => *uuid,
        }
    }
}

impl PartialEq for BleUuid {
    fn eq(&self, other: &Self) -> (r: bool) {
        match (self, other) {
            (BleUuid::Uuid16(a), BleUuid::Uuid16(b)) => *a == *b,
            (BleUuid::Uuid32(a), BleUuid::Uuid32(b)) => *a == *b,
            (BleUuid::Uuid128(a), BleUuid::Uuid128(b)) => bytes16_eq(a, b),
            _ => false,
        }
    }
}

impl Eq for BleUuid {

}

impl vstd::std_specs::cmp::PartialEqSpecImpl for BleUuid {
    open spec fn obeys_eq_spec() -> bool {
        true
    }

    open spec fn eq_spec(&self, other: &Self) -> bool {
        *self == *other
    }
}

/// A short identifier and the long one it expands to name the same
/// attribute type, and no two short identifiers of one width expand alike.
pub proof fn lemma_expansion_injective(a: BleUuid, b: BleUuid)
    requires
        a.expansion() == b.expansion(),
        (a is Uuid16 && b is Uuid16) || (a is Uuid32 && b is Uuid32) || (a is Uuid128
            && b is Uuid128),
    ensures
        a == b,
{
    assert(base_uuid().len() == 16);
    match (a, b) {
        (BleUuid::Uuid16(x), BleUuid::Uuid16(y)) => {
            assert(a.expansion()[12] == (x % 256) as u8);
            assert(a.expansion()[13] == (x / 256) as u8);
            assert(a.expansion()[12] == b.expansion()[12]);
            assert(a.expansion()[13] == b.expansion()[13]);
            assert(x % 256 == y % 256 && x / 256 == y / 256);
        },
        (BleUuid::Uuid32(x), BleUuid::Uuid32(y)) => {
            assert(a.expansion()[12] == (x % 256) as u8);
            assert(a.expansion()[13] == (x / 256 % 256) as u8);
            assert(a.expansion()[14] == (x / 65536 % 256) as u8);
            assert(a.expansion()[15] == (x / 16777216) as u8);
            assert(a.expansion()[12] == b.expansion()[12]);
            assert(a.expansion()[13] == b.expansion()[13]);
            assert(a.expansion()[14] == b.expansion()[14]);
            assert(a.expansion()[15] == b.expansion()[15]);
            assert(x % 256 == y % 256);
            assert(x / 256 % 256 == y / 256 % 256);
            assert(x / 65536 % 256 == y / 65536 % 256);
            assert(x / 16777216 == y / 16777216);
            lemma_four_bytes(x);
            lemma_four_bytes(y);
        },
        (BleUuid::Uuid128(x), BleUuid::Uuid128(y)) => {
            assert(x =~= y);
        },
        _ => {},
    }
}

proof fn lemma_four_bytes(x: u32)
    ensures
        x == x % 256 + 256 * (x / 256 % 256) + 65536 * (x / 65536 % 256) + 16777216 * (x
            / 16777216),
{
    assert(x / 65536 == x / 256 / 256) by (nonlinear_arith);
    assert(x / 16777216 == x / 65536 / 256) by (nonlinear_arith);
}

} // verus!
