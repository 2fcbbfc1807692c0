//! What peers have subscribed to, and the pushes that follow from it.

use crate::gatt_server::characteristic::CharacteristicModel;
use crate::gatt_server::driver::{call_model, DriverCall, DriverCallModel, StepModel};
use crate::utilities::Connection;
use vstd::prelude::*;

verus! {

/// Configuration bit: the peer wants notifications.
pub const CCCD_NOTIFY: u8 = 1;

/// Configuration bit: the peer wants indications.
pub const CCCD_INDICATE: u8 = 2;

/// What one peer has subscribed to on one characteristic.
///
/// Records are kept by the peer's address, not by the connection: they
/// hold across reconnections and restarts.
#[derive(Debug, Clone, Copy, PartialEq, Eq)]
pub struct SubscriptionRecord {
    pub peer_address: [u8; 6],
    pub characteristic_handle: u16,
    pub notify_enabled: bool,
    pub indicate_enabled: bool,
}

/// The key of the record of `peer` for the characteristic `handle`: the
/// six bytes of the address, then the handle, low byte first.
pub open spec fn record_key(peer: [u8; 6], handle: u16) -> Seq<u8> {
    peer@ + seq![(handle % 256) as u8, (handle / 256) as u8]
}

/// Whether the configuration bytes of a peer ask for notifications: the
/// lowest bit of the first byte. No bytes ask for nothing.
pub open spec fn wants_notify(bytes: Seq<u8>) -> bool {
    bytes.len() > 0 && bytes[0] % 2 == 1
}

/// Whether the configuration bytes of a peer ask for indications: the
/// second bit of the first byte. No bytes ask for nothing.
pub open spec fn wants_indicate(bytes: Seq<u8>) -> bool {
    bytes.len() > 0 && bytes[0] / 2 % 2 == 1
}

impl SubscriptionRecord {
    /// The record that the configuration bytes `bytes` stand for.
    pub open spec fn parsed(peer: [u8; 6], handle: u16, bytes: Seq<u8>) -> SubscriptionRecord {
        SubscriptionRecord {
            peer_address: peer,
            characteristic_handle: handle,
            notify_enabled: wants_notify(bytes),
            indicate_enabled: wants_indicate(bytes),
        }
    }

    /// The record that the store's answer stands for: a peer without a
    /// record has subscribed to nothing.
    pub open spec fn stored(peer: [u8; 6], handle: u16, bytes: Option<Seq<u8>>) -> SubscriptionRecord {
        match bytes {
            Some(bytes) => Self::parsed(peer, handle, bytes),
            None => SubscriptionRecord {
                peer_address: peer,
                characteristic_handle: handle,
                notify_enabled: false,
                indicate_enabled: false,
            },
        }
    }

    /// The two configuration bytes of the record.
    pub open spec fn bitmask(self) -> Seq<u8> {
        seq![
            ((if self.notify_enabled {
                CCCD_NOTIFY as int
            } else {
                0
            }) + (if self.indicate_enabled {
                CCCD_INDICATE as int
            } else {
                0
            })) as u8,
            0u8,
        ]
    }

    /// Whether the record lets a push of this kind through.
    pub open spec fn allows(self, indicate: bool) -> bool {
        if indicate {
            self.indicate_enabled
        } else {
            self.notify_enabled
        }
    }

    /// Reads a record from the configuration bytes that a peer has
    /// written, or that the store holds.
    pub fn from_cccd(peer: [u8; 6], handle: u16, bytes: &Vec<u8>) -> (r: Self)
        ensures
            r == Self::parsed(peer, handle, bytes@),
    {
        let (notify, indicate) = if bytes.len() > 0 {
            (bytes[0] % 2 == 1, bytes[0] / 2 % 2 == 1)
        } else {
            (false, false)
        };
        SubscriptionRecord {
            peer_address: peer,
            characteristic_handle: handle,
            notify_enabled: notify,
            indicate_enabled: indicate,
        }
    }

    /// Reads a record from the store's answer.
    pub fn from_store(peer: [u8; 6], handle: u16, bytes: &Option<Vec<u8>>) -> (r: Self)
        ensures
            r == Self::stored(
                peer,
                handle,
                match bytes {
                    Some(bytes) => Some(bytes@),
                    None => None,
                },
            ),
    {
        match bytes {
            Some(bytes) => Self::from_cccd(peer, handle, bytes),
            None => SubscriptionRecord {
                peer_address: peer,
                characteristic_handle: handle,
                notify_enabled: false,
                indicate_enabled: false,
            },
        }
    }

    /// The two configuration bytes of the record: what a peer reads from
    /// the configuration descriptor, and what the store keeps.
    pub fn to_cccd(&self) -> (r: Vec<u8>)
        ensures
            r@ == self.bitmask(),
    {
        let mut first: u8 = 0;
        if self.notify_enabled {
            first = first + CCCD_NOTIFY;
        }
        if self.indicate_enabled {
            first = first + CCCD_INDICATE;
        }
        let mut r: Vec<u8> = Vec::new();
        r.push(first);
        r.push(0u8);
        assert(r@ =~= self.bitmask());
        r
    }

    /// The key under which the store keeps the record.
    pub fn key(&self) -> (r: Vec<u8>)
        ensures
            r@ == record_key(self.peer_address, self.characteristic_handle),
    {
        subscription_key(&self.peer_address, self.characteristic_handle)
    }
}

/// The key under which the store keeps what `peer` has subscribed to on
/// the characteristic `handle`.
pub fn subscription_key(peer: &[u8; 6], handle: u16) -> (r: Vec<u8>)
    ensures
        r@ == record_key(*peer, handle),
{
    let mut r: Vec<u8> = Vec::new();
    let mut i: usize = 0;
    while i < 6
        invariant
            i <= 6,
            r@.len() == i,
            forall|k: int| 0 <= k < i ==> r@[k] == peer@[k],
        decreases 6 - i,
    {
        r.push(peer[i]);
        i += 1;
    }
    r.push((handle % 256) as u8);
    r.push((handle / 256) as u8);
    assert(r@ =~= record_key(*peer, handle));
    r
}

/// The model of what a store has answered.
pub open spec fn stored_model(stored: Option<Vec<u8>>) -> Option<Seq<u8>> {
    match stored {
        Some(bytes) => Some(bytes@),
        None => None,
    }
}

/// What the write of a peer to the configuration descriptor of the
/// characteristic `handle` asks of the store: the key to write under and
/// the bytes to write, which are the two configuration bytes of the
/// record that the peer has asked for.
pub fn subscription_write(peer: &[u8; 6], handle: u16, written: &Vec<u8>) -> (r: (Vec<u8>, Vec<u8>))
    ensures
        r.0@ == record_key(*peer, handle),
        r.1@ == SubscriptionRecord::parsed(*peer, handle, written@).bitmask(),
{
    let record = SubscriptionRecord::from_cccd(*peer, handle, written);
    (record.key(), record.to_cccd())
}

/// What a peer reads from the configuration descriptor of the
/// characteristic `handle`: the two configuration bytes of its record,
/// where `stored` is what the store holds under the record's key.
pub fn subscription_read(peer: &[u8; 6], handle: u16, stored: &Option<Vec<u8>>) -> (r: Vec<u8>)
    ensures
        r@ == SubscriptionRecord::stored(*peer, handle, stored_model(*stored)).bitmask(),
{
    SubscriptionRecord::from_store(*peer, handle, stored).to_cccd()
}

/// What a peer has written to its configuration is what it reads back:
/// the store is given the record that the written bytes ask for, and the
/// next read finds that record and returns its two bytes. A peer that
/// writes the two bytes of a configuration reads the same two bytes.
pub proof fn lemma_written_is_read_back(peer: [u8; 6], handle: u16, written: Seq<u8>)
    ensures
        ({
            let record = SubscriptionRecord::parsed(peer, handle, written);
            let kept = record.bitmask();
            &&& SubscriptionRecord::stored(peer, handle, Some(kept)) == record
            &&& SubscriptionRecord::stored(peer, handle, Some(kept)).bitmask() == kept
            &&& written.len() == 2 && written[0] < 4 && written[1] == 0 ==> kept == written
        }),
{
    let record = SubscriptionRecord::parsed(peer, handle, written);
    if written.len() == 2 && written[0] < 4 && written[1] == 0 {
        assert(record.bitmask() =~= written);
    }
}

/// The character that stands for a number below 64 in the name of a
/// record: a capital letter, a small letter, a digit, `-` or `_`.
pub open spec fn name_character(digit: int) -> u8 {
    if digit < 26 {
        (65 + digit) as u8
    } else if digit < 52 {
        (97 + digit - 26) as u8
    } else if digit < 62 {
        (48 + digit - 52) as u8
    } else if digit == 62 {
        45u8
    } else {
        95u8
    }
}

/// The three characters that stand for two bytes of a key.
pub open spec fn name_of_pair(low: u8, high: u8) -> Seq<u8> {
    let word = low as int + 256 * (high as int);
    seq![name_character(word % 64), name_character(word / 64 % 64), name_character(word / 4096)]
}

/// The name of a record in a store whose names are short texts: twelve
/// characters, three for every two bytes of the record's key.
pub open spec fn key_name(key: Seq<u8>) -> Seq<u8> {
    name_of_pair(key[0], key[1]) + name_of_pair(key[2], key[3]) + name_of_pair(key[4], key[5])
        + name_of_pair(key[6], key[7])
}

fn character_of(digit: u16) -> (r: u8)
    requires
        digit < 64,
    ensures
        r == name_character(digit as int),
{
    reveal(name_character);
    if digit < 26 {
        (65 + digit) as u8
    } else if digit < 52 {
        (97 + digit - 26) as u8
    } else if digit < 62 {
        (48 + digit - 52) as u8
    } else if digit == 62 {
        45u8
    } else {
        95u8
    }
}

/// The name of the record with the key `key` in a store whose names are
/// short texts. Only the keys of records, which have eight bytes, have a
/// name.
pub fn store_name(key: &Vec<u8>) -> (r: Option<Vec<u8>>)
    ensures
        key@.len() == 8 ==> (r matches Some(name) && name@ == key_name(key@)),
        key@.len() != 8 ==> r is None,
{
    if key.len() != 8 {
        return None;
    }
    let mut name: Vec<u8> = Vec::new();
    let mut i: usize = 0;
    while i < 4
        invariant
            i <= 4,
            key@.len() == 8,
            name@.len() == 3 * i,
            forall|k: int|
                0 <= k < i ==> name@.subrange(3 * k, 3 * k + 3) == name_of_pair(
                    #[trigger] key@[2 * k],
                    key@[2 * k + 1],
                ),
        decreases 4 - i,
    {
        let word: u16 = key[2 * i] as u16 + 256 * (key[2 * i + 1] as u16);
        let ghost before = name@;
        name.push(character_of(word % 64));
        name.push(character_of(word / 64 % 64));
        name.push(character_of(word / 4096));
        proof {
            assert(name@.subrange(3 * i as int, 3 * i as int + 3) =~= name_of_pair(
                key@[2 * i as int],
                key@[2 * i as int + 1],
            ));
            assert forall|k: int| 0 <= k < i implies name@.subrange(3 * k, 3 * k + 3)
                == name_of_pair(#[trigger] key@[2 * k], key@[2 * k + 1]) by {
                assert(name@.subrange(3 * k, 3 * k + 3) =~= before.subrange(3 * k, 3 * k + 3));
            }
        }
        i += 1;
    }
    proof {
        assert(name@.subrange(0, 3) == name_of_pair(key@[2 * 0int], key@[1]));
        assert(name@.subrange(3, 6) == name_of_pair(key@[2 * 1int], key@[3]));
        assert(name@.subrange(6, 9) == name_of_pair(key@[2 * 2int], key@[5]));
        assert(name@.subrange(9, 12) == name_of_pair(key@[2 * 3int], key@[7]));
        assert(name@ =~= name@.subrange(0, 3) + name@.subrange(3, 6) + name@.subrange(6, 9)
            + name@.subrange(9, 12));
    }
    Some(name)
}

/// Different numbers below 64 have different characters.
proof fn lemma_name_character_injective(a: int, b: int)
    requires
        0 <= a < 64,
        0 <= b < 64,
        name_character(a) == name_character(b),
    ensures
        a == b,
{
    reveal(name_character);
}

/// A number below 65536 is told by its three digits to the base 64.
proof fn lemma_digits_tell_the_word(v: int, w: int)
    requires
        0 <= v < 65536,
        0 <= w < 65536,
        v % 64 == w % 64,
        v / 64 % 64 == w / 64 % 64,
        v / 4096 == w / 4096,
    ensures
        v == w,
{
    assert(v / 4096 == v / 64 / 64) by (nonlinear_arith)
        requires
            0 <= v,
    ;
    assert(w / 4096 == w / 64 / 64) by (nonlinear_arith)
        requires
            0 <= w,
    ;
}

/// Different pairs of bytes have different names.
proof fn lemma_name_of_pair_injective(a: u8, b: u8, c: u8, d: u8)
    requires
        name_of_pair(a, b) == name_of_pair(c, d),
    ensures
        a == c,
        b == d,
{
    let v = a as int + 256 * (b as int);
    let w = c as int + 256 * (d as int);
    assert(name_of_pair(a, b)[0] == name_of_pair(c, d)[0]);
    assert(name_of_pair(a, b)[1] == name_of_pair(c, d)[1]);
    assert(name_of_pair(a, b)[2] == name_of_pair(c, d)[2]);
    lemma_name_character_injective(v % 64, w % 64);
    lemma_name_character_injective(v / 64 % 64, w / 64 % 64);
    lemma_name_character_injective(v / 4096, w / 4096);
    lemma_digits_tell_the_word(v, w);
}

/// Two records share a name only if they share a key, and so only if they
/// are of the same peer and the same characteristic: no peer reads or
/// overwrites what another peer has subscribed to.
pub proof fn lemma_key_name_injective(a: [u8; 6], x: u16, b: [u8; 6], y: u16)
    requires
        key_name(record_key(a, x)) == key_name(record_key(b, y)),
    ensures
        a == b,
        x == y,
{
    let j = record_key(a, x);
    let k = record_key(b, y);
    assert(j.len() == 8 && k.len() == 8);
    let m = key_name(j);
    let n = key_name(k);
    assert(m.subrange(0, 3) =~= name_of_pair(j[0], j[1]));
    assert(n.subrange(0, 3) =~= name_of_pair(k[0], k[1]));
    assert(m.subrange(3, 6) =~= name_of_pair(j[2], j[3]));
    assert(n.subrange(3, 6) =~= name_of_pair(k[2], k[3]));
    assert(m.subrange(6, 9) =~= name_of_pair(j[4], j[5]));
    assert(n.subrange(6, 9) =~= name_of_pair(k[4], k[5]));
    assert(m.subrange(9, 12) =~= name_of_pair(j[6], j[7]));
    assert(n.subrange(9, 12) =~= name_of_pair(k[6], k[7]));
    lemma_name_of_pair_injective(j[0], j[1], k[0], k[1]);
    lemma_name_of_pair_injective(j[2], j[3], k[2], k[3]);
    lemma_name_of_pair_injective(j[4], j[5], k[4], k[5]);
    lemma_name_of_pair_injective(j[6], j[7], k[6], k[7]);
    assert(j =~= k);
    lemma_record_key_injective(a, x, b, y);
}

/// The push that a changed value owes to one connection: the indication
/// or notification of `value`, if the peer's record enables that kind of
/// push, and nothing if it does not.
pub open spec fn owed_push(
    interface: u8,
    connection: Connection,
    handle: u16,
    value: Seq<u8>,
    indicate: bool,
    stored: Option<Seq<u8>>,
) -> Option<DriverCallModel> {
    if SubscriptionRecord::stored(connection.remote_bda, handle, stored).allows(indicate) {
        Some(
            DriverCallModel::SendIndicate {
                interface,
                conn_id: connection.id,
                handle,
                value,
                need_confirm: indicate,
            },
        )
    } else {
        None
    }
}

/// Decides a `Publish` step: `stored` is what the store holds under the
/// key of the connection's peer and the characteristic `handle`. The
/// result is the call to make, if the peer has subscribed.
pub fn publish(
    interface: u8,
    connection: Connection,
    handle: u16,
    value: Vec<u8>,
    indicate: bool,
    stored: &Option<Vec<u8>>,
) -> (call: Option<DriverCall>)
    ensures
        call_model(call) == owed_push(
            interface,
            connection,
            handle,
            value@,
            indicate,
            match stored {
                Some(bytes) => Some(bytes@),
                None => None,
            },
        ),
{
    let record = SubscriptionRecord::from_store(connection.remote_bda, handle, stored);
    let allowed = if indicate {
        record.indicate_enabled
    } else {
        record.notify_enabled
    };
    if allowed {
        Some(
            DriverCall::SendIndicate {
                interface,
                conn_id: connection.id,
                handle,
                value,
                need_confirm: indicate,
            },
        )
    } else {
        None
    }
}

/// A changed value is offered to every connection once, in the order of
/// the connections, and reaches exactly the peers whose record enables
/// the kind of push that the characteristic announces: indications where
/// it indicates, notifications where it only notifies. A characteristic
/// that announces neither offers its value to nobody.
pub proof fn lemma_fan_out(
    c: CharacteristicModel,
    interface: u8,
    handle: u16,
    connections: Seq<Connection>,
    i: int,
    stored: Option<Seq<u8>>,
)
    requires
        0 <= i < connections.len(),
    ensures
        c.push_mode() is None ==> c.publish_steps(interface, handle, connections).len() == 0,
        c.push_mode() == Some(c.properties.indicate) || c.push_mode() is None,
        c.push_mode() matches Some(indicate) ==> {
            let steps = c.publish_steps(interface, handle, connections);
            let record = SubscriptionRecord::stored(connections[i].remote_bda, handle, stored);
            let push = owed_push(interface, connections[i], handle, c.value, indicate, stored);
            &&& steps.len() == connections.len()
            &&& steps[i] == (StepModel::Publish {
                interface,
                connection: connections[i],
                handle,
                value: c.value,
                indicate,
            })
            &&& push is Some <==> record.allows(indicate)
            &&& push matches Some(call) ==> call == (DriverCallModel::SendIndicate {
                interface,
                conn_id: connections[i].id,
                handle,
                value: c.value,
                need_confirm: indicate,
            })
        },
{
}

/// A record survives the trip through its two configuration bytes.
pub proof fn lemma_record_round_trip(record: SubscriptionRecord)
    ensures
        SubscriptionRecord::parsed(
            record.peer_address,
            record.characteristic_handle,
            record.bitmask(),
        ) == record,
{
}

/// Two records share a key only if they are of the same peer and the same
/// characteristic.
pub proof fn lemma_record_key_injective(a: [u8; 6], x: u16, b: [u8; 6], y: u16)
    requires
        record_key(a, x) == record_key(b, y),
    ensures
        a == b,
        x == y,
{
    let ka = record_key(a, x);
    let kb = record_key(b, y);
    assert(a@.len() == 6 && b@.len() == 6);
    assert forall|i: int| 0 <= i < 6 implies a[i] == b[i] by {
        assert(ka[i] == a@[i]);
        assert(kb[i] == b@[i]);
    }
    assert(a =~= b);
    assert(ka[6] == (x % 256) as u8);
    assert(kb[6] == (y % 256) as u8);
    assert(ka[7] == (x / 256) as u8);
    assert(kb[7] == (y / 256) as u8);
}

} // verus!
