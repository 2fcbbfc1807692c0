//! Values as little endian bytes, the form in which attribute values
//! travel.

use vstd::prelude::*;
use vstd::utf8::{decode_utf8, encode_utf8, valid_utf8};

verus! {

/// A type whose values can be written as bytes, least significant first,
/// and read back from bytes.
///
/// The contracts speak of the values through `deep_view`: a number or a
/// `bool` is its own view, a `String` is the sequence of its characters,
/// a `Vec` the sequence of the views of its items.
pub trait LeBytesSerialisable: Sized + DeepView {
    /// The bytes that stand for `value`.
    spec fn le_bytes(value: Self::V) -> Seq<u8>;

    /// Whether a value can be read from `bytes`.
    spec fn le_readable(bytes: Seq<u8>) -> bool;

    /// The value that `bytes` stand for.
    spec fn le_read(bytes: Seq<u8>) -> Self::V;

    /// Serialise the data type to a vector of bytes in little endian format.
    fn to_le_vec(&self) -> (bytes: Vec<u8>)
        ensures
            bytes@ == Self::le_bytes(self.deep_view()),
    ;

    /// Deserialise the data type from a vector of bytes in little endian format.
    fn from_le_vec(bytes: Vec<u8>) -> (value: Self)
        requires
            Self::le_readable(bytes@),
        ensures
            value.deep_view() == Self::le_read(bytes@),
    ;
}

/// The number of values that `width` bytes can tell apart: 256 to the
/// power of `width`.
pub open spec fn limit(width: nat) -> nat
    decreases width,
{
    if width == 0 {
        1
    } else {
        256 * limit((width - 1) as nat)
    }
}

/// The `width` lowest base 256 digits of `value`, lowest first.
pub open spec fn le_digits(value: nat, width: nat) -> Seq<u8>
    decreases width,
{
    if width == 0 {
        Seq::empty()
    } else {
        seq![(value % 256) as u8] + le_digits(value / 256, (width - 1) as nat)
    }
}

/// The number whose base 256 digits, lowest first, are `bytes`.
pub open spec fn le_number(bytes: Seq<u8>) -> nat
    decreases bytes.len(),
{
    if bytes.len() == 0 {
        0
    } else {
        bytes[0] as nat + 256 * le_number(bytes.drop_first())
    }
}

/// The number that stands for the signed `value` in `width` bytes: the
/// value itself, or its distance from the limit where it is negative.
pub open spec fn twos_complement(value: int, width: nat) -> nat {
    if value < 0 {
        (value + limit(width)) as nat
    } else {
        value as nat
    }
}

/// The signed value that `number` stands for in `width` bytes.
pub open spec fn signed(number: nat, width: nat) -> int {
    if 2 * number >= limit(width) {
        number - limit(width)
    } else {
        number as int
    }
}

/// The limits of one, two, four, eight and sixteen bytes.
pub proof fn lemma_limits()
    ensures
        limit(1) == 0x100,
        limit(2) == 0x1_0000,
        limit(4) == 0x1_0000_0000,
        limit(8) == 0x1_0000_0000_0000_0000,
        limit(15) == 0x100_0000_0000_0000_0000_0000_0000_0000,
        limit(16) == 0x1_0000_0000_0000_0000_0000_0000_0000_0000,
{
    reveal_with_fuel(limit, 2);
    assert(limit(1) == 0x100);
    assert(limit(2) == 0x1_0000);
    assert(limit(3) == 0x100_0000);
    assert(limit(4) == 0x1_0000_0000);
    assert(limit(5) == 0x100_0000_0000);
    assert(limit(6) == 0x1_0000_0000_0000);
    assert(limit(7) == 0x100_0000_0000_0000);
    assert(limit(8) == 0x1_0000_0000_0000_0000);
    assert(limit(9) == 0x100_0000_0000_0000_0000);
    assert(limit(10) == 0x1_0000_0000_0000_0000_0000);
    assert(limit(11) == 0x100_0000_0000_0000_0000_0000);
    assert(limit(12) == 0x1_0000_0000_0000_0000_0000_0000);
    assert(limit(13) == 0x100_0000_0000_0000_0000_0000_0000);
    assert(limit(14) == 0x1_0000_0000_0000_0000_0000_0000_0000);
    assert(limit(15) == 0x100_0000_0000_0000_0000_0000_0000_0000);
    assert(limit(16) == 0x1_0000_0000_0000_0000_0000_0000_0000_0000);
}

/// More bytes tell more values apart.
pub proof fn lemma_limit_grows(narrow: nat, wide: nat)
    requires
        narrow <= wide,
    ensures
        0 < limit(narrow) <= limit(wide),
    decreases wide,
{
    if wide == 0 {
    } else if narrow == wide {
        lemma_limit_grows((narrow - 1) as nat, (wide - 1) as nat);
    } else {
        lemma_limit_grows(narrow, (wide - 1) as nat);
    }
}

/// Digits come as many as were asked for.
pub proof fn lemma_digits_len(value: nat, width: nat)
    ensures
        le_digits(value, width).len() == width,
    decreases width,
{
    if width > 0 {
        lemma_digits_len(value / 256, (width - 1) as nat);
    }
}

/// The number of some bytes is below the limit of their count.
pub proof fn lemma_number_bound(bytes: Seq<u8>)
    ensures
        le_number(bytes) < limit(bytes.len()),
    decreases bytes.len(),
{
    if bytes.len() > 0 {
        lemma_number_bound(bytes.drop_first());
    }
}

/// Writing a number that fits and reading it back gives the number.
pub proof fn lemma_number_of_digits(value: nat, width: nat)
    requires
        value < limit(width),
    ensures
        le_number(le_digits(value, width)) == value,
    decreases width,
{
    if width > 0 {
        let rest = le_digits(value / 256, (width - 1) as nat);
        lemma_number_of_digits(value / 256, (width - 1) as nat);
        assert(le_digits(value, width).drop_first() =~= rest);
        assert(le_digits(value, width)[0] == (value % 256) as u8);
    }
}

/// Reading bytes as a number and writing it back gives the bytes.
pub proof fn lemma_digits_of_number(bytes: Seq<u8>)
    ensures
        le_digits(le_number(bytes), bytes.len()) == bytes,
    decreases bytes.len(),
{
    if bytes.len() > 0 {
        let rest = bytes.drop_first();
        lemma_digits_of_number(rest);
        let number = le_number(bytes);
        assert(number % 256 == bytes[0] as nat);
        assert(number / 256 == le_number(rest));
        assert(le_digits(number, bytes.len()) =~= bytes);
    } else {
        assert(le_digits(le_number(bytes), bytes.len()) =~= bytes);
    }
}

/// A signed value that fits `width` bytes comes back from the number that
/// stands for it.
pub proof fn lemma_signed_round_trip(value: int, width: nat)
    requires
        -(limit(width) as int) <= 2 * value < limit(width),
    ensures
        twos_complement(value, width) < limit(width),
        signed(twos_complement(value, width), width) == value,
{
}

fn encode(value: u128, width: usize) -> (bytes: Vec<u8>)
    ensures
        bytes@ == le_digits(value as nat, width as nat),
{
    let mut bytes: Vec<u8> = Vec::new();
    let mut rest: u128 = value;
    let mut i: usize = 0;
    while i < width
        invariant
            i <= width,
            bytes@ + le_digits(rest as nat, (width - i) as nat) == le_digits(
                value as nat,
                width as nat,
            ),
        decreases width - i,
    {
        let ghost before = bytes@;
        let ghost tail = le_digits((rest / 256) as nat, (width - i - 1) as nat);
        assert(le_digits(rest as nat, (width - i) as nat) == seq![(rest % 256) as u8] + tail);
        bytes.push((rest % 256) as u8);
        assert(bytes@ + tail =~= before + (seq![(rest % 256) as u8] + tail));
        rest = rest / 256;
        i += 1;
    }
    assert(bytes@ + Seq::<u8>::empty() =~= bytes@);
    bytes
}

fn decode(bytes: &Vec<u8>) -> (value: u128)
    requires
        bytes@.len() <= 16,
    ensures
        value == le_number(bytes@),
{
    let mut value: u128 = 0;
    let mut i: usize = bytes.len();
    assert(bytes@.subrange(i as int, bytes@.len() as int) =~= Seq::<u8>::empty());
    while i > 0
        invariant
            i <= bytes@.len() <= 16,
            value == le_number(bytes@.subrange(i as int, bytes@.len() as int)),
        decreases i,
    {
        let ghost tail = bytes@.subrange(i as int, bytes@.len() as int);
        let ghost whole = bytes@.subrange(i - 1, bytes@.len() as int);
        proof {
            lemma_number_bound(tail);
            lemma_limit_grows(tail.len(), 15);
            lemma_limits();
            assert(whole.drop_first() =~= tail);
            assert(whole[0] == bytes@[i - 1]);
        }
        i -= 1;
        value = value * 256 + bytes[i] as u128;
    }
    assert(bytes@.subrange(0, bytes@.len() as int) =~= bytes@);
    value
}

impl LeBytesSerialisable for u8 {
    open spec fn le_bytes(value: u8) -> Seq<u8> {
        le_digits(value as nat, 1)
    }

    open spec fn le_readable(bytes: Seq<u8>) -> bool {
        bytes.len() == 1
    }

    open spec fn le_read(bytes: Seq<u8>) -> u8 {
        le_number(bytes) as u8
    }

    fn to_le_vec(&self) -> (bytes: Vec<u8>) {
        encode(*self as u128, 1)
    }

    fn from_le_vec(bytes: Vec<u8>) -> (value: u8) {
        proof {
            lemma_number_bound(bytes@);
            lemma_limits();
        }
        decode(&bytes) as u8
    }
}

impl LeBytesSerialisable for u16 {
    open spec fn le_bytes(value: u16) -> Seq<u8> {
        le_digits(value as nat, 2)
    }

    open spec fn le_readable(bytes: Seq<u8>) -> bool {
        bytes.len() == 2
    }

    open spec fn le_read(bytes: Seq<u8>) -> u16 {
        le_number(bytes) as u16
    }

    fn to_le_vec(&self) -> (bytes: Vec<u8>) {
        encode(*self as u128, 2)
    }

    fn from_le_vec(bytes: Vec<u8>) -> (value: u16) {
        proof {
            lemma_number_bound(bytes@);
            lemma_limits();
        }
        decode(&bytes) as u16
    }
}

impl LeBytesSerialisable for u32 {
    open spec fn le_bytes(value: u32) -> Seq<u8> {
        le_digits(value as nat, 4)
    }

    open spec fn le_readable(bytes: Seq<u8>) -> bool {
        bytes.len() == 4
    }

    open spec fn le_read(bytes: Seq<u8>) -> u32 {
        le_number(bytes) as u32
    }

    fn to_le_vec(&self) -> (bytes: Vec<u8>) {
        encode(*self as u128, 4)
    }

    fn from_le_vec(bytes: Vec<u8>) -> (value: u32) {
        proof {
            lemma_number_bound(bytes@);
            lemma_limits();
        }
        decode(&bytes) as u32
    }
}

impl LeBytesSerialisable for u64 {
    open spec fn le_bytes(value: u64) -> Seq<u8> {
        le_digits(value as nat, 8)
    }

    open spec fn le_readable(bytes: Seq<u8>) -> bool {
        bytes.len() == 8
    }

    open spec fn le_read(bytes: Seq<u8>) -> u64 {
        le_number(bytes) as u64
    }

    fn to_le_vec(&self) -> (bytes: Vec<u8>) {
        encode(*self as u128, 8)
    }

    fn from_le_vec(bytes: Vec<u8>) -> (value: u64) {
        proof {
            lemma_number_bound(bytes@);
            lemma_limits();
        }
        decode(&bytes) as u64
    }
}

impl LeBytesSerialisable for u128 {
    open spec fn le_bytes(value: u128) -> Seq<u8> {
        le_digits(value as nat, 16)
    }

    open spec fn le_readable(bytes: Seq<u8>) -> bool {
        bytes.len() == 16
    }

    open spec fn le_read(bytes: Seq<u8>) -> u128 {
        le_number(bytes) as u128
    }

    fn to_le_vec(&self) -> (bytes: Vec<u8>) {
        encode(*self as u128, 16)
    }

    fn from_le_vec(bytes: Vec<u8>) -> (value: u128) {
        proof {
            lemma_number_bound(bytes@);
            lemma_limits();
        }
        decode(&bytes) as u128
    }
}

impl LeBytesSerialisable for i8 {
    open spec fn le_bytes(value: i8) -> Seq<u8> {
        le_digits(twos_complement(value as int, 1), 1)
    }

    open spec fn le_readable(bytes: Seq<u8>) -> bool {
        bytes.len() == 1
    }

    open spec fn le_read(bytes: Seq<u8>) -> i8 {
        signed(le_number(bytes), 1) as i8
    }

    fn to_le_vec(&self) -> (bytes: Vec<u8>) {
        proof {
            lemma_limits();
        }
        let number: u8 = if *self >= 0 {
            *self as u8
        } else {
            u8::MAX - ((-(*self + 1)) as u8)
        };
        encode(number as u128, 1)
    }

    fn from_le_vec(bytes: Vec<u8>) -> (value: i8) {
        proof {
            lemma_number_bound(bytes@);
            lemma_limits();
        }
        let number: u8 = decode(&bytes) as u8;
        if number <= i8::MAX as u8 {
            number as i8
        } else {
            -((u8::MAX - number) as i8) - 1
        }
    }
}

impl LeBytesSerialisable for i16 {
    open spec fn le_bytes(value: i16) -> Seq<u8> {
        le_digits(twos_complement(value as int, 2), 2)
    }

    open spec fn le_readable(bytes: Seq<u8>) -> bool {
        bytes.len() == 2
    }

    open spec fn le_read(bytes: Seq<u8>) -> i16 {
        signed(le_number(bytes), 2) as i16
    }

    fn to_le_vec(&self) -> (bytes: Vec<u8>) {
        proof {
            lemma_limits();
        }
        let number: u16 = if *self >= 0 {
            *self as u16
        } else {
            u16::MAX - ((-(*self + 1)) as u16)
        };
        encode(number as u128, 2)
    }

    fn from_le_vec(bytes: Vec<u8>) -> (value: i16) {
        proof {
            lemma_number_bound(bytes@);
            lemma_limits();
        }
        let number: u16 = decode(&bytes) as u16;
        if number <= i16::MAX as u16 {
            number as i16
        } else {
            -((u16::MAX - number) as i16) - 1
        }
    }
}

impl LeBytesSerialisable for i32 {
    open spec fn le_bytes(value: i32) -> Seq<u8> {
        le_digits(twos_complement(value as int, 4), 4)
    }

    open spec fn le_readable(bytes: Seq<u8>) -> bool {
        bytes.len() == 4
    }

    open spec fn le_read(bytes: Seq<u8>) -> i32 {
        signed(le_number(bytes), 4) as i32
    }

    fn to_le_vec(&self) -> (bytes: Vec<u8>) {
        proof {
            lemma_limits();
        }
        let number: u32 = if *self >= 0 {
            *self as u32
        } else {
            u32::MAX - ((-(*self + 1)) as u32)
        };
        encode(number as u128, 4)
    }

    fn from_le_vec(bytes: Vec<u8>) -> (value: i32) {
        proof {
            lemma_number_bound(bytes@);
            lemma_limits();
        }
        let number: u32 = decode(&bytes) as u32;
        if number <= i32::MAX as u32 {
            number as i32
        } else {
            -((u32::MAX - number) as i32) - 1
        }
    }
}

impl LeBytesSerialisable for i64 {
    open spec fn le_bytes(value: i64) -> Seq<u8> {
        le_digits(twos_complement(value as int, 8), 8)
    }

    open spec fn le_readable(bytes: Seq<u8>) -> bool {
        bytes.len() == 8
    }

    open spec fn le_read(bytes: Seq<u8>) -> i64 {
        signed(le_number(bytes), 8) as i64
    }

    fn to_le_vec(&self) -> (bytes: Vec<u8>) {
        proof {
            lemma_limits();
        }
        let number: u64 = if *self >= 0 {
            *self as u64
        } else {
            u64::MAX - ((-(*self + 1)) as u64)
        };
        encode(number as u128, 8)
    }

    fn from_le_vec(bytes: Vec<u8>) -> (value: i64) {
        proof {
            lemma_number_bound(bytes@);
            lemma_limits();
        }
        let number: u64 = decode(&bytes) as u64;
        if number <= i64::MAX as u64 {
            number as i64
        } else {
            -((u64::MAX - number) as i64) - 1
        }
    }
}

impl LeBytesSerialisable for i128 {
    open spec fn le_bytes(value: i128) -> Seq<u8> {
        le_digits(twos_complement(value as int, 16), 16)
    }

    open spec fn le_readable(bytes: Seq<u8>) -> bool {
        bytes.len() == 16
    }

    open spec fn le_read(bytes: Seq<u8>) -> i128 {
        signed(le_number(bytes), 16) as i128
    }

    fn to_le_vec(&self) -> (bytes: Vec<u8>) {
        proof {
            lemma_limits();
        }
        let number: u128 = if *self >= 0 {
            *self as u128
        } else {
            u128::MAX - ((-(*self + 1)) as u128)
        };
        encode(number as u128, 16)
    }

    fn from_le_vec(bytes: Vec<u8>) -> (value: i128) {
        proof {
            lemma_number_bound(bytes@);
            lemma_limits();
        }
        let number: u128 = decode(&bytes) as u128;
        if number <= i128::MAX as u128 {
            number as i128
        } else {
            -((u128::MAX - number) as i128) - 1
        }
    }
}

impl LeBytesSerialisable for bool {
    /// One byte: one for `true`, zero for `false`.
    open spec fn le_bytes(value: bool) -> Seq<u8> {
        seq![if value {
            1u8
        } else {
            0u8
        }]
    }

    open spec fn le_readable(bytes: Seq<u8>) -> bool {
        bytes.len() > 0
    }

    /// Whether the first byte is anything but zero.
    open spec fn le_read(bytes: Seq<u8>) -> bool {
        bytes[0] != 0
    }

    fn to_le_vec(&self) -> (bytes: Vec<u8>) {
        let mut bytes: Vec<u8> = Vec::new();
        bytes.push(if *self {
            1u8
        } else {
            0u8
        });
        assert(bytes@ =~= Self::le_bytes(*self));
        bytes
    }

    fn from_le_vec(bytes: Vec<u8>) -> (value: bool) {
        bytes[0] != 0
    }
}

/// `String::from_utf8`: the string that consists of `bytes`, where they
/// are valid UTF-8, and nothing where they are not.
#[verifier::external_body]
fn string_from_utf8(bytes: Vec<u8>) -> (r: Option<String>)
    ensures
        r is Some <==> valid_utf8(bytes@),
        r matches Some(s) ==> encode_utf8(s@) == bytes@,
{
    String::from_utf8(bytes).ok()
}

impl LeBytesSerialisable for String {
    /// The UTF-8 encoding of the text.
    open spec fn le_bytes(value: Seq<char>) -> Seq<u8> {
        encode_utf8(value)
    }

    open spec fn le_readable(bytes: Seq<u8>) -> bool {
        valid_utf8(bytes)
    }

    open spec fn le_read(bytes: Seq<u8>) -> Seq<char> {
        decode_utf8(bytes)
    }

    fn to_le_vec(&self) -> (bytes: Vec<u8>) {
        vstd::slice::slice_to_vec(self.as_str().as_bytes())
    }

    fn from_le_vec(bytes: Vec<u8>) -> (value: String) {
        let ghost given = bytes@;
        match string_from_utf8(bytes) {
            Some(value) => {
                proof {
                    vstd::utf8::encode_utf8_decode_utf8(value@);
                }
                value
            },
            None => {
                proof {
                    assert(!valid_utf8(given));
                }
                vstd::pervasive::unreached()
            },
        }
    }
}

/// The bytes of the items, one item after the other.
pub open spec fn le_concat<T: LeBytesSerialisable>(items: Seq<T::V>) -> Seq<u8>
    decreases items.len(),
{
    if items.len() == 0 {
        Seq::empty()
    } else {
        le_concat::<T>(items.drop_last()) + T::le_bytes(items.last())
    }
}

/// The number of bytes that one item of a sequence takes. A sequence is
/// cut into items of the size that one item shows: the item that is read
/// from a single zero byte is written again, and what length that has is
/// the size. For numbers of one byte, for `bool` and for `String` the
/// size is one (`lemma_item_sizes`).
pub open spec fn le_item_size<T: LeBytesSerialisable>() -> nat {
    T::le_bytes(T::le_read(seq![0u8])).len()
}

/// The bytes of the item at `index` among items of `size` bytes each.
pub open spec fn le_chunk(bytes: Seq<u8>, size: nat, index: int) -> Seq<u8> {
    bytes.subrange(index * size, index * size + size)
}

impl<T: LeBytesSerialisable> LeBytesSerialisable for Vec<T> {
    open spec fn le_bytes(value: Seq<T::V>) -> Seq<u8> {
        le_concat::<T>(value)
    }

    /// A sequence can be read where an item can be read from a single
    /// zero byte, which tells the size of an item, and from every whole
    /// chunk of that size.
    open spec fn le_readable(bytes: Seq<u8>) -> bool {
        &&& T::le_readable(seq![0u8])
        &&& le_item_size::<T>() > 0
        &&& forall|k: int|
            0 <= k < bytes.len() / le_item_size::<T>() ==> T::le_readable(
                #[trigger] le_chunk(bytes, le_item_size::<T>(), k),
            )
    }

    /// One item for every whole chunk, in order. Bytes that are left over
    /// after the last whole chunk are ignored.
    open spec fn le_read(bytes: Seq<u8>) -> Seq<T::V> {
        Seq::new(
            bytes.len() / le_item_size::<T>(),
            |k: int| T::le_read(le_chunk(bytes, le_item_size::<T>(), k)),
        )
    }

    fn to_le_vec(&self) -> (bytes: Vec<u8>) {
        let mut bytes: Vec<u8> = Vec::new();
        let mut i: usize = 0;
        assert(self.deep_view().subrange(0, 0) =~= Seq::<T::V>::empty());
        while i < self.len()
            invariant
                i <= self.len(),
                bytes@ == le_concat::<T>(self.deep_view().subrange(0, i as int)),
            decreases self.len() - i,
        {
            let mut item = self[i].to_le_vec();
            proof {
                let prefix = self.deep_view().subrange(0, i + 1);
                assert(prefix.drop_last() =~= self.deep_view().subrange(0, i as int));
                assert(prefix.last() == self@[i as int].deep_view());
            }
            bytes.append(&mut item);
            i += 1;
        }
        assert(self.deep_view().subrange(0, i as int) =~= self.deep_view());
        bytes
    }

    fn from_le_vec(bytes: Vec<u8>) -> (value: Vec<T>) {
        let mut items: Vec<T> = Vec::new();
        let mut zero: Vec<u8> = Vec::new();
        zero.push(0u8);
        assert(zero@ =~= seq![0u8]);
        let size = T::from_le_vec(zero).to_le_vec().len();
        let mut start: usize = 0;
        assert(0 * size == 0) by (nonlinear_arith);
        while bytes.len() - start >= size
            invariant
                size == le_item_size::<T>(),
                size > 0,
                Self::le_readable(bytes@),
                start <= bytes@.len(),
                start == items@.len() * size,
                items@.len() <= bytes@.len() / (size as nat),
                forall|k: int|
                    0 <= k < items@.len() ==> (#[trigger] items@[k]).deep_view() == T::le_read(
                        le_chunk(bytes@, size as nat, k),
                    ),
            decreases bytes@.len() - start,
        {
            let ghost k = items@.len() as int;
            proof {
                assert((k + 1) * size == k * size + size) by (nonlinear_arith);
                assert(k + 1 <= bytes@.len() / (size as nat)) by (nonlinear_arith)
                    requires
                        (k + 1) * size <= bytes@.len(),
                        size > 0,
                ;
                assert(T::le_readable(le_chunk(bytes@, size as nat, k)));
            }
            let mut chunk: Vec<u8> = Vec::new();
            let mut j: usize = 0;
            while j < size
                invariant
                    j <= size,
                    start + size <= bytes@.len() <= usize::MAX,
                    chunk@.len() == j,
                    forall|m: int| 0 <= m < j ==> chunk@[m] == bytes@[start + m],
                decreases size - j,
            {
                chunk.push(bytes[start + j]);
                j += 1;
            }
            assert(chunk@ =~= le_chunk(bytes@, size as nat, k));
            items.push(T::from_le_vec(chunk));
            start += size;
        }
        proof {
            let k = items@.len() as int;
            assert(bytes@.len() / (size as nat) == k) by (nonlinear_arith)
                requires
                    k * size <= bytes@.len() < k * size + size,
                    size > 0,
                    k <= bytes@.len() / (size as nat),
            ;
            assert(items.deep_view() =~= Self::le_read(bytes@));
        }
        items
    }
}

/// Which sequences can be read. Items of one byte are read byte by byte:
/// their size is one, and every byte string is a sequence of them. An
/// item of more bytes cannot be read from the single zero byte that is
/// to tell its size, so no byte string can be read as a sequence of such
/// items.
pub proof fn lemma_item_sizes(bytes: Seq<u8>)
    ensures
        le_item_size::<u8>() == 1,
        le_item_size::<i8>() == 1,
        le_item_size::<bool>() == 1,
        le_item_size::<String>() == 1,
        Vec::<u8>::le_readable(bytes),
        Vec::<i8>::le_readable(bytes),
        Vec::<bool>::le_readable(bytes),
        Vec::<u8>::le_read(bytes) == bytes,
        !Vec::<u16>::le_readable(bytes),
        !Vec::<u32>::le_readable(bytes),
        !Vec::<u64>::le_readable(bytes),
        !Vec::<u128>::le_readable(bytes),
        !Vec::<i16>::le_readable(bytes),
        !Vec::<i32>::le_readable(bytes),
        !Vec::<i64>::le_readable(bytes),
        !Vec::<i128>::le_readable(bytes),
{
    lemma_limits();
    let zero = seq![0u8];
    assert(valid_utf8(zero)) by {
        reveal_with_fuel(valid_utf8, 2);
        assert(vstd::utf8::valid_first_scalar(zero));
        assert(vstd::utf8::pop_first_scalar(zero).len() == 0);
    }
    vstd::utf8::decode_utf8_encode_utf8(zero);
    lemma_digits_len(u8::le_read(zero) as nat, 1);
    lemma_digits_len(twos_complement(i8::le_read(zero) as int, 1), 1);
    assert forall|k: int| 0 <= k < bytes.len() / 1 implies (#[trigger] le_chunk(bytes, 1, k)).len()
        == 1 by {}
    assert(Vec::<u8>::le_read(bytes) =~= bytes) by {
        assert forall|k: int| 0 <= k < bytes.len() implies Vec::<u8>::le_read(bytes)[k]
            == bytes[k] by {
            let chunk = le_chunk(bytes, 1, k);
            assert(chunk.len() == 1);
            assert(chunk[0] == bytes[k]);
            assert(chunk.drop_first().len() == 0);
            reveal_with_fuel(le_number, 2);
        }
    }
}

/// What is written of a number, a `bool` or a text can be read, and
/// reading it gives the value back.
pub proof fn lemma_le_round_trip(
    a: u8,
    b: u16,
    c: u32,
    d: u64,
    e: u128,
    f: i8,
    g: i16,
    h: i32,
    i: i64,
    j: i128,
    flag: bool,
    text: Seq<char>,
)
    ensures
        u8::le_readable(u8::le_bytes(a)) && u8::le_read(u8::le_bytes(a)) == a,
        u16::le_readable(u16::le_bytes(b)) && u16::le_read(u16::le_bytes(b)) == b,
        u32::le_readable(u32::le_bytes(c)) && u32::le_read(u32::le_bytes(c)) == c,
        u64::le_readable(u64::le_bytes(d)) && u64::le_read(u64::le_bytes(d)) == d,
        u128::le_readable(u128::le_bytes(e)) && u128::le_read(u128::le_bytes(e)) == e,
        i8::le_readable(i8::le_bytes(f)) && i8::le_read(i8::le_bytes(f)) == f,
        i16::le_readable(i16::le_bytes(g)) && i16::le_read(i16::le_bytes(g)) == g,
        i32::le_readable(i32::le_bytes(h)) && i32::le_read(i32::le_bytes(h)) == h,
        i64::le_readable(i64::le_bytes(i)) && i64::le_read(i64::le_bytes(i)) == i,
        i128::le_readable(i128::le_bytes(j)) && i128::le_read(i128::le_bytes(j)) == j,
        bool::le_readable(bool::le_bytes(flag)) && bool::le_read(bool::le_bytes(flag)) == flag,
        String::le_readable(String::le_bytes(text)) && String::le_read(String::le_bytes(text))
            == text,
{
    lemma_limits();
    lemma_digits_len(a as nat, 1);
    lemma_number_of_digits(a as nat, 1);
    lemma_digits_len(b as nat, 2);
    lemma_number_of_digits(b as nat, 2);
    lemma_digits_len(c as nat, 4);
    lemma_number_of_digits(c as nat, 4);
    lemma_digits_len(d as nat, 8);
    lemma_number_of_digits(d as nat, 8);
    lemma_digits_len(e as nat, 16);
    lemma_number_of_digits(e as nat, 16);
    lemma_signed_round_trip(f as int, 1);
    lemma_digits_len(twos_complement(f as int, 1), 1);
    lemma_number_of_digits(twos_complement(f as int, 1), 1);
    lemma_signed_round_trip(g as int, 2);
    lemma_digits_len(twos_complement(g as int, 2), 2);
    lemma_number_of_digits(twos_complement(g as int, 2), 2);
    lemma_signed_round_trip(h as int, 4);
    lemma_digits_len(twos_complement(h as int, 4), 4);
    lemma_number_of_digits(twos_complement(h as int, 4), 4);
    lemma_signed_round_trip(i as int, 8);
    lemma_digits_len(twos_complement(i as int, 8), 8);
    lemma_number_of_digits(twos_complement(i as int, 8), 8);
    lemma_signed_round_trip(j as int, 16);
    lemma_digits_len(twos_complement(j as int, 16), 16);
    lemma_number_of_digits(twos_complement(j as int, 16), 16);
    vstd::utf8::encode_utf8_valid_utf8(text);
    vstd::utf8::encode_utf8_decode_utf8(text);
}

} // verus!
