use bluedroid::utilities::LeBytesSerialisable;

#[test]
fn unsigned_numbers_are_written_low_byte_first() {
    assert_eq!(0x12u8.to_le_vec(), vec![0x12]);
    assert_eq!(0x1234u16.to_le_vec(), vec![0x34, 0x12]);
    assert_eq!(0x1234_5678u32.to_le_vec(), vec![0x78, 0x56, 0x34, 0x12]);
    assert_eq!(0x0102_0304_0506_0708u64.to_le_vec(), vec![8, 7, 6, 5, 4, 3, 2, 1]);
    assert_eq!(
        0x0102_0304_0506_0708_090A_0B0C_0D0E_0F10u128.to_le_vec(),
        vec![16, 15, 14, 13, 12, 11, 10, 9, 8, 7, 6, 5, 4, 3, 2, 1]
    );
    assert_eq!(u16::MAX.to_le_vec(), vec![0xFF, 0xFF]);
    assert_eq!(u128::MAX.to_le_vec(), vec![0xFF; 16]);
    assert_eq!(0u64.to_le_vec(), vec![0; 8]);
}

#[test]
fn signed_numbers_are_written_in_twos_complement() {
    assert_eq!((-1i8).to_le_vec(), vec![0xFF]);
    assert_eq!(i8::MIN.to_le_vec(), vec![0x80]);
    assert_eq!(i8::MAX.to_le_vec(), vec![0x7F]);
    assert_eq!((-2i16).to_le_vec(), vec![0xFE, 0xFF]);
    assert_eq!(i16::MIN.to_le_vec(), vec![0x00, 0x80]);
    assert_eq!(0x0102i16.to_le_vec(), vec![0x02, 0x01]);
    assert_eq!((-0x1234_5678i32).to_le_vec(), (-0x1234_5678i32).to_le_bytes().to_vec());
    assert_eq!(i64::MIN.to_le_vec(), i64::MIN.to_le_bytes().to_vec());
    assert_eq!((-3i128).to_le_vec(), (-3i128).to_le_bytes().to_vec());
    assert_eq!(i128::MIN.to_le_vec(), i128::MIN.to_le_bytes().to_vec());
    assert_eq!(i128::MAX.to_le_vec(), i128::MAX.to_le_bytes().to_vec());
}

#[test]
fn numbers_are_read_back() {
    assert_eq!(u8::from_le_vec(vec![0x12]), 0x12);
    assert_eq!(u16::from_le_vec(vec![0x34, 0x12]), 0x1234);
    assert_eq!(u32::from_le_vec(vec![0x78, 0x56, 0x34, 0x12]), 0x1234_5678);
    assert_eq!(u64::from_le_vec(vec![8, 7, 6, 5, 4, 3, 2, 1]), 0x0102_0304_0506_0708);
    assert_eq!(u128::from_le_vec(vec![0xFF; 16]), u128::MAX);
    assert_eq!(i8::from_le_vec(vec![0x80]), i8::MIN);
    assert_eq!(i16::from_le_vec(vec![0xFE, 0xFF]), -2);
    assert_eq!(i32::from_le_vec(vec![0xFF, 0xFF, 0xFF, 0x7F]), i32::MAX);
    assert_eq!(i64::from_le_vec(vec![0, 0, 0, 0, 0, 0, 0, 0x80]), i64::MIN);
    assert_eq!(i128::from_le_vec((-3i128).to_le_bytes().to_vec()), -3);
    for value in [0u16, 1, 255, 256, 0x8000, u16::MAX] {
        assert_eq!(u16::from_le_vec(value.to_le_vec()), value);
    }
    for value in [i32::MIN, -65536, -1, 0, 1, 65535, i32::MAX] {
        assert_eq!(i32::from_le_vec(value.to_le_vec()), value);
    }
}

#[test]
fn booleans_are_one_byte() {
    assert_eq!(true.to_le_vec(), vec![1]);
    assert_eq!(false.to_le_vec(), vec![0]);
    assert!(bool::from_le_vec(vec![1]));
    assert!(bool::from_le_vec(vec![0x80, 0]));
    assert!(!bool::from_le_vec(vec![0]));
    assert!(!bool::from_le_vec(vec![0, 1]));
}

#[test]
fn text_is_its_utf8() {
    assert_eq!(String::from("Grüße").to_le_vec(), "Grüße".as_bytes().to_vec());
    assert_eq!(String::from_le_vec(vec![0x45, 0x53, 0x50]), "ESP");
    assert_eq!(String::from_le_vec("Grüße".as_bytes().to_vec()), "Grüße");
    assert_eq!(String::from_le_vec(vec![]), "");
}

#[test]
fn sequences_are_written_item_after_item() {
    assert_eq!(vec![1u8, 2, 3].to_le_vec(), vec![1, 2, 3]);
    assert_eq!(vec![0x0102u16, 0x0304].to_le_vec(), vec![2, 1, 4, 3]);
    assert_eq!(vec![true, false, true].to_le_vec(), vec![1, 0, 1]);
    assert_eq!(vec![String::from("ab"), String::from("c")].to_le_vec(), vec![b'a', b'b', b'c']);
    assert_eq!(Vec::<u32>::new().to_le_vec(), Vec::<u8>::new());
    assert_eq!(vec![vec![1u8, 2], vec![3u8]].to_le_vec(), vec![1, 2, 3]);
}

#[test]
fn sequences_of_one_byte_items_are_read_back() {
    assert_eq!(Vec::<u8>::from_le_vec(vec![1, 2, 3]), vec![1u8, 2, 3]);
    assert_eq!(Vec::<i8>::from_le_vec(vec![0xFF, 1]), vec![-1i8, 1]);
    assert_eq!(Vec::<bool>::from_le_vec(vec![0, 7, 0]), vec![false, true, false]);
    assert_eq!(Vec::<u8>::from_le_vec(vec![]), Vec::<u8>::new());
    assert_eq!(
        Vec::<String>::from_le_vec(vec![b'o', b'k']),
        vec![String::from("o"), String::from("k")]
    );
}
