use chat_client::byte_order::{convert_be_u8_array_to_u32, convert_u32_to_be_u8_array};

#[test]
fn zero_is_four_zero_bytes() {
    assert_eq!(convert_u32_to_be_u8_array(0), [0, 0, 0, 0]);
    assert_eq!(convert_be_u8_array_to_u32(&[0, 0, 0, 0]), 0);
}

#[test]
fn most_significant_byte_comes_first() {
    assert_eq!(convert_u32_to_be_u8_array(0x0102_0304), [1, 2, 3, 4]);
    assert_eq!(convert_u32_to_be_u8_array(258), [0, 0, 1, 2]);
    assert_eq!(convert_u32_to_be_u8_array(0xff00_0000), [0xff, 0, 0, 0]);
}

#[test]
fn four_bytes_read_as_big_endian() {
    assert_eq!(convert_be_u8_array_to_u32(&[1, 2, 3, 4]), 0x0102_0304);
    assert_eq!(convert_be_u8_array_to_u32(&[0, 0, 0, 11]), 11);
    assert_eq!(convert_be_u8_array_to_u32(&[0, 1, 0, 0]), 65_536);
}

#[test]
fn greatest_value_is_four_full_bytes() {
    assert_eq!(convert_u32_to_be_u8_array(u32::MAX), [0xff, 0xff, 0xff, 0xff]);
    assert_eq!(convert_be_u8_array_to_u32(&[0xff, 0xff, 0xff, 0xff]), u32::MAX);
}

#[test]
fn integer_survives_the_way_there_and_back() {
    let samples: [u32; 9] =
        [0, 1, 255, 256, 65_535, 65_536, 0x7fff_ffff, 0x8000_0000, u32::MAX];
    for value in samples {
        let bytes = convert_u32_to_be_u8_array(value);
        assert_eq!(convert_be_u8_array_to_u32(&bytes), value);
    }
}

#[test]
fn bytes_survive_the_way_there_and_back() {
    let samples: [[u8; 4]; 4] = [[0, 0, 0, 0], [1, 2, 3, 4], [255, 0, 255, 0], [9, 8, 7, 255]];
    for bytes in samples {
        let value = convert_be_u8_array_to_u32(&bytes);
        assert_eq!(convert_u32_to_be_u8_array(value), bytes);
    }
}
