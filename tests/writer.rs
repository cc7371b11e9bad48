use nibble_codec::Writer;

#[test]
fn write_boolean() {
    let mut data = Vec::new();
    {
        let mut writer = Writer::new(&mut data);
        writer.write_bool(true).unwrap();
        writer.write_bool(false).unwrap();
        writer.write_bool_opt(None).unwrap();
    }
    assert_eq!(&data[..], &[0x11, 0x12, 0x10])
}

#[test]
fn write_positive_int() {
    let mut data = Vec::new();
    {
        let mut writer = Writer::new(&mut data);
        writer.write_int_pos(0).unwrap();
        writer.write_int_pos(u64::max_value()).unwrap();
        writer.write_int_pos(0x1234).unwrap();
        writer.write_int_pos_opt(None).unwrap();
    }
    assert_eq!(&data[..], &[
        0x21, 0x00,
        0x28, 0xFF, 0xFF, 0xFF, 0xFF, 0xFF, 0xFF, 0xFF, 0xFF,
        0x22, 0x12, 0x34,
        0x20
    ]);
}

#[test]
fn write_negitive_int() {
    let mut data = Vec::new();
    {
        let mut writer = Writer::new(&mut data);
        writer.write_int_neg(1).unwrap();
        writer.write_int_neg(0x1234).unwrap();
        writer.write_int_neg_opt(None).unwrap();
    }
    assert_eq!(&data[..], &[
        0x31, 0x00,
        0x32, 0x12, 0x33,
        0x30
    ]);
}

#[test]
#[should_panic]
fn write_negative_zero() {
    let mut data = Vec::new();
    let mut writer = Writer::new(&mut data);
    writer.write_int_neg(0).unwrap();
}

#[test]
fn write_ints() {
    let mut data = Vec::new();
    {
        let mut writer = Writer::new(&mut data);
        writer.write_int(0x01020304).unwrap();
        writer.write_int(-1).unwrap();
        writer.write_int(-257).unwrap();
        writer.write_int_opt(None).unwrap();
    }
    assert_eq!(&data[..], &[
        0x24, 0x01, 0x02, 0x03, 0x04,
        0x31, 0x00,
        0x32, 0x01, 0x00,
        0x20
    ]);
}

#[test]
fn write_int_extremes() {
    let mut data = Vec::new();
    {
        let mut writer = Writer::new(&mut data);
        writer.write_int(0).unwrap();
        writer.write_int(i64::MAX).unwrap();
        writer.write_int(i64::MIN).unwrap();
    }
    assert_eq!(&data[..], &[
        0x21, 0x00,
        0x28, 0x7F, 0xFF, 0xFF, 0xFF, 0xFF, 0xFF, 0xFF, 0xFF,
        0x38, 0x7F, 0xFF, 0xFF, 0xFF, 0xFF, 0xFF, 0xFF, 0xFF,
    ]);
}

#[test]
fn write_int_neg_largest_magnitude() {
    let mut data = Vec::new();
    {
        let mut writer = Writer::new(&mut data);
        writer.write_int_neg(u64::MAX).unwrap();
        writer.write_int_neg(256).unwrap();
        writer.write_int_neg(257).unwrap();
    }
    assert_eq!(&data[..], &[
        0x38, 0xFF, 0xFF, 0xFF, 0xFF, 0xFF, 0xFF, 0xFF, 0xFE,
        0x31, 0xFF,
        0x32, 0x01, 0x00,
    ]);
}

#[test]
fn write_opt_present_matches_plain() {
    let mut plain = Vec::new();
    let mut opt = Vec::new();
    {
        let mut writer = Writer::new(&mut plain);
        writer.write_bool(true).unwrap();
        writer.write_int_pos(300).unwrap();
        writer.write_int_neg(300).unwrap();
        writer.write_int(-300).unwrap();
    }
    {
        let mut writer = Writer::new(&mut opt);
        writer.write_bool_opt(Some(true)).unwrap();
        writer.write_int_pos_opt(Some(300)).unwrap();
        writer.write_int_neg_opt(Some(300)).unwrap();
        writer.write_int_opt(Some(-300)).unwrap();
    }
    assert_eq!(plain, opt);
    assert_eq!(&plain[..], &[0x11, 0x22, 0x01, 0x2C, 0x32, 0x01, 0x2B, 0x32, 0x01, 0x2B]);
}
