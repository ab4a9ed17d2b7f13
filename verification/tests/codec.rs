use visu_modi_ram::memory_interface::{
    aligned, from_le_bytes, limits, to_le_bytes, Encoding, MCUMemory, MemoryAccess, MemoryError,
    MemoryWrite, ReadValue, ScalarType,
};
use visu_modi_ram::variable::VariableInfo;

fn variable(name: &str, types: &str, address: u64, size: usize) -> VariableInfo {
    VariableInfo { name: name.to_string(), types: types.to_string(), address, size }
}

#[test]
fn write_then_read_unsigned_short() {
    let symbol = variable("adc.offset", "short unsigned int", 0x2000_0010, 2);
    let command = MCUMemory::write(&symbol, "300", None).unwrap();
    assert_eq!(command, MemoryWrite { address: 0x2000_0010, unit: 1, data: vec![0x2c, 0x01] });
    let back = MCUMemory::read(&symbol, &command.data).unwrap();
    assert_eq!(back, ReadValue::Text("300".to_string()));
}

#[test]
fn read_float_gives_bit_pattern() {
    let symbol = variable("temp", "float", 0x2000_0020, 4);
    let memory = 23.5f32.to_bits().to_le_bytes().to_vec();
    let back = MCUMemory::read(&symbol, &memory).unwrap();
    match back {
        ReadValue::Single(bits) => assert_eq!(format!("{:?}", f32::from_bits(bits)), "23.5"),
        other => panic!("unexpected value {:?}", other),
    }
    assert_eq!(
        MCUMemory::access(&symbol),
        Some(MemoryAccess { address: 0x2000_0020, unit: 4, count: 1 })
    );
}

#[test]
fn dispatch_table() {
    let signed = |width| Some(ScalarType { width, encoding: Encoding::Signed });
    let unsigned = |width| Some(ScalarType { width, encoding: Encoding::Unsigned });
    let float = |width| Some(ScalarType { width, encoding: Encoding::Float });
    assert_eq!(MCUMemory::scalar_type("signed char"), signed(1));
    assert_eq!(MCUMemory::scalar_type("char"), signed(1));
    assert_eq!(MCUMemory::scalar_type("unsigned char"), unsigned(1));
    assert_eq!(MCUMemory::scalar_type("bool"), unsigned(1));
    assert_eq!(MCUMemory::scalar_type("_Bool"), unsigned(1));
    assert_eq!(MCUMemory::scalar_type("short int"), signed(2));
    assert_eq!(MCUMemory::scalar_type("short unsigned int"), unsigned(2));
    assert_eq!(MCUMemory::scalar_type("int"), signed(4));
    assert_eq!(MCUMemory::scalar_type("long int"), signed(4));
    assert_eq!(MCUMemory::scalar_type("unsigned int"), unsigned(4));
    assert_eq!(MCUMemory::scalar_type("long unsigned int"), unsigned(4));
    assert_eq!(MCUMemory::scalar_type("long long int"), signed(8));
    assert_eq!(MCUMemory::scalar_type("long long unsigned int"), unsigned(8));
    assert_eq!(MCUMemory::scalar_type("float"), float(4));
    assert_eq!(MCUMemory::scalar_type("double"), float(8));
    assert_eq!(MCUMemory::scalar_type("long double"), float(8));
    assert_eq!(MCUMemory::scalar_type("uint16_t"), None);
    assert_eq!(MCUMemory::scalar_type(""), None);
}

#[test]
fn names_are_normalized() {
    let unsigned = Some(ScalarType { width: 4, encoding: Encoding::Unsigned });
    assert_eq!(MCUMemory::scalar_type("volatile unsigned int"), unsigned);
    assert_eq!(MCUMemory::scalar_type("unsigned int ["), unsigned);
    assert_eq!(MCUMemory::scalar_type("volatile unsigned int ["), unsigned);
    assert_eq!(MCUMemory::scalar_type("const unsigned int"), None);
    assert_eq!(MCUMemory::scalar_type("volatile volatile int"), None);
}

#[test]
fn write_rejects_malformed_text() {
    let byte = variable("b", "unsigned char", 0x10, 1);
    for text in ["", "+", "-", "-1", "256", "1.0", " 1", "1 ", "0x10", "١"] {
        assert_eq!(MCUMemory::write(&byte, text, None), Err(MemoryError::ParseError), "{text}");
    }
    let signed = variable("c", "char", 0x10, 1);
    for text in ["128", "-129", "--1", "+-1", "1e2"] {
        assert_eq!(MCUMemory::write(&signed, text, None), Err(MemoryError::ParseError), "{text}");
    }
}

#[test]
fn write_rejects_unknown_type() {
    let symbol = variable("s", "struct point", 0x10, 8);
    assert_eq!(MCUMemory::write(&symbol, "1", None), Err(MemoryError::UnsupportedType));
    assert_eq!(MCUMemory::read(&symbol, &vec![0; 8]), Err(MemoryError::UnsupportedType));
    assert_eq!(MCUMemory::access(&symbol), None);
}

#[test]
fn read_rejects_short_memory() {
    let symbol = variable("i", "int", 0x10, 4);
    assert_eq!(MCUMemory::read(&symbol, &vec![1, 2, 3]), Err(MemoryError::IgnoredOutput));
}

#[test]
fn write_accepts_sign_and_leading_zeros() {
    let symbol = variable("c", "signed char", 0x10, 1);
    assert_eq!(MCUMemory::write(&symbol, "+127", None).unwrap().data, vec![0x7f]);
    assert_eq!(MCUMemory::write(&symbol, "-128", None).unwrap().data, vec![0x80]);
    assert_eq!(MCUMemory::write(&symbol, "-0", None).unwrap().data, vec![0x00]);
    assert_eq!(MCUMemory::write(&symbol, "000012", None).unwrap().data, vec![12]);
}

#[test]
fn write_units_follow_the_type() {
    let w = |types: &str, text: &str, bits: Option<u64>| {
        MCUMemory::write(&variable("v", types, 0x2000_0000, 0), text, bits).unwrap()
    };
    assert_eq!(w("char", "-1", None), MemoryWrite { address: 0x2000_0000, unit: 1, data: vec![0xff] });
    assert_eq!(
        w("short int", "-2", None),
        MemoryWrite { address: 0x2000_0000, unit: 1, data: vec![0xfe, 0xff] }
    );
    assert_eq!(
        w("int", "-2147483648", None),
        MemoryWrite { address: 0x2000_0000, unit: 4, data: vec![0, 0, 0, 0x80] }
    );
    assert_eq!(
        w("long unsigned int", "4294967295", None),
        MemoryWrite { address: 0x2000_0000, unit: 4, data: vec![0xff; 4] }
    );
    assert_eq!(
        w("long long int", "-9223372036854775808", None),
        MemoryWrite { address: 0x2000_0000, unit: 4, data: vec![0, 0, 0, 0, 0, 0, 0, 0x80] }
    );
    assert_eq!(
        w("long long unsigned int", "18446744073709551615", None),
        MemoryWrite { address: 0x2000_0000, unit: 4, data: vec![0xff; 8] }
    );
    assert_eq!(
        w("float", "23.5", Some(23.5f32.to_bits() as u64)),
        MemoryWrite { address: 0x2000_0000, unit: 4, data: vec![0x00, 0x00, 0xbc, 0x41] }
    );
    assert_eq!(
        w("double", "1.0", Some(1.0f64.to_bits())),
        MemoryWrite { address: 0x2000_0000, unit: 8, data: vec![0, 0, 0, 0, 0, 0, 0xf0, 0x3f] }
    );
}

#[test]
fn float_write_needs_bits() {
    let symbol = variable("t", "float", 0x10, 4);
    assert_eq!(MCUMemory::write(&symbol, "abc", None), Err(MemoryError::ParseError));
    assert_eq!(
        MCUMemory::write(&symbol, "1.0", Some(0x1_0000_0000)),
        Err(MemoryError::ParseError)
    );
}

#[test]
fn read_signed_values() {
    let r = |types: &str, memory: Vec<u8>| MCUMemory::read(&variable("v", types, 0, 0), &memory);
    assert_eq!(r("char", vec![0x80]), Ok(ReadValue::Text("-128".to_string())));
    assert_eq!(r("unsigned char", vec![0x80]), Ok(ReadValue::Text("128".to_string())));
    assert_eq!(r("short int", vec![0xff, 0xff]), Ok(ReadValue::Text("-1".to_string())));
    assert_eq!(r("int", vec![0, 0, 0, 0]), Ok(ReadValue::Text("0".to_string())));
    assert_eq!(
        r("long long int", vec![0, 0, 0, 0, 0, 0, 0, 0x80]),
        Ok(ReadValue::Text("-9223372036854775808".to_string()))
    );
    assert_eq!(
        r("long long unsigned int", vec![0xff; 8]),
        Ok(ReadValue::Text("18446744073709551615".to_string()))
    );
    assert_eq!(r("double", 2.5f64.to_bits().to_le_bytes().to_vec()), Ok(ReadValue::Double(2.5f64.to_bits())));
    assert_eq!(r("int", vec![1, 0, 0, 0, 9, 9]), Ok(ReadValue::Text("1".to_string())));
}

#[test]
fn round_trip_every_integer_type() {
    let cases: [(&str, i128, i128); 8] = [
        ("char", -128, 127),
        ("unsigned char", 0, 255),
        ("short int", -32768, 32767),
        ("short unsigned int", 0, 65535),
        ("int", -2147483648, 2147483647),
        ("unsigned int", 0, 4294967295),
        ("long long int", i64::MIN as i128, i64::MAX as i128),
        ("long long unsigned int", 0, u64::MAX as i128),
    ];
    for (types, min, max) in cases {
        let symbol = variable("v", types, 0x100, 0);
        for v in [min, min + 1, -1, 0, 1, 42, max - 1, max] {
            if v < min || v > max {
                continue;
            }
            let text = v.to_string();
            let command = MCUMemory::write(&symbol, &text, None).unwrap();
            let back = MCUMemory::read(&symbol, &command.data).unwrap();
            assert_eq!(back, ReadValue::Text(text), "{types}");
        }
        assert_eq!(
            MCUMemory::write(&symbol, &(max + 1).to_string(), None),
            Err(MemoryError::ParseError)
        );
        assert_eq!(
            MCUMemory::write(&symbol, &(min - 1).to_string(), None),
            Err(MemoryError::ParseError)
        );
    }
}

#[test]
fn transfers_are_aligned() {
    let access = |types: &str, address: u64| {
        let a = MCUMemory::access(&variable("v", types, address, 0)).unwrap();
        (a.unit, a.count)
    };
    assert_eq!(access("char", 0x2000_0003), (1, 1));
    assert_eq!(access("short int", 0x2000_0002), (1, 2));
    assert_eq!(access("short int", 0x2000_0003), (1, 2));
    assert_eq!(access("int", 0x2000_0004), (4, 1));
    assert_eq!(access("int", 0x2000_0006), (1, 4));
    assert_eq!(access("float", 0x2000_0001), (1, 4));
    assert_eq!(access("long long int", 0x2000_0008), (8, 1));
    assert_eq!(access("long long int", 0x2000_000c), (4, 2));
    assert_eq!(access("double", 0x2000_000a), (1, 8));
    let unit = |types: &str, address: u64, text: &str, bits: Option<u64>| {
        MCUMemory::write(&variable("v", types, address, 0), text, bits).unwrap().unit
    };
    assert_eq!(unit("int", 0x2000_0004, "1", None), 4);
    assert_eq!(unit("int", 0x2000_0005, "1", None), 1);
    assert_eq!(unit("long long int", 0x2000_0008, "1", None), 4);
    assert_eq!(unit("long long int", 0x2000_000a, "1", None), 1);
    assert_eq!(unit("double", 0x2000_0008, "1", Some(1)), 8);
    assert_eq!(unit("double", 0x2000_000c, "1", Some(1)), 4);
    assert_eq!(unit("double", 0x2000_000d, "1", Some(1)), 1);
    assert_eq!(unit("short int", 0x2000_0008, "1", None), 1);
    assert_eq!(aligned(0x10, 8), 8);
    assert_eq!(aligned(0x14, 8), 4);
    assert_eq!(aligned(0x12, 8), 1);
    assert_eq!(aligned(0x10, 4), 4);
    assert_eq!(aligned(0x10, 2), 1);
    assert_eq!(aligned(0x10, 1), 1);
}

#[test]
fn bytes_and_limits() {
    assert_eq!(to_le_bytes(0x0102_0304, 4), vec![4, 3, 2, 1]);
    assert_eq!(to_le_bytes(0x0102_0304, 2), vec![4, 3]);
    assert_eq!(to_le_bytes(1, 0), Vec::<u8>::new());
    assert_eq!(to_le_bytes(u64::MAX, 9), vec![255, 255, 255, 255, 255, 255, 255, 255, 0]);
    assert_eq!(from_le_bytes(&vec![4, 3, 2, 1], 4), 0x0102_0304);
    assert_eq!(from_le_bytes(&vec![4, 3, 2, 1], 2), 0x0304);
    assert_eq!(from_le_bytes(&vec![4, 3, 2, 1], 0), 0);
    assert_eq!(from_le_bytes(&vec![255; 8], 8), u64::MAX);
    assert_eq!(limits(ScalarType { width: 1, encoding: Encoding::Signed }), (-128, 127));
    assert_eq!(limits(ScalarType { width: 2, encoding: Encoding::Unsigned }), (0, 65535));
    assert_eq!(limits(ScalarType { width: 4, encoding: Encoding::Float }), (0, 4294967295));
    assert_eq!(
        limits(ScalarType { width: 8, encoding: Encoding::Signed }),
        (i64::MIN as i128, i64::MAX as i128)
    );
}
