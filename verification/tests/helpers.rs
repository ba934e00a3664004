use modbus::helpers::{Endian, HelpersError, WordOrder, i16_from_bytes, i16_to_bytes, i32_from_registers, i32_to_registers, i64_from_registers, i64_to_registers, string_from_registers, string_to_registers, u16_from_bytes, u16_to_bytes, u32_from_registers, u32_to_registers, u64_from_registers, u64_to_registers};

#[test]
fn u16_roundtrip_big_endian() {
    assert_eq!(u16_from_bytes(&[0x12, 0x34], Endian::Big).unwrap(), 0x1234);
    assert_eq!(u16_to_bytes(0x1234, Endian::Big), [0x12, 0x34]);
}

#[test]
fn u16_roundtrip_little_endian() {
    assert_eq!(
        u16_from_bytes(&[0x34, 0x12], Endian::Little).unwrap(),
        0x1234
    );
    assert_eq!(u16_to_bytes(0x1234, Endian::Little), [0x34, 0x12]);
}

#[test]
fn u16_rejects_wrong_length() {
    assert!(matches!(
        u16_from_bytes(&[0x12], Endian::Big),
        Err(HelpersError::InvalidLength)
    ));
}

#[test]
fn u32_msf_be() {
    // regs[0] = high word, bytes within register are big-endian.
    let regs = [0x1234, 0x5678];
    assert_eq!(
        u32_from_registers(&regs, Endian::Big, WordOrder::MostSignificantFirst).unwrap(),
        0x1234_5678
    );
    assert_eq!(
        u32_to_registers(0x1234_5678, Endian::Big, WordOrder::MostSignificantFirst),
        regs
    );
}

#[test]
fn u32_lsf_be() {
    // regs[0] = low word.
    let regs = [0x5678, 0x1234];
    assert_eq!(
        u32_from_registers(&regs, Endian::Big, WordOrder::LeastSignificantFirst).unwrap(),
        0x1234_5678
    );
    assert_eq!(
        u32_to_registers(0x1234_5678, Endian::Big, WordOrder::LeastSignificantFirst),
        regs
    );
}

#[test]
fn u32_msf_le() {
    // regs[0] = high word, but bytes within each register are little-endian.
    let regs = [0x3412, 0x7856];
    assert_eq!(
        u32_from_registers(&regs, Endian::Little, WordOrder::MostSignificantFirst).unwrap(),
        0x1234_5678
    );
    assert_eq!(
        u32_to_registers(0x1234_5678, Endian::Little, WordOrder::MostSignificantFirst),
        regs
    );
}

#[test]
fn u32_lsf_le() {
    let regs = [0x7856, 0x3412];
    assert_eq!(
        u32_from_registers(&regs, Endian::Little, WordOrder::LeastSignificantFirst).unwrap(),
        0x1234_5678
    );
    assert_eq!(
        u32_to_registers(
            0x1234_5678,
            Endian::Little,
            WordOrder::LeastSignificantFirst
        ),
        regs
    );
}

#[test]
fn u32_rejects_wrong_length() {
    assert!(matches!(
        u32_from_registers(&[0x0000], Endian::Big, WordOrder::MostSignificantFirst),
        Err(HelpersError::InvalidLength)
    ));
}

#[test]
fn u64_roundtrip_all_orders() {
    let value = 0x0123_4567_89AB_CDEFu64;
    for (endian, word_order) in [
        (Endian::Big, WordOrder::MostSignificantFirst),
        (Endian::Big, WordOrder::LeastSignificantFirst),
        (Endian::Little, WordOrder::MostSignificantFirst),
        (Endian::Little, WordOrder::LeastSignificantFirst),
    ] {
        let regs = u64_to_registers(value, endian, word_order);
        assert_eq!(
            u64_from_registers(&regs, endian, word_order).unwrap(),
            value,
            "roundtrip failed for {:?} {:?}",
            endian,
            word_order
        );
    }
}

#[test]
fn signed_roundtrips() {
    assert_eq!(
        i16_from_bytes(&i16_to_bytes(-1i16, Endian::Big), Endian::Big).unwrap(),
        -1
    );
    assert_eq!(
        i32_from_registers(
            &i32_to_registers(-2i32, Endian::Big, WordOrder::MostSignificantFirst),
            Endian::Big,
            WordOrder::MostSignificantFirst
        )
        .unwrap(),
        -2
    );
    assert_eq!(
        i64_from_registers(
            &i64_to_registers(-3i64, Endian::Little, WordOrder::LeastSignificantFirst),
            Endian::Little,
            WordOrder::LeastSignificantFirst
        )
        .unwrap(),
        -3
    );
}

#[test]
fn string_big_endian() {
    // "Hi" in big-endian registers: 'H'=0x48, 'i'=0x69 -> reg = 0x4869
    let regs = [0x4869, 0x2100]; // "Hi!" plus NUL
    assert_eq!(string_from_registers(&regs, Endian::Big).unwrap(), "Hi!");
}

#[test]
fn string_little_endian() {
    // "Hi" in little-endian registers: 'H'=0x48, 'i'=0x69 -> reg = 0x6948
    let regs = [0x6948, 0x0021]; // "Hi!" plus NUL
    assert_eq!(string_from_registers(&regs, Endian::Little).unwrap(), "Hi!");
}

#[test]
fn string_to_registers_roundtrip() {
    let regs = string_to_registers("Hi!", Endian::Big, 0).unwrap();
    assert_eq!(regs, [0x4869, 0x2100]);
    assert_eq!(string_from_registers(&regs, Endian::Big).unwrap(), "Hi!");
}

#[test]
fn string_to_registers_padding() {
    let regs = string_to_registers("Hi", Endian::Big, 4).unwrap();
    assert_eq!(regs, [0x4869, 0x0000, 0x0000, 0x0000]);
}

#[test]
fn string_rejects_invalid_utf8() {
    let regs = [0xFFFD];
    assert!(matches!(
        string_from_registers(&regs, Endian::Big),
        Err(HelpersError::InvalidString)
    ));
}

#[test]
fn string_to_registers_rejects_too_long_for_pad() {
    assert!(matches!(
        string_to_registers("Hello!", Endian::Big, 1),
        Err(HelpersError::InvalidLength)
    ));
}

#[test]
fn string_roundtrip_without_nul_with_padding() {
    for pad_to in [0usize, 4, 8] {
        let regs = string_to_registers("Grüße", Endian::Little, pad_to).unwrap();
        assert_eq!(
            string_from_registers(&regs, Endian::Little).unwrap(),
            "Grüße"
        );
    }
}

#[test]
fn i32_and_u64_roundtrip_every_order() {
    for endian in [Endian::Big, Endian::Little] {
        for word_order in [WordOrder::MostSignificantFirst, WordOrder::LeastSignificantFirst] {
            for value in [i32::MIN, -1, 0, 1, i32::MAX] {
                let regs = i32_to_registers(value, endian, word_order);
                assert_eq!(i32_from_registers(&regs, endian, word_order).unwrap(), value);
            }
            for value in [0u64, 1, u64::MAX, 0x0123_4567_89AB_CDEF] {
                let regs = u64_to_registers(value, endian, word_order);
                assert_eq!(u64_from_registers(&regs, endian, word_order).unwrap(), value);
            }
        }
    }
}

#[test]
fn u64_little_endian_lsf_layout() {
    assert_eq!(
        u64_to_registers(0x0123_4567_89AB_CDEF, Endian::Little, WordOrder::LeastSignificantFirst),
        [0xEFCD, 0xAB89, 0x6745, 0x2301]
    );
    assert!(matches!(
        u64_from_registers(&[0, 0, 0], Endian::Big, WordOrder::MostSignificantFirst),
        Err(HelpersError::InvalidLength)
    ));
    assert!(matches!(
        i16_from_bytes(&[0x80], Endian::Big),
        Err(HelpersError::InvalidLength)
    ));
    assert_eq!(i16_from_bytes(&[0x80, 0x00], Endian::Big).unwrap(), i16::MIN);
}

#[test]
fn helpers_error_messages() {
    assert_eq!(HelpersError::InvalidLength.message(), "invalid register/byte length");
    assert_eq!(HelpersError::InvalidString.message(), "invalid string data");
}

#[test]
fn string_to_registers_counts_utf8_bytes() {
    // "Grüße" takes seven UTF-8 bytes: three registers hold only six.
    assert!(matches!(
        string_to_registers("Grüße", Endian::Big, 3),
        Err(HelpersError::InvalidLength)
    ));
    assert_eq!(string_to_registers("Grüße", Endian::Big, 0).unwrap().len(), 4);
}

#[test]
fn u64_register_layouts_are_related() {
    let v = 0x0123_4567_89AB_CDEFu64;
    assert_eq!(
        u64_to_registers(v, Endian::Big, WordOrder::MostSignificantFirst),
        [(v >> 48) as u16, (v >> 32) as u16, (v >> 16) as u16, v as u16]
    );
    for endian in [Endian::Big, Endian::Little] {
        let m = u64_to_registers(v, endian, WordOrder::MostSignificantFirst);
        assert_eq!(
            u64_to_registers(v, endian, WordOrder::LeastSignificantFirst),
            [m[3], m[2], m[1], m[0]]
        );
    }
    for word_order in [WordOrder::MostSignificantFirst, WordOrder::LeastSignificantFirst] {
        let big = u64_to_registers(v, Endian::Big, word_order);
        let little = u64_to_registers(v, Endian::Little, word_order);
        for i in 0..4 {
            assert_eq!(little[i], big[i].swap_bytes());
        }
    }
}
