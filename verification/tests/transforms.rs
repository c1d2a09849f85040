use rgb565::transforms::{
    l565_to_l888, l5_to_l8, l6_to_l8, l888_to_l565, l8_to_l5, l8_to_l6, pack_565, swap_components,
    unpack_565,
};

#[test]
fn transforms_swap_components() {
    assert_eq!(swap_components(0b1111100000000000), 0b0000000000011111);
    assert_eq!(swap_components(0b0000000000011111), 0b1111100000000000);
    assert_eq!(swap_components(0b1111111111100000), 0b0000011111111111);
    assert_eq!(swap_components(0b0000011111111111), 0b1111111111100000);
    assert_eq!(swap_components(0b1111111111111111), 0b1111111111111111);
    assert_eq!(swap_components(0b0000000000000000), 0b0000000000000000);
}

#[test]
fn swapping_twice_gives_the_word_back() {
    for packed in 0..=u16::MAX {
        assert_eq!(swap_components(swap_components(packed)), packed);
    }
}

#[test]
fn swapping_exchanges_the_outer_channels() {
    assert_eq!(swap_components(0x1234), 0xA222);
    for packed in 0..=u16::MAX {
        let (a5, b6, c5) = unpack_565(packed);
        assert_eq!(unpack_565(swap_components(packed)), (c5, b6, a5));
    }
}

#[test]
fn unpacking_reads_the_three_fields() {
    assert_eq!(unpack_565(0b00010_010001_10100), (2, 17, 20));
    assert_eq!(unpack_565(0b11111_000000_00000), (31, 0, 0));
    assert_eq!(unpack_565(0b00000_111111_00000), (0, 63, 0));
    assert_eq!(unpack_565(0b00000_000000_11111), (0, 0, 31));
    assert_eq!(unpack_565(0xFFFF), (31, 63, 31));
    assert_eq!(unpack_565(0), (0, 0, 0));
}

#[test]
fn packing_fills_the_three_fields() {
    assert_eq!(pack_565((2, 17, 20)), 0b00010_010001_10100);
    assert_eq!(pack_565((31, 0, 0)), 0b11111_000000_00000);
    assert_eq!(pack_565((0, 63, 0)), 0b00000_111111_00000);
    assert_eq!(pack_565((0, 0, 31)), 0b00000_000000_11111);
    assert_eq!(pack_565((31, 63, 31)), 0xFFFF);
    assert_eq!(pack_565((0, 0, 0)), 0);
}

#[test]
fn packing_undoes_unpacking() {
    for packed in 0..=u16::MAX {
        assert_eq!(pack_565(unpack_565(packed)), packed);
    }
}

#[test]
fn unpacking_undoes_packing() {
    for a5 in 0..32u8 {
        for b6 in 0..64u8 {
            for c5 in 0..32u8 {
                assert_eq!(unpack_565(pack_565((a5, b6, c5))), (a5, b6, c5));
            }
        }
    }
}

#[test]
fn widening_rounds_down() {
    assert_eq!(l5_to_l8(0), 0);
    assert_eq!(l5_to_l8(1), 8);
    assert_eq!(l5_to_l8(16), 131);
    assert_eq!(l5_to_l8(30), 246);
    assert_eq!(l5_to_l8(31), 255);
    assert_eq!(l6_to_l8(0), 0);
    assert_eq!(l6_to_l8(1), 4);
    assert_eq!(l6_to_l8(32), 129);
    assert_eq!(l6_to_l8(62), 250);
    assert_eq!(l6_to_l8(63), 255);
    for l5 in 0..32u16 {
        assert_eq!(l5_to_l8(l5 as u8) as u16, l5 * 255 / 31);
    }
    for l6 in 0..64u16 {
        assert_eq!(l6_to_l8(l6 as u8) as u16, l6 * 255 / 63);
    }
}

#[test]
fn narrowing_reaches_both_ends() {
    assert_eq!(l8_to_l5(255), 31);
    assert_eq!(l8_to_l5(0), 0);
    assert_eq!(l8_to_l6(255), 63);
    assert_eq!(l8_to_l6(0), 0);
}

#[test]
fn narrowing_adds_one_before_it_divides() {
    // (7 + 1) * 31 / 255 = 0 and (8 + 1) * 31 / 255 = 1.
    assert_eq!(l8_to_l5(7), 0);
    assert_eq!(l8_to_l5(8), 1);
    assert_eq!(l8_to_l5(100), 12);
    assert_eq!(l8_to_l5(254), 31);
    // (3 + 1) * 63 / 255 = 0 and (4 + 1) * 63 / 255 = 1.
    assert_eq!(l8_to_l6(3), 0);
    assert_eq!(l8_to_l6(4), 1);
    assert_eq!(l8_to_l6(150), 37);
    assert_eq!(l8_to_l6(254), 63);
    for l8 in 0..256u16 {
        assert_eq!(l8_to_l5(l8 as u8) as u16, (l8 + 1) * 31 / 255);
        assert_eq!(l8_to_l6(l8 as u8) as u16, (l8 + 1) * 63 / 255);
    }
}

#[test]
fn narrowing_undoes_widening() {
    for l5 in 0..32u8 {
        assert_eq!(l8_to_l5(l5_to_l8(l5)), l5);
    }
    for l6 in 0..64u8 {
        assert_eq!(l8_to_l6(l6_to_l8(l6)), l6);
    }
}

#[test]
fn widening_does_not_undo_narrowing() {
    // 100 narrows to 12, and 12 widens to 98.
    assert_eq!(l5_to_l8(l8_to_l5(100)), 98);
    // 150 narrows to 37, and 37 widens to 149.
    assert_eq!(l6_to_l8(l8_to_l6(150)), 149);
}

#[test]
fn whole_pixels_between_565_and_888() {
    assert_eq!(l565_to_l888(0x1234), [16, 68, 164]);
    assert_eq!(l888_to_l565([16, 68, 164]), 0x1234);
    assert_eq!(l565_to_l888(0xF800), [255, 0, 0]);
    assert_eq!(l565_to_l888(0x07E0), [0, 255, 0]);
    assert_eq!(l565_to_l888(0x001F), [0, 0, 255]);
    assert_eq!(l888_to_l565([255, 0, 0]), 0xF800);
    assert_eq!(l888_to_l565([0, 255, 0]), 0x07E0);
    assert_eq!(l888_to_l565([0, 0, 255]), 0x001F);
    assert_eq!(l888_to_l565([100, 150, 200]), pack_565((12, 37, 24)));
}

#[test]
fn linear_conversion_gives_every_word_back() {
    for packed in 0..=u16::MAX {
        assert_eq!(l888_to_l565(l565_to_l888(packed)), packed);
    }
}
