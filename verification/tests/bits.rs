use dns_query::bits::get_bits;

#[test]
fn get_bits_renders_three_bits() {
    assert_eq!(get_bits(0b101, 3), "101");
}

#[test]
fn get_bits_pads_with_zeros_on_the_left() {
    assert_eq!(get_bits(5, 4), "0101");
}

#[test]
fn get_bits_drops_the_bits_above_the_width() {
    assert_eq!(get_bits(0b1111_0110, 4), "0110");
    assert_eq!(get_bits(0xFFFF, 1), "1");
    assert_eq!(get_bits(0xFFFE, 1), "0");
}

#[test]
fn get_bits_renders_all_sixteen_bits() {
    assert_eq!(get_bits(0x8001, 16), "1000000000000001");
    assert_eq!(get_bits(0, 16), "0000000000000000");
    assert_eq!(get_bits(0xFFFF, 16), "1111111111111111");
}

#[test]
fn get_bits_has_the_width_asked_for() {
    for width in 1usize..=16 {
        assert_eq!(get_bits(0xA5C3, width).len(), width);
    }
}
