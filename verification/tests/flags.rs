use dns_query::flags::{pack_flags, unpack_flags, Flags};

fn plain() -> Flags {
    Flags { qr: false, opcode: 0, aa: false, tc: false, rd: false, ra: false, z: 0, rcode: 0 }
}

#[test]
fn pack_of_a_plain_query_sets_only_recursion_desired() {
    let flags = Flags { rd: true, ..plain() };
    assert_eq!(pack_flags(&flags), (0x01, 0x00));
}

#[test]
fn pack_places_each_field_at_its_bit() {
    assert_eq!(pack_flags(&Flags { qr: true, ..plain() }), (0x80, 0x00));
    assert_eq!(pack_flags(&Flags { opcode: 15, ..plain() }), (0x78, 0x00));
    assert_eq!(pack_flags(&Flags { opcode: 1, ..plain() }), (0x08, 0x00));
    assert_eq!(pack_flags(&Flags { aa: true, ..plain() }), (0x04, 0x00));
    assert_eq!(pack_flags(&Flags { tc: true, ..plain() }), (0x02, 0x00));
    assert_eq!(pack_flags(&Flags { rd: true, ..plain() }), (0x01, 0x00));
    assert_eq!(pack_flags(&Flags { ra: true, ..plain() }), (0x00, 0x80));
    assert_eq!(pack_flags(&Flags { z: 7, ..plain() }), (0x00, 0x70));
    assert_eq!(pack_flags(&Flags { z: 1, ..plain() }), (0x00, 0x10));
    assert_eq!(pack_flags(&Flags { rcode: 15, ..plain() }), (0x00, 0x0F));
}

#[test]
fn pack_of_all_fields_set_is_all_ones() {
    let flags = Flags {
        qr: true,
        opcode: 15,
        aa: true,
        tc: true,
        rd: true,
        ra: true,
        z: 7,
        rcode: 15,
    };
    assert_eq!(pack_flags(&flags), (0xFF, 0xFF));
}

#[test]
fn unpack_reads_each_field_from_its_bits() {
    let flags = unpack_flags(0x81, 0x80);
    assert_eq!(
        flags,
        Flags { qr: true, opcode: 0, aa: false, tc: false, rd: true, ra: true, z: 0, rcode: 0 }
    );
    let flags = unpack_flags(0x2A, 0x53);
    assert_eq!(
        flags,
        Flags { qr: false, opcode: 5, aa: false, tc: true, rd: false, ra: false, z: 5, rcode: 3 }
    );
}

#[test]
fn unpack_after_pack_is_the_identity_on_all_flags() {
    for bits in 0u32..(1 << 16) {
        let flags = Flags {
            qr: bits & 1 != 0,
            aa: bits & 2 != 0,
            tc: bits & 4 != 0,
            rd: bits & 8 != 0,
            ra: bits & 16 != 0,
            opcode: ((bits >> 5) & 15) as u8,
            z: ((bits >> 9) & 7) as u8,
            rcode: ((bits >> 12) & 15) as u8,
        };
        let (first, second) = pack_flags(&flags);
        assert_eq!(unpack_flags(first, second), flags);
    }
}

#[test]
fn pack_after_unpack_is_the_identity_on_all_octets() {
    for first in 0u8..=255 {
        for second in 0u8..=255 {
            let flags = unpack_flags(first, second);
            assert!(flags.opcode <= 15 && flags.z <= 7 && flags.rcode <= 15);
            assert_eq!(pack_flags(&flags), (first, second));
        }
    }
}

#[test]
fn fits_the_wire_tells_fields_that_are_too_wide() {
    assert!(plain().fits_the_wire());
    assert!(Flags { opcode: 15, z: 7, rcode: 15, ..plain() }.fits_the_wire());
    assert!(!Flags { opcode: 16, ..plain() }.fits_the_wire());
    assert!(!Flags { z: 8, ..plain() }.fits_the_wire());
    assert!(!Flags { rcode: 16, ..plain() }.fits_the_wire());
}
