use rsolver::dns_structs::header::{DNSHeader, Flags};
use rsolver::dns_structs::reader::{DecodeError, Reader};
use rsolver::enums::Flag;
use rsolver::errors::{Field, PacketError};

fn sample_header() -> DNSHeader {
    DNSHeader {
        id: 0x1234,
        flags: Flags(0x0880),
        num_questions: 1,
        num_answers: 2,
        num_authorities: 3,
        num_additionals: 4,
    }
}

#[test]
fn header_to_bytes_is_big_endian() {
    assert_eq!(
        sample_header().to_bytes(),
        vec![0x12, 0x34, 0x08, 0x80, 0, 1, 0, 2, 0, 3, 0, 4]
    );
}

#[test]
fn header_round_trip() {
    let header = sample_header();
    let bytes = header.to_bytes();
    assert_eq!(bytes.len(), 12);
    let mut reader = Reader::new(bytes);
    assert_eq!(DNSHeader::try_from(&mut reader), Ok(header));
    assert_eq!(reader.position(), 12);
}

#[test]
fn header_round_trip_extreme_values() {
    let header = DNSHeader {
        id: 0xFFFF,
        flags: Flags(0xFFFF),
        num_questions: 0xFF00,
        num_answers: 0x00FF,
        num_authorities: 0x8000,
        num_additionals: 0x0001,
    };
    let mut reader = Reader::new(header.to_bytes());
    assert_eq!(DNSHeader::try_from(&mut reader), Ok(header));
    let zero = DNSHeader::default();
    assert_eq!(zero.to_bytes(), vec![0u8; 12]);
    let mut reader = Reader::new(zero.to_bytes());
    assert_eq!(DNSHeader::try_from(&mut reader), Ok(zero));
}

#[test]
fn header_round_trip_inside_a_buffer() {
    let header = sample_header();
    let mut bytes = vec![0xAA, 0xBB, 0xCC];
    bytes.extend_from_slice(&header.to_bytes());
    bytes.extend_from_slice(&[0xDD, 0xEE]);
    let mut reader = Reader::new(bytes);
    reader.seek(3);
    assert_eq!(DNSHeader::try_from(&mut reader), Ok(header));
    assert_eq!(reader.position(), 15);
}

#[test]
fn header_of_eleven_bytes_is_truncated() {
    let mut bytes = sample_header().to_bytes();
    bytes.pop();
    let mut reader = Reader::new(bytes);
    assert_eq!(
        DNSHeader::try_from(&mut reader),
        Err(PacketError::Read { field: Field::Header, cause: DecodeError::Io })
    );
    assert_eq!(reader.position(), 0);
}

#[test]
fn header_default_is_all_zero() {
    let header = DNSHeader::default();
    assert_eq!(header.id, 0);
    assert_eq!(header.flags, Flags(0));
    assert_eq!(header.num_questions, 0);
    assert_eq!(header.num_answers, 0);
    assert_eq!(header.num_authorities, 0);
    assert_eq!(header.num_additionals, 0);
    assert_eq!(Flags::default(), Flags(0));
}

#[test]
fn flag_bits_stand_at_their_positions() {
    assert_eq!(Flag::AA.bit(), 1 << 5);
    assert_eq!(Flag::TC.bit(), 1 << 6);
    assert_eq!(Flag::RD.bit(), 1 << 7);
    assert_eq!(Flag::RA.bit(), 1 << 8);
    assert_eq!(Flag::AD.bit(), 1 << 10);
    assert_eq!(Flag::CD.bit(), 1 << 11);
}

#[test]
fn compose_recursion_desired_and_checking_disabled() {
    let flags = Flags::compose(&[Flag::RD, Flag::CD]);
    assert_eq!(flags.0, (1 << 7) | (1 << 11));
    assert_eq!(flags, Flags(0x0880));
    assert_eq!(flags.decompose(), vec![Flag::RD, Flag::CD]);
}

#[test]
fn compose_of_nothing_is_zero() {
    assert_eq!(Flags::compose(&[]), Flags(0));
    assert_eq!(Flags(0).decompose(), Vec::<Flag>::new());
}

#[test]
fn compose_ignores_order_and_repetition() {
    let flags = Flags::compose(&[Flag::CD, Flag::AA, Flag::CD, Flag::RD, Flag::AA]);
    assert_eq!(flags, Flags(0x0020 | 0x0080 | 0x0800));
    assert_eq!(flags.decompose(), vec![Flag::AA, Flag::RD, Flag::CD]);
}

#[test]
fn compose_of_every_flag() {
    let all = [Flag::AA, Flag::TC, Flag::RD, Flag::RA, Flag::AD, Flag::CD];
    let flags = Flags::compose(&all);
    assert_eq!(flags, Flags(0x0DE0));
    assert_eq!(flags.decompose(), all.to_vec());
}

#[test]
fn decompose_skips_bits_that_are_no_flag() {
    assert_eq!(Flags(0xFFFF).decompose().len(), 6);
    assert_eq!(Flags(0x8000 | 0x0200 | 0x001F).decompose(), Vec::<Flag>::new());
    assert_eq!(Flags(0x8100).decompose(), vec![Flag::RA]);
}

#[test]
fn contains_tests_one_bit() {
    let flags = Flags(0x0880);
    assert!(flags.contains(Flag::RD));
    assert!(flags.contains(Flag::CD));
    assert!(!flags.contains(Flag::AA));
    assert!(!flags.contains(Flag::TC));
    assert!(!flags.contains(Flag::RA));
    assert!(!flags.contains(Flag::AD));
}
