use rsolver::dns_structs::header::{DNSHeader, Flags};
use rsolver::dns_structs::packet::DNSPacket;
use rsolver::dns_structs::question::DNSQuestion;
use rsolver::dns_structs::reader::DecodeError;
use rsolver::dns_structs::record::{DNSRecord, Data};
use rsolver::enums::{Class, Kind};
use rsolver::errors::{Field, PacketError};

fn name(labels: &[&str]) -> Vec<u8> {
    let mut bytes = Vec::new();
    for label in labels {
        bytes.push(label.len() as u8);
        bytes.extend_from_slice(label.as_bytes());
    }
    bytes.push(0);
    bytes
}

fn record_bytes(owner: &[u8], kind: u16, ttl: u32, data: &[u8]) -> Vec<u8> {
    let mut bytes = owner.to_vec();
    bytes.extend_from_slice(&kind.to_be_bytes());
    bytes.extend_from_slice(&[0, 1]);
    bytes.extend_from_slice(&ttl.to_be_bytes());
    bytes.extend_from_slice(&(data.len() as u16).to_be_bytes());
    bytes.extend_from_slice(data);
    bytes
}

fn header(counts: [u16; 4]) -> DNSHeader {
    DNSHeader {
        id: 0xBEEF,
        flags: Flags(0x8400),
        num_questions: counts[0],
        num_answers: counts[1],
        num_authorities: counts[2],
        num_additionals: counts[3],
    }
}

fn record(owner: &str, kind: Kind, data: Data) -> DNSRecord {
    DNSRecord { name: owner.to_string(), kind, class: Class::IN, ttl: 60, data }
}

fn packet(answers: Vec<DNSRecord>, authorities: Vec<DNSRecord>, additionals: Vec<DNSRecord>) -> DNSPacket {
    DNSPacket {
        header: header([0, answers.len() as u16, authorities.len() as u16, additionals.len() as u16]),
        questions: vec![],
        answers,
        authorities,
        additionals,
    }
}

/// A referral as a root server sends it: the question at offset 12, one NS
/// record and one glue record, with every later name compressed.
fn referral() -> Vec<u8> {
    let mut bytes = header([1, 0, 1, 1]).to_bytes();
    bytes.extend_from_slice(&name(&["www", "example", "com"]));
    bytes.extend_from_slice(&[0, 1, 0, 1]);
    let com = [0xC0, 12 + 4 + 8];
    let before_ns = bytes.len();
    bytes.extend_from_slice(&record_bytes(&com, 2, 172800, &[1, b'a', 2, b'n', b's', 0xC0, 12 + 4 + 8]));
    let ns_name = [0xC0, (before_ns + 2 + 10) as u8];
    bytes.extend_from_slice(&record_bytes(&ns_name, 1, 172800, &[192, 5, 6, 30]));
    bytes
}

#[test]
fn packet_decodes_every_section() {
    let decoded = DNSPacket::try_from(referral());
    assert_eq!(
        decoded,
        Ok(DNSPacket {
            header: header([1, 0, 1, 1]),
            questions: vec![DNSQuestion {
                name: "www.example.com".to_string(),
                kind: Kind::A,
                class: Class::IN,
            }],
            answers: vec![],
            authorities: vec![DNSRecord {
                name: "com".to_string(),
                kind: Kind::NS,
                class: Class::IN,
                ttl: 172800,
                data: Data::Host("a.ns.com".to_string()),
            }],
            additionals: vec![DNSRecord {
                name: "a.ns.com".to_string(),
                kind: Kind::A,
                class: Class::IN,
                ttl: 172800,
                data: Data::IPv4([192, 5, 6, 30]),
            }],
        })
    );
}

#[test]
fn packet_of_a_header_alone() {
    let bytes = header([0, 0, 0, 0]).to_bytes();
    assert_eq!(DNSPacket::try_from(bytes), Ok(packet(vec![], vec![], vec![])));
}

#[test]
fn packet_does_not_look_behind_its_last_record() {
    let mut bytes = referral();
    bytes.extend_from_slice(&[0xFF, 0xFF, 0xFF]);
    assert_eq!(DNSPacket::try_from(bytes), DNSPacket::try_from(referral()));
}

#[test]
fn packet_keeps_the_order_of_its_records() {
    let mut bytes = header([2, 3, 0, 0]).to_bytes();
    bytes.extend_from_slice(&name(&["q1"]));
    bytes.extend_from_slice(&[0, 1, 0, 1]);
    bytes.extend_from_slice(&name(&["q2"]));
    bytes.extend_from_slice(&[0, 28, 0, 1]);
    bytes.extend_from_slice(&record_bytes(&name(&["r1"]), 1, 1, &[1, 1, 1, 1]));
    bytes.extend_from_slice(&record_bytes(&name(&["r2"]), 16, 2, &[2]));
    bytes.extend_from_slice(&record_bytes(&name(&["r3"]), 1, 3, &[3, 3, 3, 3]));
    let decoded = DNSPacket::try_from(bytes).unwrap();
    let questions: Vec<&str> = decoded.questions.iter().map(|q| q.name.as_str()).collect();
    assert_eq!(questions, vec!["q1", "q2"]);
    assert_eq!(decoded.questions[1].kind, Kind::AAAA);
    let answers: Vec<(&str, u32)> = decoded.answers.iter().map(|r| (r.name.as_str(), r.ttl)).collect();
    assert_eq!(answers, vec![("r1", 1), ("r2", 2), ("r3", 3)]);
    assert!(decoded.authorities.is_empty());
    assert!(decoded.additionals.is_empty());
}

#[test]
fn packet_with_a_short_header_is_truncated() {
    assert_eq!(
        DNSPacket::try_from(vec![0; 11]),
        Err(PacketError::Read { field: Field::Header, cause: DecodeError::Io })
    );
    assert_eq!(
        DNSPacket::try_from(vec![]),
        Err(PacketError::Read { field: Field::Header, cause: DecodeError::Io })
    );
}

#[test]
fn packet_that_counts_more_than_it_holds_is_truncated() {
    let mut bytes = referral();
    bytes[11] = 2;
    assert_eq!(
        DNSPacket::try_from(bytes),
        Err(PacketError::Read { field: Field::Name, cause: DecodeError::Io })
    );
    let bytes = header([1, 0, 0, 0]).to_bytes();
    assert_eq!(
        DNSPacket::try_from(bytes),
        Err(PacketError::Read { field: Field::Name, cause: DecodeError::Io })
    );
}

#[test]
fn packet_with_a_bad_record_is_rejected() {
    let mut bytes = header([0, 1, 0, 0]).to_bytes();
    bytes.extend_from_slice(&record_bytes(&name(&["a"]), 1, 60, &[1, 2, 3]));
    assert_eq!(
        DNSPacket::try_from(bytes),
        Err(PacketError::LengthMismatch { kind: Kind::A, length: 3 })
    );
    let mut bytes = header([0, 0, 0, 1]).to_bytes();
    bytes.extend_from_slice(&record_bytes(&name(&["a"]), 65535, 60, &[]));
    assert_eq!(DNSPacket::try_from(bytes), Err(PacketError::InvalidKind(65535)));
    let mut bytes = header([1, 0, 0, 0]).to_bytes();
    bytes.extend_from_slice(&name(&["a"]));
    bytes.extend_from_slice(&[0, 1, 0, 0]);
    assert_eq!(DNSPacket::try_from(bytes), Err(PacketError::InvalidClass(0)));
}

fn mixed_answers() -> DNSPacket {
    packet(
        vec![
            record("a", Kind::CNAME, Data::Host("b".to_string())),
            record("b", Kind::A, Data::IPv4([1, 1, 1, 1])),
            record("b", Kind::TXT, Data::Other(vec![7])),
            record("b", Kind::A, Data::IPv4([2, 2, 2, 2])),
        ],
        vec![],
        vec![],
    )
}

#[test]
fn get_answers_gives_every_match_in_order() {
    let response = mixed_answers();
    assert_eq!(
        response.get_answers(Kind::A),
        vec![Data::IPv4([1, 1, 1, 1]), Data::IPv4([2, 2, 2, 2])]
    );
    assert_eq!(response.get_answers(Kind::CNAME), vec![Data::Host("b".to_string())]);
    assert_eq!(response.get_answers(Kind::TXT), vec![Data::Other(vec![7])]);
    assert_eq!(response.get_answers(Kind::AAAA), vec![]);
}

#[test]
fn get_answers_for_any_gives_every_record() {
    assert_eq!(
        mixed_answers().get_answers(Kind::ANY),
        vec![
            Data::Host("b".to_string()),
            Data::IPv4([1, 1, 1, 1]),
            Data::Other(vec![7]),
            Data::IPv4([2, 2, 2, 2]),
        ]
    );
    assert_eq!(packet(vec![], vec![], vec![]).get_answers(Kind::ANY), vec![]);
}

#[test]
fn get_answers_looks_at_the_answer_section_only() {
    let response = packet(
        vec![],
        vec![record("x", Kind::A, Data::IPv4([1, 2, 3, 4]))],
        vec![record("y", Kind::A, Data::IPv4([5, 6, 7, 8]))],
    );
    assert_eq!(response.get_answers(Kind::A), vec![]);
    assert_eq!(response.get_answer(Kind::ANY), None);
}

#[test]
fn get_answer_gives_the_first_match() {
    let response = mixed_answers();
    assert_eq!(response.get_answer(Kind::A), Some(Data::IPv4([1, 1, 1, 1])));
    assert_eq!(response.get_answer(Kind::ANY), Some(Data::Host("b".to_string())));
    assert_eq!(response.get_answer(Kind::TXT), Some(Data::Other(vec![7])));
    assert_eq!(response.get_answer(Kind::MX), None);
}

#[test]
fn get_name_server_ip_gives_the_first_additional_address() {
    let response = packet(
        vec![record("a", Kind::A, Data::IPv4([9, 9, 9, 9]))],
        vec![record("com", Kind::A, Data::IPv4([8, 8, 8, 8]))],
        vec![
            record("ns", Kind::AAAA, Data::IPv6([1; 16])),
            record("ns", Kind::A, Data::IPv4([192, 0, 2, 1])),
            record("ns2", Kind::A, Data::IPv4([192, 0, 2, 2])),
        ],
    );
    assert_eq!(response.get_name_server_ip(), Some([192, 0, 2, 1]));
    assert_eq!(mixed_answers().get_name_server_ip(), None);
}

#[test]
fn get_name_server_ip_skips_a_record_without_an_address() {
    let response = packet(
        vec![],
        vec![],
        vec![
            record("odd", Kind::A, Data::Other(vec![1, 2, 3, 4])),
            record("odd", Kind::TXT, Data::IPv4([7, 7, 7, 7])),
            record("ns", Kind::A, Data::IPv4([192, 0, 2, 1])),
        ],
    );
    assert_eq!(response.get_name_server_ip(), Some([192, 0, 2, 1]));
}

#[test]
fn get_name_server_gives_the_first_authority_name() {
    let response = packet(
        vec![record("a", Kind::NS, Data::Host("answer".to_string()))],
        vec![
            record("com", Kind::SOA, Data::Other(vec![])),
            record("com", Kind::NS, Data::Host("a.gtld-servers.net".to_string())),
            record("com", Kind::NS, Data::Host("b.gtld-servers.net".to_string())),
        ],
        vec![record("x", Kind::NS, Data::Host("additional".to_string()))],
    );
    assert_eq!(response.get_name_server(), Some("a.gtld-servers.net".to_string()));
    assert_eq!(mixed_answers().get_name_server(), None);
}

#[test]
fn get_name_server_skips_a_record_without_a_name() {
    let response = packet(
        vec![],
        vec![
            record("com", Kind::NS, Data::Other(vec![1])),
            record("com", Kind::CNAME, Data::Host("alias".to_string())),
            record("com", Kind::NS, Data::Host("ns.com".to_string())),
        ],
        vec![],
    );
    assert_eq!(response.get_name_server(), Some("ns.com".to_string()));
}
