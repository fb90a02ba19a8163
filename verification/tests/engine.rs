use rsolver::dns_structs::header::{DNSHeader, Flags};
use rsolver::dns_structs::packet::DNSPacket;
use rsolver::dns_structs::question::DNSQuestion;
use rsolver::dns_structs::reader::DecodeError;
use rsolver::dns_structs::record::{DNSRecord, Data};
use rsolver::enums::{Class, Flag};
use rsolver::errors::{Field, PacketError, ResolveError};
use rsolver::random::{random, scramble};
use rsolver::{build_query, interpret, query_with_id, Kind, LogLevel, Outcome, Pending, QueryArgs, Resolution, Step};

const ROOT: [u8; 4] = [198, 41, 0, 4];
const GLUE: [u8; 4] = [192, 5, 6, 30];

fn args(domain_name: &str, record_type: Kind) -> QueryArgs {
    QueryArgs {
        domain_name: domain_name.to_string(),
        name_server: ROOT,
        record_type,
        flags: vec![Flag::RD],
        log_level: LogLevel::Off,
    }
}

fn record(owner: &str, kind: Kind, data: Data) -> DNSRecord {
    DNSRecord { name: owner.to_string(), kind, class: Class::IN, ttl: 60, data }
}

fn response(answers: Vec<DNSRecord>, authorities: Vec<DNSRecord>, additionals: Vec<DNSRecord>) -> DNSPacket {
    DNSPacket {
        header: DNSHeader {
            id: 1,
            flags: Flags(0x8000),
            num_questions: 0,
            num_answers: answers.len() as u16,
            num_authorities: authorities.len() as u16,
            num_additionals: additionals.len() as u16,
        },
        questions: vec![],
        answers,
        authorities,
        additionals,
    }
}

fn ns(zone: &str, host: &str) -> DNSRecord {
    record(zone, Kind::NS, Data::Host(host.to_string()))
}

fn a(owner: &str, address: [u8; 4]) -> DNSRecord {
    record(owner, Kind::A, Data::IPv4(address))
}

fn on_wire(packet: &DNSPacket) -> Vec<u8> {
    let mut bytes = packet.header.to_bytes();
    for question in &packet.questions {
        bytes.extend_from_slice(&question.to_bytes());
    }
    for section in [&packet.answers, &packet.authorities, &packet.additionals] {
        for record in section {
            let owner = DNSQuestion { name: record.name.clone(), kind: record.kind, class: record.class };
            bytes.extend_from_slice(&owner.to_bytes());
            bytes.extend_from_slice(&record.ttl.to_be_bytes());
            let data = match &record.data {
                Data::Host(host) => {
                    DNSQuestion { name: host.clone(), kind: Kind::A, class: Class::IN }.encode_name()
                }
                Data::IPv4(address) => address.to_vec(),
                Data::IPv6(address) => address.to_vec(),
                Data::Other(bytes) => bytes.clone(),
            };
            bytes.extend_from_slice(&(data.len() as u16).to_be_bytes());
            bytes.extend_from_slice(&data);
        }
    }
    bytes
}

#[test]
fn log_levels_are_ranked() {
    assert!(LogLevel::Off.shows(LogLevel::Off));
    assert!(!LogLevel::Off.shows(LogLevel::Info));
    assert!(!LogLevel::Off.shows(LogLevel::Debug));
    assert!(LogLevel::Info.shows(LogLevel::Off));
    assert!(LogLevel::Info.shows(LogLevel::Info));
    assert!(!LogLevel::Info.shows(LogLevel::Debug));
    assert!(LogLevel::Debug.shows(LogLevel::Off));
    assert!(LogLevel::Debug.shows(LogLevel::Info));
    assert!(LogLevel::Debug.shows(LogLevel::Debug));
}

#[test]
fn scramble_is_one_xorshift_round() {
    assert_eq!(scramble(0), 0);
    assert_eq!(scramble(1), 8225);
    assert_eq!(scramble(42), 17704);
    assert_eq!(scramble(42_000_000), 38696);
    assert_eq!(scramble(1_823_456_789), 42947);
    assert_eq!(scramble(u64::MAX), 57375);
}

#[test]
fn random_returns() {
    let _ = random();
}

#[test]
fn query_is_a_header_and_one_question() {
    let query = query_with_id(&args("www.example.com", Kind::A), 0xABCD).unwrap();
    let mut expected = vec![0xAB, 0xCD, 0x00, 0x80, 0, 1, 0, 0, 0, 0, 0, 0];
    expected.extend_from_slice(&[3, b'w', b'w', b'w', 7, b'e', b'x', b'a', b'm', b'p', b'l', b'e', 3, b'c', b'o', b'm', 0]);
    expected.extend_from_slice(&[0, 1, 0, 1]);
    assert_eq!(query, expected);
}

#[test]
fn query_carries_the_flags_and_the_type() {
    let mut asked = args("a.b", Kind::AAAA);
    asked.flags = vec![Flag::RD, Flag::CD, Flag::AD];
    let query = query_with_id(&asked, 7).unwrap();
    assert_eq!(&query[..4], &[0, 7, 0x0C, 0x80]);
    assert_eq!(&query[query.len() - 4..], &[0, 28, 0, 1]);
    asked.flags = vec![];
    assert_eq!(&query_with_id(&asked, 7).unwrap()[2..4], &[0, 0]);
}

#[test]
fn query_decodes_to_what_was_asked() {
    let query = query_with_id(&args("www.example.com", Kind::MX), 0x0102).unwrap();
    let decoded = DNSPacket::try_from(query).unwrap();
    assert_eq!(
        decoded.header,
        DNSHeader {
            id: 0x0102,
            flags: Flags(0x0080),
            num_questions: 1,
            num_answers: 0,
            num_authorities: 0,
            num_additionals: 0,
        }
    );
    assert_eq!(
        decoded.questions,
        vec![DNSQuestion { name: "www.example.com".to_string(), kind: Kind::MX, class: Class::IN }]
    );
}

#[test]
fn query_for_the_any_filter_cannot_be_built() {
    assert_eq!(query_with_id(&args("example.com", Kind::ANY), 1), None);
    assert_eq!(build_query(&args("example.com", Kind::ANY)), None);
}

#[test]
fn build_query_differs_from_a_fixed_id_in_the_id_only() {
    let asked = args("example.com", Kind::NS);
    let fixed = query_with_id(&asked, 0).unwrap();
    for _ in 0..8 {
        let built = build_query(&asked).unwrap();
        assert_eq!(built.len(), fixed.len());
        assert_eq!(&built[2..], &fixed[2..]);
    }
}

#[test]
fn interpret_prefers_answers_to_referrals() {
    let packet = response(
        vec![a("www.example.com", [93, 184, 216, 34])],
        vec![ns("com", "a.ns.com")],
        vec![a("a.ns.com", GLUE)],
    );
    assert_eq!(
        interpret(&packet, Kind::A),
        Outcome::Answered(vec![Data::IPv4([93, 184, 216, 34])])
    );
    assert_eq!(interpret(&packet, Kind::AAAA), Outcome::Referred(GLUE));
}

#[test]
fn interpret_prefers_glue_to_a_name() {
    let packet = response(vec![], vec![ns("com", "a.ns.com")], vec![a("a.ns.com", GLUE)]);
    assert_eq!(interpret(&packet, Kind::A), Outcome::Referred(GLUE));
    let packet = response(vec![], vec![ns("com", "a.ns.com")], vec![]);
    assert_eq!(interpret(&packet, Kind::A), Outcome::DelegatedByName("a.ns.com".to_string()));
    let packet = response(vec![], vec![], vec![]);
    assert_eq!(interpret(&packet, Kind::A), Outcome::Failed);
    assert_eq!(interpret(&packet, Kind::ANY), Outcome::Failed);
}

#[test]
fn start_waits_for_nothing() {
    let state = Resolution::start(args("www.example.com", Kind::A), 5);
    assert_eq!(state.args, args("www.example.com", Kind::A));
    assert_eq!(state.waiting, vec![]);
    assert_eq!(state.hops_left, 5);
}

#[test]
fn answer_ends_the_lookup() {
    let state = Resolution::start(args("www.example.com", Kind::A), 5);
    let packet = response(
        vec![
            a("www.example.com", [93, 184, 216, 34]),
            record("www.example.com", Kind::TXT, Data::Other(vec![1])),
            a("www.example.com", [93, 184, 216, 35]),
        ],
        vec![],
        vec![],
    );
    assert_eq!(
        state.advance(&packet),
        Step::Done(vec![Data::IPv4([93, 184, 216, 34]), Data::IPv4([93, 184, 216, 35])])
    );
}

#[test]
fn answer_needs_no_hop() {
    let state = Resolution::start(args("www.example.com", Kind::ANY), 0);
    let packet = response(vec![ns("www.example.com", "x")], vec![], vec![]);
    assert_eq!(state.advance(&packet), Step::Done(vec![Data::Host("x".to_string())]));
}

#[test]
fn glue_sends_the_next_query_to_the_glue_address() {
    let state = Resolution::start(args("www.example.com", Kind::A), 5);
    let packet = response(vec![], vec![ns("com", "a.gtld-servers.net")], vec![a("a.gtld-servers.net", GLUE)]);
    let next = match state.advance(&packet) {
        Step::Query(next) => next,
        other => panic!("no query follows: {:?}", other),
    };
    assert_eq!(next.args.name_server, GLUE);
    assert_eq!(next.args.domain_name, "www.example.com");
    assert_eq!(next.args.record_type, Kind::A);
    assert_eq!(next.args.flags, vec![Flag::RD]);
    assert_eq!(next.waiting, vec![]);
    assert_eq!(next.hops_left, 4);
}

#[test]
fn name_server_without_glue_is_looked_up_once_before_the_lookup_resumes() {
    let state = Resolution::start(args("www.example.com", Kind::TXT), 5);
    let referral = response(vec![], vec![ns("com", "a.gtld-servers.net")], vec![]);
    let inner = match state.advance(&referral) {
        Step::Query(inner) => inner,
        other => panic!("no query follows: {:?}", other),
    };
    assert_eq!(inner.args.domain_name, "a.gtld-servers.net");
    assert_eq!(inner.args.record_type, Kind::A);
    assert_eq!(inner.args.name_server, ROOT);
    assert_eq!(
        inner.waiting,
        vec![Pending { domain_name: "www.example.com".to_string(), record_type: Kind::TXT }]
    );
    assert_eq!(inner.hops_left, 4);

    let address = response(vec![a("a.gtld-servers.net", GLUE), a("a.gtld-servers.net", [1, 1, 1, 1])], vec![], vec![]);
    let resumed = match inner.advance(&address) {
        Step::Query(resumed) => resumed,
        other => panic!("no query follows: {:?}", other),
    };
    assert_eq!(resumed.args.domain_name, "www.example.com");
    assert_eq!(resumed.args.record_type, Kind::TXT);
    assert_eq!(resumed.args.name_server, GLUE);
    assert_eq!(resumed.waiting, vec![]);
    assert_eq!(resumed.hops_left, 3);

    let answer = response(vec![record("www.example.com", Kind::TXT, Data::Other(vec![2, b'h', b'i']))], vec![], vec![]);
    assert_eq!(resumed.advance(&answer), Step::Done(vec![Data::Other(vec![2, b'h', b'i'])]));
}

#[test]
fn inner_lookup_follows_its_own_referrals() {
    let state = Resolution::start(args("www.example.com", Kind::A), 9);
    let outer = response(vec![], vec![ns("com", "ns.example.net")], vec![]);
    let Step::Query(inner) = state.advance(&outer) else { panic!("no query follows") };
    let inner_glue = response(vec![], vec![ns("net", "a.net")], vec![a("a.net", [10, 0, 0, 1])]);
    let Step::Query(inner) = inner.advance(&inner_glue) else { panic!("no query follows") };
    assert_eq!(inner.args.domain_name, "ns.example.net");
    assert_eq!(inner.args.name_server, [10, 0, 0, 1]);
    assert_eq!(inner.waiting.len(), 1);
    let inner_name = response(vec![], vec![ns("example.net", "deep.example.org")], vec![]);
    let Step::Query(deeper) = inner.advance(&inner_name) else { panic!("no query follows") };
    assert_eq!(deeper.args.domain_name, "deep.example.org");
    assert_eq!(deeper.args.name_server, [10, 0, 0, 1]);
    assert_eq!(
        deeper.waiting,
        vec![
            Pending { domain_name: "www.example.com".to_string(), record_type: Kind::A },
            Pending { domain_name: "ns.example.net".to_string(), record_type: Kind::A },
        ]
    );
    let found = response(vec![a("deep.example.org", [10, 0, 0, 2])], vec![], vec![]);
    let Step::Query(inner) = deeper.advance(&found) else { panic!("no query follows") };
    assert_eq!(inner.args.domain_name, "ns.example.net");
    assert_eq!(inner.args.name_server, [10, 0, 0, 2]);
    assert_eq!(inner.waiting.len(), 1);
    assert_eq!(inner.hops_left, 5);
}

#[test]
fn empty_response_is_unresolvable() {
    let state = Resolution::start(args("www.example.com", Kind::A), 5);
    assert_eq!(
        state.advance(&response(vec![], vec![], vec![])),
        Step::Failed(ResolveError::Unresolvable {
            domain_name: "www.example.com".to_string(),
            name_server: ROOT,
        })
    );
}

#[test]
fn response_without_a_usable_record_is_unresolvable() {
    let state = Resolution::start(args("www.example.com", Kind::A), 5);
    let packet = response(
        vec![record("www.example.com", Kind::AAAA, Data::IPv6([0; 16]))],
        vec![record("com", Kind::SOA, Data::Other(vec![]))],
        vec![record("x", Kind::AAAA, Data::IPv6([1; 16]))],
    );
    assert_eq!(
        state.advance(&packet),
        Step::Failed(ResolveError::Unresolvable {
            domain_name: "www.example.com".to_string(),
            name_server: ROOT,
        })
    );
}

#[test]
fn failed_inner_lookup_fails_the_whole() {
    let state = Resolution::start(args("www.example.com", Kind::A), 5);
    let Step::Query(inner) = state.advance(&response(vec![], vec![ns("com", "ns.com")], vec![])) else {
        panic!("no query follows")
    };
    assert_eq!(
        inner.advance(&response(vec![], vec![], vec![])),
        Step::Failed(ResolveError::Unresolvable { domain_name: "ns.com".to_string(), name_server: ROOT })
    );
}

#[test]
fn inner_answer_without_an_address_fails() {
    let state = Resolution::start(args("www.example.com", Kind::A), 5);
    let Step::Query(inner) = state.advance(&response(vec![], vec![ns("com", "ns.com")], vec![])) else {
        panic!("no query follows")
    };
    let odd = response(vec![record("ns.com", Kind::A, Data::Host("not an address".to_string()))], vec![], vec![]);
    assert_eq!(inner.advance(&odd), Step::Failed(ResolveError::NoAddress));
}

#[test]
fn referrals_beyond_the_limit_fail() {
    let referral = response(vec![], vec![ns("com", "a.ns.com")], vec![a("a.ns.com", GLUE)]);
    let mut state = Resolution::start(args("www.example.com", Kind::A), 3);
    for left in [2, 1, 0] {
        state = match state.advance(&referral) {
            Step::Query(next) => next,
            other => panic!("no query follows: {:?}", other),
        };
        assert_eq!(state.hops_left, left);
    }
    assert_eq!(state.advance(&referral), Step::Failed(ResolveError::ReferralLoop));

    let by_name = response(vec![], vec![ns("com", "a.ns.com")], vec![]);
    let state = Resolution::start(args("www.example.com", Kind::A), 0);
    assert_eq!(state.advance(&by_name), Step::Failed(ResolveError::ReferralLoop));
}

#[test]
fn receive_decodes_and_advances() {
    let referral = response(vec![], vec![ns("com", "a.ns.com")], vec![a("a.ns.com", GLUE)]);
    let state = Resolution::start(args("www.example.com", Kind::A), 5);
    let Step::Query(next) = state.receive(on_wire(&referral)) else { panic!("no query follows") };
    assert_eq!(next.args.name_server, GLUE);
    assert_eq!(next.args.domain_name, "www.example.com");
    assert_eq!(next.waiting, vec![]);

    let answer = response(vec![a("www.example.com", [93, 184, 216, 34])], vec![], vec![]);
    assert_eq!(next.receive(on_wire(&answer)), Step::Done(vec![Data::IPv4([93, 184, 216, 34])]));
}

#[test]
fn receive_of_an_empty_response_is_unresolvable() {
    let state = Resolution::start(args("www.example.com", Kind::A), 5);
    assert_eq!(
        state.receive(on_wire(&response(vec![], vec![], vec![]))),
        Step::Failed(ResolveError::Unresolvable {
            domain_name: "www.example.com".to_string(),
            name_server: ROOT,
        })
    );
}

#[test]
fn receive_of_a_broken_response_fails() {
    let state = Resolution::start(args("www.example.com", Kind::A), 5);
    assert_eq!(
        state.receive(vec![0; 5]),
        Step::Failed(ResolveError::Decode(PacketError::Read {
            field: Field::Header,
            cause: DecodeError::Io,
        }))
    );
    let mut bytes = on_wire(&response(vec![a("www.example.com", [1, 2, 3, 4])], vec![], vec![]));
    let length = bytes.len();
    bytes[length - 5] = 3;
    bytes.pop();
    let state = Resolution::start(args("www.example.com", Kind::A), 5);
    assert_eq!(
        state.receive(bytes),
        Step::Failed(ResolveError::Decode(PacketError::LengthMismatch { kind: Kind::A, length: 3 }))
    );
}

#[test]
fn query_args_clone_is_equal() {
    let asked = args("www.example.com", Kind::A);
    assert_eq!(asked.clone(), asked);
}
