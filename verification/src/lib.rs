//! A DNS resolver that speaks the wire protocol itself.
//!
//! The crate holds the wire codec (`dns_structs`: a byte cursor, names with
//! their compression pointers, header, questions, records and whole
//! messages) and the rules by which a lookup goes on after each response
//! (`Resolution`). It sends and receives nothing: the caller sends the query
//! that a state asks for and hands the response back.
//!
//! Every function is verified against a model of the wire format, written
//! as `parse_*` and `*_wire` specification functions over byte sequences.

#![allow(unused_imports)]

use crate::dns_structs::header::{lemma_header_round_trip, union_of, DNSHeader, Flags};
use crate::dns_structs::name::plain_name;
use crate::dns_structs::packet::{
    answers_for, data_views, first_address, first_name_server, lemma_answers_for, parse_packet,
    parse_questions, DNSPacket, PacketView,
};
use crate::dns_structs::question::{
    lemma_question_round_trip, parse_question, DNSQuestion, QuestionView,
};
use crate::dns_structs::record::{Data, DataView};
use crate::enums::{Class, Flag};
use crate::errors::{PacketError, ResolveError, ResolveErrorView};
use vstd::prelude::*;

pub use crate::enums::Kind;

pub mod dns_structs;
pub mod enums;
pub mod errors;
pub mod random;

verus! {

/// How much of a lookup is reported while it runs.
#[derive(Copy, Clone, Debug, PartialEq, Eq, Structural)]
pub enum LogLevel {
    /// Nothing but the result.
    Off,
    /// Each query.
    Info,
    /// Each query with its arguments, and each response.
    Debug,
}

impl LogLevel {
    /// The rank of the level: a level reports what every level of lower rank
    /// reports.
    pub open spec fn rank(self) -> nat {
        match self {
            LogLevel::Off => 0,
            LogLevel::Info => 1,
            LogLevel::Debug => 2,
        }
    }

    /// Whether what is reported at `level` is reported at this level too.
    pub fn shows(&self, level: LogLevel) -> (r: bool)
        ensures
            r == (self.rank() >= level.rank()),
    {
        match (self, level) {
            (_, LogLevel::Off) => true,
            (LogLevel::Off, _) => false,
            (_, LogLevel::Info) => true,
            (LogLevel::Info, LogLevel::Debug) => false,
            (LogLevel::Debug, LogLevel::Debug) => true,
        }
    }
}

/// What to ask, and whom.
#[derive(Debug, PartialEq, Eq)]
pub struct QueryArgs {
    /// The domain name to ask about.
    pub domain_name: String,
    /// The IPv4 address of the name server to ask.
    pub name_server: [u8; 4],
    /// The record type to ask for.
    pub record_type: Kind,
    /// The flags to set in the query's header.
    pub flags: Vec<Flag>,
    /// How much to report.
    pub log_level: LogLevel,
}

/// What a [`QueryArgs`] holds.
pub struct QueryArgsView {
    pub domain_name: Seq<char>,
    pub name_server: Seq<u8>,
    pub record_type: Kind,
    pub flags: Seq<Flag>,
    pub log_level: LogLevel,
}

impl View for QueryArgs {
    type V = QueryArgsView;

    open spec fn view(&self) -> QueryArgsView {
        QueryArgsView {
            domain_name: self.domain_name@,
            name_server: self.name_server@,
            record_type: self.record_type,
            flags: self.flags@,
            log_level: self.log_level,
        }
    }
}

impl Clone for QueryArgs {
    fn clone(&self) -> (r: QueryArgs)
        ensures
            r@ == self@,
    {
        QueryArgs {
            domain_name: self.domain_name.clone(),
            name_server: self.name_server,
            record_type: self.record_type,
            flags: self.flags.clone(),
            log_level: self.log_level,
        }
    }
}

/// The query that asks as `args` say, under the id `id`: a header with the
/// flags of `args` and a count of one question, then the question for the
/// name and type of `args` in class IN. There is no query for the `ANY`
/// filter.
pub open spec fn query_wire(args: QueryArgsView, id: u16) -> Option<Seq<u8>> {
    let header = DNSHeader {
        id,
        flags: Flags(union_of(args.flags)),
        num_questions: 1,
        num_answers: 0,
        num_authorities: 0,
        num_additionals: 0,
    };
    let question = QuestionView {
        name: args.domain_name,
        kind: args.record_type,
        class: Class::IN,
    };
    match question.wire() {
        Some(bytes) => Some(header.wire() + bytes),
        None => None,
    }
}

/// `rand::random`: a `u16` drawn from the thread's random number generator.
/// Nothing is claimed of the number.
#[verifier::external_body]
fn random_id() -> u16 {
    rand::random()
}

/// The query that asks as `args` say, under the id `id`; `None` where `args`
/// ask for the `ANY` filter, which cannot be sent.
pub fn query_with_id(args: &QueryArgs, id: u16) -> (r: Option<Vec<u8>>)
    ensures
        match r {
            Some(bytes) => query_wire(args@, id) == Some(bytes@),
            None => query_wire(args@, id) is None,
        },
{
    if args.record_type == Kind::ANY {
        return None;
    }
    let header = DNSHeader {
        id,
        flags: Flags::compose(args.flags.as_slice()),
        num_questions: 1,
        num_answers: 0,
        num_authorities: 0,
        num_additionals: 0,
    };
    let mut query = header.to_bytes();
    let question = DNSQuestion {
        name: args.domain_name.clone(),
        kind: args.record_type,
        class: Class::IN,
    };
    let tail = question.to_bytes();
    query.extend_from_slice(tail.as_slice());
    Some(query)
}

/// The query that asks as `args` say, under a random id; `None` where `args`
/// ask for the `ANY` filter, which cannot be sent.
pub fn build_query(args: &QueryArgs) -> (r: Option<Vec<u8>>)
    ensures
        match r {
            Some(bytes) => exists|id: u16| query_wire(args@, id) == Some(bytes@),
            None => args.record_type == Kind::ANY,
        },
{
    let id = random_id();
    query_with_id(args, id)
}

/// What a response means for the lookup that it answers.
#[derive(Debug, PartialEq, Eq)]
pub enum Outcome {
    /// The response answers the question: the data of the matching answers.
    Answered(Vec<Data>),
    /// The response names a server to ask next and gives its address.
    Referred([u8; 4]),
    /// The response names a server to ask next, without its address.
    DelegatedByName(String),
    /// The response gives neither an answer nor a server to ask next.
    Failed,
}

/// What an [`Outcome`] holds.
pub enum OutcomeView {
    Answered(Seq<DataView>),
    Referred(Seq<u8>),
    DelegatedByName(Seq<char>),
    Failed,
}

impl View for Outcome {
    type V = OutcomeView;

    open spec fn view(&self) -> OutcomeView {
        match self {
            Outcome::Answered(data) => OutcomeView::Answered(data_views(data@)),
            Outcome::Referred(address) => OutcomeView::Referred(address@),
            Outcome::DelegatedByName(host) => OutcomeView::DelegatedByName(host@),
            Outcome::Failed => OutcomeView::Failed,
        }
    }
}

/// What `response` means for a lookup of records of type `kind`.
///
/// Answers that `kind` lets pass settle the lookup. Without any, the first
/// address record of the additional section refers the lookup to another
/// server. Without that, the first NS record of the authority section names
/// the server to ask next. Without that, the lookup has failed.
pub open spec fn outcome_of(response: PacketView, kind: Kind) -> OutcomeView {
    if answers_for(response.answers, kind).len() > 0 {
        OutcomeView::Answered(answers_for(response.answers, kind))
    } else if let Some(address) = first_address(response.additionals) {
        OutcomeView::Referred(address)
    } else if let Some(host) = first_name_server(response.authorities) {
        OutcomeView::DelegatedByName(host)
    } else {
        OutcomeView::Failed
    }
}

/// What `response` means for a lookup of records of type `kind`.
pub fn interpret(response: &DNSPacket, kind: Kind) -> (r: Outcome)
    ensures
        r@ == outcome_of(response@, kind),
{
    let answers = response.get_answers(kind);
    if answers.len() > 0 {
        return Outcome::Answered(answers);
    }
    if let Some(address) = response.get_name_server_ip() {
        return Outcome::Referred(address);
    }
    if let Some(host) = response.get_name_server() {
        return Outcome::DelegatedByName(host);
    }
    Outcome::Failed
}

/// A lookup that waits for the address of a name server.
#[derive(Debug, PartialEq, Eq)]
pub struct Pending {
    /// The domain name that was asked about.
    pub domain_name: String,
    /// The record type that was asked for.
    pub record_type: Kind,
}

/// What a [`Pending`] holds.
pub struct PendingView {
    pub domain_name: Seq<char>,
    pub record_type: Kind,
}

impl View for Pending {
    type V = PendingView;

    open spec fn view(&self) -> PendingView {
        PendingView { domain_name: self.domain_name@, record_type: self.record_type }
    }
}

/// What each of the pending lookups holds.
pub open spec fn pending_views(waiting: Seq<Pending>) -> Seq<PendingView> {
    waiting.map_values(|p: Pending| p@)
}

/// A lookup under way, between two queries.
#[derive(Debug, PartialEq, Eq)]
pub struct Resolution {
    /// What the next query asks, and whom.
    pub args: QueryArgs,
    /// The lookups that wait for this one, the first to have begun first.
    /// Each waits for the address of a name server that the one behind it
    /// looks up; the last waits for the lookup that `args` describe.
    pub waiting: Vec<Pending>,
    /// How many more referrals may be followed.
    pub hops_left: u32,
}

/// What a [`Resolution`] holds.
pub struct ResolutionView {
    pub args: QueryArgsView,
    pub waiting: Seq<PendingView>,
    pub hops_left: nat,
}

impl View for Resolution {
    type V = ResolutionView;

    open spec fn view(&self) -> ResolutionView {
        ResolutionView {
            args: self.args@,
            waiting: pending_views(self.waiting@),
            hops_left: self.hops_left as nat,
        }
    }
}

/// What a lookup does after a response.
#[derive(Debug, PartialEq, Eq)]
pub enum Step {
    /// Send the query of this state to its name server.
    Query(Resolution),
    /// The lookup has ended with these data.
    Done(Vec<Data>),
    /// The lookup has failed.
    Failed(ResolveError),
}

/// What a [`Step`] holds.
pub enum StepView {
    Query(ResolutionView),
    Done(Seq<DataView>),
    Failed(ResolveErrorView),
}

impl View for Step {
    type V = StepView;

    open spec fn view(&self) -> StepView {
        match self {
            Step::Query(state) => StepView::Query(state@),
            Step::Done(data) => StepView::Done(data_views(data@)),
            Step::Failed(e) => StepView::Failed(e@),
        }
    }
}

impl ResolutionView {
    /// The step to `self`, if one more referral may be followed.
    pub open spec fn hop(self) -> StepView {
        if self.hops_left == 0 {
            StepView::Failed(ResolveErrorView::ReferralLoop)
        } else {
            StepView::Query(ResolutionView { hops_left: (self.hops_left - 1) as nat, ..self })
        }
    }

    /// The state in which the same question goes to the server at `address`.
    pub open spec fn referred_to(self, address: Seq<u8>) -> ResolutionView {
        ResolutionView { args: QueryArgsView { name_server: address, ..self.args }, ..self }
    }

    /// The state in which the lookup so far waits, and the address of the
    /// name server `host` is asked for at the same server.
    pub open spec fn delegated_to(self, host: Seq<char>) -> ResolutionView {
        ResolutionView {
            args: QueryArgsView { domain_name: host, record_type: Kind::A, ..self.args },
            waiting: self.waiting.push(
                PendingView {
                    domain_name: self.args.domain_name,
                    record_type: self.args.record_type,
                },
            ),
            ..self
        }
    }

    /// The state in which the lookup that waited last goes on, at the server
    /// at `address`.
    pub open spec fn resumed_at(self, address: Seq<u8>) -> ResolutionView
        recommends
            self.waiting.len() > 0,
    {
        ResolutionView {
            args: QueryArgsView {
                domain_name: self.waiting.last().domain_name,
                record_type: self.waiting.last().record_type,
                name_server: address,
                ..self.args
            },
            waiting: self.waiting.drop_last(),
            ..self
        }
    }

    /// What the lookup does after `response`.
    ///
    /// An answer ends the lookup, unless other lookups wait for it: then its
    /// first datum must be an IPv4 address, and the lookup that waited last
    /// goes on at that address. A glue address sends the same question to
    /// that address. The name of a name server without an address starts a
    /// lookup of that name's address, for which the present one waits. A
    /// response with none of these fails the lookup. Each step that leads to
    /// another query uses up one referral.
    pub open spec fn next(self, response: PacketView) -> StepView {
        match outcome_of(response, self.args.record_type) {
            OutcomeView::Answered(data) => if self.waiting.len() == 0 {
                StepView::Done(data)
            } else {
                match data[0] {
                    DataView::IPv4(address) => self.resumed_at(address).hop(),
                    _ => StepView::Failed(ResolveErrorView::NoAddress),
                }
            },
            OutcomeView::Referred(address) => self.referred_to(address).hop(),
            OutcomeView::DelegatedByName(host) => self.delegated_to(host).hop(),
            OutcomeView::Failed => StepView::Failed(
                ResolveErrorView::Unresolvable {
                    domain_name: self.args.domain_name,
                    name_server: self.args.name_server,
                },
            ),
        }
    }

    /// What the lookup does after the response that `bytes` hold.
    pub open spec fn next_from_bytes(self, bytes: Seq<u8>) -> StepView {
        match parse_packet(bytes) {
            Ok(response) => self.next(response),
            Err(e) => StepView::Failed(ResolveErrorView::Decode(e)),
        }
    }
}

impl Resolution {
    /// The state before the first query: nothing waits, and `max_hops`
    /// referrals may be followed.
    pub fn start(args: QueryArgs, max_hops: u32) -> (r: Resolution)
        ensures
            r@ == (ResolutionView { args: args@, waiting: Seq::empty(), hops_left: max_hops as nat }),
    {
        let state = Resolution { args, waiting: Vec::new(), hops_left: max_hops };
        assert(pending_views(state.waiting@) == Seq::<PendingView>::empty());
        state
    }

    /// The step to this state, if one more referral may be followed.
    fn hop(self) -> (r: Step)
        ensures
            r@ == self@.hop(),
    {
        if self.hops_left == 0 {
            return Step::Failed(ResolveError::ReferralLoop);
        }
        let mut state = self;
        state.hops_left = state.hops_left - 1;
        Step::Query(state)
    }

    /// What the lookup does after `response`.
    pub fn advance(self, response: &DNSPacket) -> (r: Step)
        ensures
            r@ == self@.next(response@),
    {
        let mut state = self;
        match interpret(response, state.args.record_type) {
            Outcome::Answered(data) => {
                if state.waiting.len() == 0 {
                    return Step::Done(data);
                }
                let address = match &data[0] {
                    Data::IPv4(address) => *address,
                    _ => {
                        return Step::Failed(ResolveError::NoAddress);
                    },
                };
                let ghost waiting = state.waiting@;
                let resumed = state.waiting.pop().unwrap();
                assert(pending_views(state.waiting@) == pending_views(waiting).drop_last());
                state.args.domain_name = resumed.domain_name;
                state.args.record_type = resumed.record_type;
                state.args.name_server = address;
                state.hop()
            },
            Outcome::Referred(address) => {
                state.args.name_server = address;
                state.hop()
            },
            Outcome::DelegatedByName(host) => {
                let ghost waiting = state.waiting@;
                let suspended = Pending {
                    domain_name: state.args.domain_name.clone(),
                    record_type: state.args.record_type,
                };
                assert(pending_views(waiting.push(suspended)) == pending_views(waiting).push(
                    suspended@,
                ));
                state.waiting.push(suspended);
                state.args.domain_name = host;
                state.args.record_type = Kind::A;
                state.hop()
            },
            Outcome::Failed => Step::Failed(
                ResolveError::Unresolvable {
                    domain_name: state.args.domain_name,
                    name_server: state.args.name_server,
                },
            ),
        }
    }

    /// What the lookup does after the response that `bytes` hold.
    pub fn receive(self, bytes: Vec<u8>) -> (r: Step)
        ensures
            r@ == self@.next_from_bytes(bytes@),
    {
        match DNSPacket::try_from(bytes) {
            Ok(response) => self.advance(&response),
            Err(e) => Step::Failed(ResolveError::Decode(e)),
        }
    }
}

/// A response whose answer, authority and additional sections are empty
/// fails the lookup as unresolvable, whatever waits for it.
pub proof fn lemma_empty_response_fails(state: ResolutionView, response: PacketView)
    requires
        response.answers.len() == 0,
        response.authorities.len() == 0,
        response.additionals.len() == 0,
    ensures
        state.next(response) == StepView::Failed(
            ResolveErrorView::Unresolvable {
                domain_name: state.args.domain_name,
                name_server: state.args.name_server,
            },
        ),
{
    lemma_answers_for(response.answers, state.args.record_type);
}

/// A response without a matching answer but with a glue address sends the
/// same question to that address next, and starts no lookup of a name
/// server's address.
pub proof fn lemma_glue_is_followed(state: ResolutionView, response: PacketView, address: Seq<u8>)
    requires
        answers_for(response.answers, state.args.record_type).len() == 0,
        first_address(response.additionals) == Some(address),
        state.hops_left > 0,
    ensures
        state.next(response) == StepView::Query(
            ResolutionView {
                args: QueryArgsView { name_server: address, ..state.args },
                waiting: state.waiting,
                hops_left: (state.hops_left - 1) as nat,
            },
        ),
{
}

/// A response without a matching answer and without a glue address, but with
/// the name of a name server, starts one lookup of that name's address at the
/// same server; and once that lookup is answered with an address, the
/// question that waited goes to that address.
pub proof fn lemma_name_server_is_looked_up(
    state: ResolutionView,
    referral: PacketView,
    host: Seq<char>,
    answer: PacketView,
    address: Seq<u8>,
)
    requires
        answers_for(referral.answers, state.args.record_type).len() == 0,
        first_address(referral.additionals) is None,
        first_name_server(referral.authorities) == Some(host),
        answers_for(answer.answers, Kind::A).len() > 0,
        answers_for(answer.answers, Kind::A)[0] == DataView::IPv4(address),
        state.hops_left >= 2,
    ensures
        state.next(referral) == StepView::Query(
            ResolutionView {
                args: QueryArgsView { domain_name: host, record_type: Kind::A, ..state.args },
                waiting: state.waiting.push(
                    PendingView {
                        domain_name: state.args.domain_name,
                        record_type: state.args.record_type,
                    },
                ),
                hops_left: (state.hops_left - 1) as nat,
            },
        ),
        state.next(referral)->Query_0.next(answer) == StepView::Query(
            ResolutionView {
                args: QueryArgsView { name_server: address, ..state.args },
                waiting: state.waiting,
                hops_left: (state.hops_left - 2) as nat,
            },
        ),
{
    let inner = state.delegated_to(host).hop()->Query_0;
    assert(inner.waiting.drop_last() == state.waiting);
}

/// Each step that leads to another query uses up one referral, so a lookup
/// that starts with `n` referrals sends `n + 1` queries at most.
pub proof fn lemma_queries_are_bounded(state: ResolutionView, response: PacketView)
    ensures
        state.next(response) matches StepView::Query(next) ==> next.hops_left + 1
            == state.hops_left,
        state.hops_left == 0 ==> !(state.next(response) is Query),
{
}

/// A query decodes to a message of one question, which asks what the query
/// was built to ask, if the name asked about decodes as it was encoded.
pub proof fn lemma_query_round_trip(args: QueryArgsView, id: u16)
    requires
        args.record_type != Kind::ANY,
        plain_name(args.domain_name),
    ensures
        query_wire(args, id) is Some,
        parse_packet(query_wire(args, id)->Some_0) == Ok::<_, PacketError>(
            PacketView {
                header: DNSHeader {
                    id,
                    flags: Flags(union_of(args.flags)),
                    num_questions: 1,
                    num_answers: 0,
                    num_authorities: 0,
                    num_additionals: 0,
                },
                questions: seq![
                    QuestionView {
                        name: args.domain_name,
                        kind: args.record_type,
                        class: Class::IN,
                    },
                ],
                answers: Seq::empty(),
                authorities: Seq::empty(),
                additionals: Seq::empty(),
            },
        ),
{
    let header = DNSHeader {
        id,
        flags: Flags(union_of(args.flags)),
        num_questions: 1,
        num_answers: 0,
        num_authorities: 0,
        num_additionals: 0,
    };
    let question = QuestionView {
        name: args.domain_name,
        kind: args.record_type,
        class: Class::IN,
    };
    let tail = question.wire()->Some_0;
    let bytes = header.wire() + tail;
    lemma_header_round_trip(header, Seq::empty(), tail);
    assert(Seq::<u8>::empty() + header.wire() + tail == bytes);
    lemma_question_round_trip(question, header.wire(), Seq::empty());
    assert(header.wire() + tail + Seq::<u8>::empty() == bytes);
    let end = (12 + tail.len()) as int;
    assert(parse_questions(bytes, end, 0) == Ok::<_, PacketError>(
        (Seq::<QuestionView>::empty(), end),
    ));
}

} // verus!
