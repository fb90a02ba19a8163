use crate::dns_structs::header::{parse_header, DNSHeader};
use crate::dns_structs::question::{parse_question, DNSQuestion, QuestionView};
use crate::dns_structs::reader::Reader;
use crate::dns_structs::record::{parse_record, DNSRecord, Data, DataView, RecordView};
use crate::enums::Kind;
use crate::errors::PacketError;
use vstd::prelude::*;

verus! {

/// A DNS message: the header and the four sections.
#[derive(Debug, PartialEq, Eq)]
pub struct DNSPacket {
    pub header: DNSHeader,
    pub questions: Vec<DNSQuestion>,
    pub answers: Vec<DNSRecord>,
    pub authorities: Vec<DNSRecord>,
    pub additionals: Vec<DNSRecord>,
}

/// What a [`DNSPacket`] holds.
pub struct PacketView {
    pub header: DNSHeader,
    pub questions: Seq<QuestionView>,
    pub answers: Seq<RecordView>,
    pub authorities: Seq<RecordView>,
    pub additionals: Seq<RecordView>,
}

/// What each of the questions holds.
pub open spec fn question_views(questions: Seq<DNSQuestion>) -> Seq<QuestionView> {
    questions.map_values(|q: DNSQuestion| q@)
}

/// What each of the records holds.
pub open spec fn record_views(records: Seq<DNSRecord>) -> Seq<RecordView> {
    records.map_values(|r: DNSRecord| r@)
}

impl View for DNSPacket {
    type V = PacketView;

    open spec fn view(&self) -> PacketView {
        PacketView {
            header: self.header,
            questions: question_views(self.questions@),
            answers: record_views(self.answers@),
            authorities: record_views(self.authorities@),
            additionals: record_views(self.additionals@),
        }
    }
}

/// The outcome `rest` of decoding the end of a section, seen from the start
/// of the section, where the entries `done` stand before it.
pub open spec fn after<T>(done: Seq<T>, rest: Result<(Seq<T>, int), PacketError>) -> Result<
    (Seq<T>, int),
    PacketError,
> {
    match rest {
        Ok((entries, next)) => Ok((done + entries, next)),
        Err(e) => Err(e),
    }
}

/// The `count` questions from `at` on, and the offset behind them.
pub open spec fn parse_questions(bytes: Seq<u8>, at: int, count: nat) -> Result<
    (Seq<QuestionView>, int),
    PacketError,
>
    decreases count,
{
    if count == 0 {
        Ok((Seq::empty(), at))
    } else {
        match parse_question(bytes, at) {
            Err(e) => Err(e),
            Ok((first, next)) => after(seq![first], parse_questions(bytes, next, (count - 1) as nat)),
        }
    }
}

/// The `count` records from `at` on, and the offset behind them.
pub open spec fn parse_records(bytes: Seq<u8>, at: int, count: nat) -> Result<
    (Seq<RecordView>, int),
    PacketError,
>
    decreases count,
{
    if count == 0 {
        Ok((Seq::empty(), at))
    } else {
        match parse_record(bytes, at) {
            Err(e) => Err(e),
            Ok((first, next)) => after(seq![first], parse_records(bytes, next, (count - 1) as nat)),
        }
    }
}

/// The message that `bytes` hold: the header, then as many questions,
/// answers, authority records and additional records as the header counts,
/// in that order. What follows the last record is not looked at.
pub open spec fn parse_packet(bytes: Seq<u8>) -> Result<PacketView, PacketError> {
    match parse_header(bytes, 0) {
        Err(e) => Err(e),
        Ok((header, at_questions)) => match parse_questions(
            bytes,
            at_questions,
            header.num_questions as nat,
        ) {
            Err(e) => Err(e),
            Ok((questions, at_answers)) => match parse_records(
                bytes,
                at_answers,
                header.num_answers as nat,
            ) {
                Err(e) => Err(e),
                Ok((answers, at_authorities)) => match parse_records(
                    bytes,
                    at_authorities,
                    header.num_authorities as nat,
                ) {
                    Err(e) => Err(e),
                    Ok((authorities, at_additionals)) => match parse_records(
                        bytes,
                        at_additionals,
                        header.num_additionals as nat,
                    ) {
                        Err(e) => Err(e),
                        Ok((additionals, _)) => Ok(
                            PacketView { header, questions, answers, authorities, additionals },
                        ),
                    },
                },
            },
        },
    }
}

/// The data of the records that the filter `kind` lets pass, in their order.
pub open spec fn answers_for(records: Seq<RecordView>, kind: Kind) -> Seq<DataView> {
    records.filter(|r: RecordView| kind.admits(r.kind)).map_values(|r: RecordView| r.data)
}

/// The address of the first A record that carries one.
pub open spec fn first_address(records: Seq<RecordView>) -> Option<Seq<u8>>
    decreases records.len(),
{
    if records.len() == 0 {
        None
    } else if records[0].kind == Kind::A && records[0].data is IPv4 {
        Some(records[0].data->IPv4_0)
    } else {
        first_address(records.drop_first())
    }
}

/// The host name of the first NS record that carries one.
pub open spec fn first_name_server(records: Seq<RecordView>) -> Option<Seq<char>>
    decreases records.len(),
{
    if records.len() == 0 {
        None
    } else if records[0].kind == Kind::NS && records[0].data is Host {
        Some(records[0].data->Host_0)
    } else {
        first_name_server(records.drop_first())
    }
}

/// Reads `count` questions and moves behind them. Where one of them cannot
/// be decoded the read position is left at its start.
fn read_questions(reader: &mut Reader, count: u16) -> (r: Result<Vec<DNSQuestion>, PacketError>)
    ensures
        final(reader).bytes() == old(reader).bytes(),
        match r {
            Ok(questions) => parse_questions(
                old(reader).bytes(),
                old(reader).offset(),
                count as nat,
            ) == Ok::<_, PacketError>((question_views(questions@), final(reader).offset())),
            Err(e) => parse_questions(old(reader).bytes(), old(reader).offset(), count as nat)
                == Err::<(Seq<QuestionView>, int), _>(e),
        },
{
    let mut questions: Vec<DNSQuestion> = Vec::new();
    let mut i: u16 = 0;
    while i < count
        invariant
            i <= count,
            reader.bytes() == old(reader).bytes(),
            parse_questions(reader.bytes(), old(reader).offset(), count as nat) == after(
                question_views(questions@),
                parse_questions(reader.bytes(), reader.offset(), (count - i) as nat),
            ),
        decreases count - i,
    {
        let question = DNSQuestion::try_from(reader)?;
        proof {
            let done = question_views(questions@);
            assert(question_views(questions@.push(question)) == done.push(question@));
            match parse_questions(reader.bytes(), reader.offset(), (count - i - 1) as nat) {
                Ok((rest, _)) => {
                    assert(done + (seq![question@] + rest) == done.push(question@) + rest);
                },
                Err(_) => {},
            }
        }
        questions.push(question);
        i = i + 1;
    }
    Ok(questions)
}

/// Reads `count` records and moves behind them. Where one of them cannot be
/// decoded the read position is left at its start.
fn read_records(reader: &mut Reader, count: u16) -> (r: Result<Vec<DNSRecord>, PacketError>)
    ensures
        final(reader).bytes() == old(reader).bytes(),
        match r {
            Ok(records) => parse_records(old(reader).bytes(), old(reader).offset(), count as nat)
                == Ok::<_, PacketError>((record_views(records@), final(reader).offset())),
            Err(e) => parse_records(old(reader).bytes(), old(reader).offset(), count as nat)
                == Err::<(Seq<RecordView>, int), _>(e),
        },
{
    let mut records: Vec<DNSRecord> = Vec::new();
    let mut i: u16 = 0;
    while i < count
        invariant
            i <= count,
            reader.bytes() == old(reader).bytes(),
            parse_records(reader.bytes(), old(reader).offset(), count as nat) == after(
                record_views(records@),
                parse_records(reader.bytes(), reader.offset(), (count - i) as nat),
            ),
        decreases count - i,
    {
        let record = DNSRecord::try_from(reader)?;
        proof {
            let done = record_views(records@);
            assert(record_views(records@.push(record)) == done.push(record@));
            match parse_records(reader.bytes(), reader.offset(), (count - i - 1) as nat) {
                Ok((rest, _)) => {
                    assert(done + (seq![record@] + rest) == done.push(record@) + rest);
                },
                Err(_) => {},
            }
        }
        records.push(record);
        i = i + 1;
    }
    Ok(records)
}

impl DNSPacket {
    /// Decodes the message that `value` holds.
    pub fn try_from(value: Vec<u8>) -> (r: Result<Self, PacketError>)
        ensures
            match r {
                Ok(packet) => parse_packet(value@) == Ok::<_, PacketError>(packet@)
                    && packet@.counts_match() && packet@.wf(),
                Err(e) => parse_packet(value@) == Err::<PacketView, _>(e),
            },
    {
        proof {
            lemma_decoded_packet(value@);
        }
        let mut reader = Reader::new(value);
        let header = DNSHeader::try_from(&mut reader)?;
        let questions = read_questions(&mut reader, header.num_questions)?;
        let answers = read_records(&mut reader, header.num_answers)?;
        let authorities = read_records(&mut reader, header.num_authorities)?;
        let additionals = read_records(&mut reader, header.num_additionals)?;
        Ok(DNSPacket { header, questions, answers, authorities, additionals })
    }

    /// The data of every answer record that the filter `kind` lets pass, in
    /// the order of the section.
    pub fn get_answers(&self, kind: Kind) -> (r: Vec<Data>)
        ensures
            data_views(r@) == answers_for(self@.answers, kind),
    {
        let mut found: Vec<Data> = Vec::new();
        let mut i: usize = 0;
        while i < self.answers.len()
            invariant
                i <= self.answers.len(),
                data_views(found@) == answers_for(record_views(self.answers@).take(i as int), kind),
            decreases self.answers.len() - i,
        {
            let record = &self.answers[i];
            let passes = kind.accepts(record.kind);
            if passes {
                found.push(record.data.clone());
            }
            proof {
                let all = record_views(self.answers@);
                let keep = |r: RecordView| kind.admits(r.kind);
                let data = |r: RecordView| r.data;
                assert(all.take(i + 1) == all.take(i as int).push(all[i as int]));
                all.take(i as int).lemma_filter_push(all[i as int], keep);
                if passes {
                    assert(all.take(i as int).filter(keep).push(all[i as int]).map_values(data)
                        == all.take(i as int).filter(keep).map_values(data).push(
                        all[i as int].data,
                    ));
                }
            }
            i = i + 1;
        }
        assert(record_views(self.answers@).take(self.answers.len() as int) == record_views(
            self.answers@,
        ));
        found
    }

    /// The data of the first answer record that the filter `kind` lets pass.
    pub fn get_answer(&self, kind: Kind) -> (r: Option<Data>)
        ensures
            match r {
                Some(data) => answers_for(self@.answers, kind).len() > 0 && data@ == answers_for(
                    self@.answers,
                    kind,
                )[0],
                None => answers_for(self@.answers, kind).len() == 0,
            },
    {
        let mut i: usize = 0;
        while i < self.answers.len()
            invariant
                i <= self.answers.len(),
                answers_for(record_views(self.answers@).take(i as int), kind).len() == 0,
            decreases self.answers.len() - i,
        {
            let record = &self.answers[i];
            proof {
                let all = record_views(self.answers@);
                let keep = |r: RecordView| kind.admits(r.kind);
                let data = |r: RecordView| r.data;
                assert(all.take(i + 1) == all.take(i as int).push(all[i as int]));
                all.take(i as int).lemma_filter_push(all[i as int], keep);
                assert(all == all.take(i + 1) + all.skip(i + 1));
                Seq::filter_distributes_over_add(all.take(i + 1), all.skip(i + 1), keep);
            }
            if kind.accepts(record.kind) {
                return Some(record.data.clone());
            }
            i = i + 1;
        }
        assert(record_views(self.answers@).take(self.answers.len() as int) == record_views(
            self.answers@,
        ));
        None
    }

    /// The address of the first A record of the additional section: the glue
    /// address of a name server that the response refers to.
    pub fn get_name_server_ip(&self) -> (r: Option<[u8; 4]>)
        ensures
            match r {
                Some(address) => first_address(self@.additionals) == Some(address@),
                None => first_address(self@.additionals) is None,
            },
    {
        let mut i: usize = 0;
        assert(self@.additionals.skip(0) == self@.additionals);
        while i < self.additionals.len()
            invariant
                i <= self.additionals.len(),
                first_address(self@.additionals) == first_address(
                    self@.additionals.skip(i as int),
                ),
            decreases self.additionals.len() - i,
        {
            let record = &self.additionals[i];
            proof {
                let rest = self@.additionals.skip(i as int);
                assert(rest.drop_first() == self@.additionals.skip(i + 1));
            }
            if record.kind == Kind::A {
                if let Data::IPv4(address) = &record.data {
                    return Some(*address);
                }
            }
            i = i + 1;
        }
        None
    }

    /// The host name of the first NS record of the authority section: the
    /// name of a name server that the response refers to.
    pub fn get_name_server(&self) -> (r: Option<String>)
        ensures
            match r {
                Some(host) => first_name_server(self@.authorities) == Some(host@),
                None => first_name_server(self@.authorities) is None,
            },
    {
        let mut i: usize = 0;
        assert(self@.authorities.skip(0) == self@.authorities);
        while i < self.authorities.len()
            invariant
                i <= self.authorities.len(),
                first_name_server(self@.authorities) == first_name_server(
                    self@.authorities.skip(i as int),
                ),
            decreases self.authorities.len() - i,
        {
            let record = &self.authorities[i];
            proof {
                let rest = self@.authorities.skip(i as int);
                assert(rest.drop_first() == self@.authorities.skip(i + 1));
            }
            if record.kind == Kind::NS {
                if let Data::Host(host) = &record.data {
                    return Some(host.clone());
                }
            }
            i = i + 1;
        }
        None
    }
}

/// What each of the data holds.
pub open spec fn data_views(data: Seq<Data>) -> Seq<DataView> {
    data.map_values(|d: Data| d@)
}

impl PacketView {
    /// Whether each section holds as many entries as the header counts.
    pub open spec fn counts_match(self) -> bool {
        &&& self.questions.len() == self.header.num_questions
        &&& self.answers.len() == self.header.num_answers
        &&& self.authorities.len() == self.header.num_authorities
        &&& self.additionals.len() == self.header.num_additionals
    }

    /// Whether each record carries what a record of its type carries.
    pub open spec fn wf(self) -> bool {
        &&& forall|i: int| 0 <= i < self.answers.len() ==> (#[trigger] self.answers[i]).wf()
        &&& forall|i: int| 0 <= i < self.authorities.len() ==> (#[trigger] self.authorities[i]).wf()
        &&& forall|i: int| 0 <= i < self.additionals.len() ==> (#[trigger] self.additionals[i]).wf()
    }
}

/// A section that decodes holds as many questions as were asked for.
pub proof fn lemma_questions_len(bytes: Seq<u8>, at: int, count: nat)
    ensures
        parse_questions(bytes, at, count) matches Ok((questions, _)) ==> questions.len() == count,
    decreases count,
{
    if count > 0 {
        if let Ok((_, next)) = parse_question(bytes, at) {
            lemma_questions_len(bytes, next, (count - 1) as nat);
        }
    }
}

/// A section that decodes holds as many records as were asked for, and each
/// of them carries what a record of its type carries.
pub proof fn lemma_records_len(bytes: Seq<u8>, at: int, count: nat)
    ensures
        parse_records(bytes, at, count) matches Ok((records, _)) ==> records.len() == count
            && forall|i: int| 0 <= i < records.len() ==> (#[trigger] records[i]).wf(),
    decreases count,
{
    if count > 0 {
        if let Ok((_, next)) = parse_record(bytes, at) {
            lemma_records_len(bytes, next, (count - 1) as nat);
        }
    }
}

/// In a message that decodes, each section holds as many entries as the
/// header counts, and each record carries what a record of its type carries.
pub proof fn lemma_decoded_packet(bytes: Seq<u8>)
    ensures
        parse_packet(bytes) matches Ok(packet) ==> packet.counts_match() && packet.wf(),
{
    if let Ok((header, at_questions)) = parse_header(bytes, 0) {
        lemma_questions_len(bytes, at_questions, header.num_questions as nat);
        if let Ok((_, at_answers)) = parse_questions(
            bytes,
            at_questions,
            header.num_questions as nat,
        ) {
            lemma_records_len(bytes, at_answers, header.num_answers as nat);
            if let Ok((_, at_authorities)) = parse_records(
                bytes,
                at_answers,
                header.num_answers as nat,
            ) {
                lemma_records_len(bytes, at_authorities, header.num_authorities as nat);
                if let Ok((_, at_additionals)) = parse_records(
                    bytes,
                    at_authorities,
                    header.num_authorities as nat,
                ) {
                    lemma_records_len(bytes, at_additionals, header.num_additionals as nat);
                }
            }
        }
    }
}

/// Among records that carry what their type asks for, the first address is
/// that of the first A record, and there is one exactly when there is an A
/// record.
pub proof fn lemma_first_address(records: Seq<RecordView>)
    requires
        forall|i: int| 0 <= i < records.len() ==> (#[trigger] records[i]).wf(),
    ensures
        first_address(records) is Some <==> exists|i: int|
            0 <= i < records.len() && (#[trigger] records[i]).kind == Kind::A,
        first_address(records) matches Some(address) ==> exists|i: int|
            0 <= i < records.len() && (#[trigger] records[i]).data == DataView::IPv4(address)
                && forall|j: int| 0 <= j < i ==> (#[trigger] records[j]).kind != Kind::A,
    decreases records.len(),
{
    if records.len() > 0 {
        let rest = records.drop_first();
        assert forall|i: int| 0 <= i < rest.len() implies (#[trigger] rest[i]).wf() by {
            assert(rest[i] == records[i + 1]);
        }
        lemma_first_address(rest);
        if records[0].kind != Kind::A {
            if first_address(rest) is Some {
                let address = first_address(rest)->Some_0;
                let i = choose|i: int|
                    0 <= i < rest.len() && (#[trigger] rest[i]).data == DataView::IPv4(address)
                        && forall|j: int| 0 <= j < i ==> (#[trigger] rest[j]).kind != Kind::A;
                assert forall|j: int| 0 <= j < i + 1 implies (#[trigger] records[j]).kind
                    != Kind::A by {
                    if j > 0 {
                        assert(records[j] == rest[j - 1]);
                    }
                }
            }
            if exists|i: int| 0 <= i < records.len() && (#[trigger] records[i]).kind == Kind::A {
                let i = choose|i: int|
                    0 <= i < records.len() && (#[trigger] records[i]).kind == Kind::A;
                assert(rest[i - 1] == records[i]);
            }
        }
    }
}

/// Among records that carry what their type asks for, the first name server
/// is that of the first NS record, and there is one exactly when there is an
/// NS record.
pub proof fn lemma_first_name_server(records: Seq<RecordView>)
    requires
        forall|i: int| 0 <= i < records.len() ==> (#[trigger] records[i]).wf(),
    ensures
        first_name_server(records) is Some <==> exists|i: int|
            0 <= i < records.len() && (#[trigger] records[i]).kind == Kind::NS,
        first_name_server(records) matches Some(host) ==> exists|i: int|
            0 <= i < records.len() && (#[trigger] records[i]).data == DataView::Host(host)
                && records[i].kind == Kind::NS && forall|j: int|
                0 <= j < i ==> (#[trigger] records[j]).kind != Kind::NS,
    decreases records.len(),
{
    if records.len() > 0 {
        let rest = records.drop_first();
        assert forall|i: int| 0 <= i < rest.len() implies (#[trigger] rest[i]).wf() by {
            assert(rest[i] == records[i + 1]);
        }
        lemma_first_name_server(rest);
        if records[0].kind != Kind::NS {
            if first_name_server(rest) is Some {
                let host = first_name_server(rest)->Some_0;
                let i = choose|i: int|
                    0 <= i < rest.len() && (#[trigger] rest[i]).data == DataView::Host(host)
                        && rest[i].kind == Kind::NS && forall|j: int|
                        0 <= j < i ==> (#[trigger] rest[j]).kind != Kind::NS;
                assert forall|j: int| 0 <= j < i + 1 implies (#[trigger] records[j]).kind
                    != Kind::NS by {
                    if j > 0 {
                        assert(records[j] == rest[j - 1]);
                    }
                }
            }
            if exists|i: int| 0 <= i < records.len() && (#[trigger] records[i]).kind == Kind::NS {
                let i = choose|i: int|
                    0 <= i < records.len() && (#[trigger] records[i]).kind == Kind::NS;
                assert(rest[i - 1] == records[i]);
            }
        }
    }
}

/// A filter gives answers exactly when it lets a record pass; its first
/// answer is the datum of the first record that it lets pass; and the `ANY`
/// filter gives the datum of every record.
pub proof fn lemma_answers_for(records: Seq<RecordView>, kind: Kind)
    ensures
        answers_for(records, kind).len() <= records.len(),
        answers_for(records, kind).len() > 0 <==> exists|i: int|
            0 <= i < records.len() && kind.admits((#[trigger] records[i]).kind),
        answers_for(records, kind).len() > 0 ==> exists|i: int|
            0 <= i < records.len() && kind.admits((#[trigger] records[i]).kind) && records[i].data
                == answers_for(records, kind)[0] && forall|j: int|
                0 <= j < i ==> !kind.admits((#[trigger] records[j]).kind),
        kind == Kind::ANY ==> answers_for(records, kind) == records.map_values(
            |r: RecordView| r.data,
        ),
    decreases records.len(),
{
    reveal(Seq::filter);
    if records.len() > 0 {
        let init = records.drop_last();
        lemma_answers_for(init, kind);
        if answers_for(init, kind).len() > 0 {
            let i = choose|i: int|
                0 <= i < init.len() && kind.admits((#[trigger] init[i]).kind) && init[i].data
                    == answers_for(init, kind)[0] && forall|j: int|
                    0 <= j < i ==> !kind.admits((#[trigger] init[j]).kind);
            assert forall|j: int| 0 <= j < i implies !kind.admits((#[trigger] records[j]).kind) by {
                assert(records[j] == init[j]);
            }
        } else {
            assert forall|j: int| 0 <= j < init.len() implies !kind.admits(
                (#[trigger] records[j]).kind,
            ) by {
                assert(records[j] == init[j]);
            }
        }
    }
    if kind == Kind::ANY {
        lemma_any_admits_all(records);
    }
}

/// The `ANY` filter lets every record pass.
proof fn lemma_any_admits_all(records: Seq<RecordView>)
    ensures
        records.filter(|r: RecordView| Kind::ANY.admits(r.kind)) == records,
    decreases records.len(),
{
    reveal(Seq::filter);
    if records.len() > 0 {
        lemma_any_admits_all(records.drop_last());
    }
}

} // verus!
