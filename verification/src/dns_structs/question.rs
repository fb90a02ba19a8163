use crate::dns_structs::header::{lemma_u16_round_trip, put_u16, u16_bytes};
use crate::dns_structs::name::{
    labels_wire, lemma_name_round_trip, name_wire, plain_name, split_dots, DOT,
};
use crate::dns_structs::reader::{parse_name, parse_u16, NameDecoder, Reader};
use crate::enums::{Class, Kind};
use crate::errors::{read_as, Field, PacketError};
use vstd::prelude::*;
use vstd::slice::slice_subrange;
use vstd::utf8::encode_utf8;

verus! {

/// A question: the name asked about, and the type and class asked for.
#[derive(Debug, PartialEq, Eq)]
pub struct DNSQuestion {
    /// The domain name, its labels separated by dots.
    pub name: String,
    /// The record type.
    pub kind: Kind,
    /// The record class.
    pub class: Class,
}

/// What a [`DNSQuestion`] holds.
pub struct QuestionView {
    pub name: Seq<char>,
    pub kind: Kind,
    pub class: Class,
}

impl View for DNSQuestion {
    type V = QuestionView;

    open spec fn view(&self) -> QuestionView {
        QuestionView { name: self.name@, kind: self.kind, class: self.class }
    }
}

impl Clone for DNSQuestion {
    fn clone(&self) -> (r: DNSQuestion)
        ensures
            r@ == self@,
    {
        DNSQuestion { name: self.name.clone(), kind: self.kind, class: self.class }
    }
}

impl QuestionView {
    /// The question on the wire: the name, then the codes of type and class.
    /// A question for the `ANY` filter has no wire form.
    pub open spec fn wire(self) -> Option<Seq<u8>> {
        match self.kind.wire_code() {
            Some(code) => Some(
                name_wire(encode_utf8(self.name)) + u16_bytes(code) + u16_bytes(
                    self.class.wire_code(),
                ),
            ),
            None => None,
        }
    }
}

/// The question at `at`, and the offset behind it.
pub open spec fn parse_question(bytes: Seq<u8>, at: int) -> Result<(QuestionView, int), PacketError> {
    match read_as(Field::Name, parse_name(bytes, at)) {
        Err(e) => Err(e),
        Ok((name, at_kind)) => match read_as(Field::Kind, parse_u16(bytes, at_kind)) {
            Err(e) => Err(e),
            Ok((kind, at_class)) => match read_as(Field::Class, parse_u16(bytes, at_class)) {
                Err(e) => Err(e),
                Ok((class, next)) => match Kind::of_code(kind) {
                    None => Err(PacketError::InvalidKind(kind)),
                    Some(kind) => match Class::of_code(class) {
                        None => Err(PacketError::InvalidClass(class)),
                        Some(class) => Ok((QuestionView { name, kind, class }, next)),
                    },
                },
            },
        },
    }
}

impl DNSQuestion {
    /// The name on the wire.
    pub fn encode_name(&self) -> (r: Vec<u8>)
        ensures
            r@ == name_wire(encode_utf8(self.name@)),
    {
        let text = self.name.as_str().as_bytes();
        let mut out: Vec<u8> = Vec::new();
        let mut start: usize = 0;
        let mut i: usize = 0;
        while i < text.len()
            invariant
                start <= i <= text.len(),
                out@ == labels_wire(split_dots(text@.take(i as int)).drop_last()),
                split_dots(text@.take(i as int)).len() > 0,
                split_dots(text@.take(i as int)).last() == text@.subrange(start as int, i as int),
            decreases text.len() - i,
        {
            proof {
                assert(text@.take(i + 1).drop_last() == text@.take(i as int));
                let before = split_dots(text@.take(i as int));
                if text[i as int] == DOT {
                    assert(before.push(Seq::<u8>::empty()).drop_last() == before);
                } else {
                    let grown = before.last().push(text[i as int]);
                    assert(before.drop_last().push(grown).drop_last() == before.drop_last());
                }
            }
            if text[i] == DOT {
                out.push(((i - start) % 0x100) as u8);
                out.extend_from_slice(slice_subrange(text, start, i));
                start = i + 1;
            }
            i = i + 1;
        }
        assert(text@.take(text.len() as int) == text@);
        out.push(((i - start) % 0x100) as u8);
        out.extend_from_slice(slice_subrange(text, start, i));
        out.push(0);
        out
    }

    /// The question on the wire.
    pub fn to_bytes(&self) -> (r: Vec<u8>)
        requires
            self.kind != Kind::ANY,
        ensures
            self@.wire() == Some(r@),
    {
        let mut bytes = self.encode_name();
        put_u16(&mut bytes, self.kind.code().unwrap());
        put_u16(&mut bytes, self.class.code());
        bytes
    }

    /// Reads a question and moves behind it. Where the question cannot be
    /// decoded the read position stays.
    pub fn try_from(reader: &mut Reader) -> (r: Result<Self, PacketError>)
        ensures
            final(reader).bytes() == old(reader).bytes(),
            match r {
                Ok(question) => parse_question(old(reader).bytes(), old(reader).offset()) == Ok::<
                    _,
                    PacketError,
                >((question@, final(reader).offset())),
                Err(e) => parse_question(old(reader).bytes(), old(reader).offset()) == Err::<
                    (QuestionView, int),
                    _,
                >(e) && final(reader).offset() == old(reader).offset(),
            },
    {
        let start = reader.position();
        let name = match reader.decode_name() {
            Ok(name) => name,
            Err(cause) => {
                return Err(PacketError::Read { field: Field::Name, cause });
            },
        };
        let kind = match reader.next_u16() {
            Ok(kind) => kind,
            Err(cause) => {
                reader.seek(start);
                return Err(PacketError::Read { field: Field::Kind, cause });
            },
        };
        let class = match reader.next_u16() {
            Ok(class) => class,
            Err(cause) => {
                reader.seek(start);
                return Err(PacketError::Read { field: Field::Class, cause });
            },
        };
        let kind = match Kind::try_from(kind) {
            Ok(kind) => kind,
            Err(code) => {
                reader.seek(start);
                return Err(PacketError::InvalidKind(code));
            },
        };
        let class = match Class::try_from(class) {
            Ok(class) => class,
            Err(code) => {
                reader.seek(start);
                return Err(PacketError::InvalidClass(code));
            },
        };
        Ok(DNSQuestion { name, kind, class })
    }
}

/// A question that decodes asks for a record type with a wire code, never
/// for the `ANY` filter.
pub proof fn lemma_decoded_question_kind(bytes: Seq<u8>, at: int)
    ensures
        parse_question(bytes, at) matches Ok((question, _)) ==> question.kind != Kind::ANY,
{
}

/// A question that was put on the wire is read back as it was, whatever
/// stands before and behind it, if its name decodes as it was encoded.
pub proof fn lemma_question_round_trip(question: QuestionView, before: Seq<u8>, behind: Seq<u8>)
    requires
        question.kind != Kind::ANY,
        plain_name(question.name),
    ensures
        question.wire() is Some,
        parse_question(before + question.wire()->Some_0 + behind, before.len() as int) == Ok::<
            _,
            PacketError,
        >((question, (before.len() + question.wire()->Some_0.len()) as int)),
{
    let code = question.kind.wire_code()->Some_0;
    let class = question.class.wire_code();
    let name = name_wire(encode_utf8(question.name));
    let wire = question.wire()->Some_0;
    let all = before + wire + behind;
    let tail = u16_bytes(code) + u16_bytes(class) + behind;
    assert(all == before + name + tail);
    lemma_name_round_trip(question.name, before, tail);
    lemma_u16_round_trip(code);
    lemma_u16_round_trip(class);
    Kind::lemma_code_round_trip(question.kind, code);
    Class::lemma_code_round_trip(question.class, class);
}

} // verus!
