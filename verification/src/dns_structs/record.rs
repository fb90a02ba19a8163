use crate::dns_structs::reader::{
    parse_bytes, parse_name, parse_u16, parse_u32, NameDecoder, Reader,
};
use crate::enums::{Class, Kind};
use crate::errors::{read_as, Field, PacketError};
use vstd::prelude::*;

verus! {

/// What a resource record carries.
#[derive(Debug, PartialEq, Eq)]
pub enum Data {
    /// A host name, as in NS and CNAME records.
    Host(String),
    /// The four bytes of an IPv4 address, as in A records.
    IPv4([u8; 4]),
    /// The sixteen bytes of an IPv6 address, as in AAAA records.
    IPv6([u8; 16]),
    /// The uninterpreted data of a record of any other type.
    Other(Vec<u8>),
}

/// What a [`Data`] holds.
pub enum DataView {
    Host(Seq<char>),
    IPv4(Seq<u8>),
    IPv6(Seq<u8>),
    Other(Seq<u8>),
}

impl View for Data {
    type V = DataView;

    open spec fn view(&self) -> DataView {
        match self {
            Data::Host(name) => DataView::Host(name@),
            Data::IPv4(address) => DataView::IPv4(address@),
            Data::IPv6(address) => DataView::IPv6(address@),
            Data::Other(bytes) => DataView::Other(bytes@),
        }
    }
}

impl Clone for Data {
    fn clone(&self) -> (r: Data)
        ensures
            r@ == self@,
    {
        match self {
            Data::Host(name) => Data::Host(name.clone()),
            Data::IPv4(address) => Data::IPv4(*address),
            Data::IPv6(address) => Data::IPv6(*address),
            Data::Other(bytes) => Data::Other(bytes.clone()),
        }
    }
}

impl DataView {
    /// Whether this is what a record of type `kind` carries: a host name in
    /// an NS or CNAME record, four address bytes in an A record, sixteen in
    /// an AAAA record, and uninterpreted bytes in any other.
    pub open spec fn fits(self, kind: Kind) -> bool {
        match self {
            DataView::Host(_) => kind == Kind::NS || kind == Kind::CNAME,
            DataView::IPv4(address) => kind == Kind::A && address.len() == 4,
            DataView::IPv6(address) => kind == Kind::AAAA && address.len() == 16,
            DataView::Other(_) => kind != Kind::NS && kind != Kind::CNAME && kind != Kind::A
                && kind != Kind::AAAA,
        }
    }
}

/// A resource record.
#[derive(Debug, PartialEq, Eq)]
pub struct DNSRecord {
    /// The name that the record is about.
    pub name: String,
    /// The type of the record.
    pub kind: Kind,
    /// The class of the record.
    pub class: Class,
    /// For how many seconds the record may be kept.
    pub ttl: u32,
    /// What the record carries.
    pub data: Data,
}

/// What a [`DNSRecord`] holds.
pub struct RecordView {
    pub name: Seq<char>,
    pub kind: Kind,
    pub class: Class,
    pub ttl: u32,
    pub data: DataView,
}

impl View for DNSRecord {
    type V = RecordView;

    open spec fn view(&self) -> RecordView {
        RecordView {
            name: self.name@,
            kind: self.kind,
            class: self.class,
            ttl: self.ttl,
            data: self.data@,
        }
    }
}

impl Clone for DNSRecord {
    fn clone(&self) -> (r: DNSRecord)
        ensures
            r@ == self@,
    {
        DNSRecord {
            name: self.name.clone(),
            kind: self.kind,
            class: self.class,
            ttl: self.ttl,
            data: self.data.clone(),
        }
    }
}

impl RecordView {
    /// Whether the record carries what a record of its type carries.
    pub open spec fn wf(self) -> bool {
        self.data.fits(self.kind)
    }
}

/// The fields that every record starts with, as they stand on the wire.
pub struct RecordHead {
    pub name: Seq<char>,
    pub kind: u16,
    pub class: u16,
    pub ttl: u32,
    /// The declared length of the data.
    pub length: u16,
}

/// The fixed fields of the record at `at`, and the offset of its data.
pub open spec fn parse_record_head(bytes: Seq<u8>, at: int) -> Result<(RecordHead, int), PacketError> {
    match read_as(Field::Name, parse_name(bytes, at)) {
        Err(e) => Err(e),
        Ok((name, at_kind)) => match read_as(Field::Kind, parse_u16(bytes, at_kind)) {
            Err(e) => Err(e),
            Ok((kind, at_class)) => match read_as(Field::Class, parse_u16(bytes, at_class)) {
                Err(e) => Err(e),
                Ok((class, at_ttl)) => match read_as(Field::Ttl, parse_u32(bytes, at_ttl)) {
                    Err(e) => Err(e),
                    Ok((ttl, at_length)) => match read_as(
                        Field::DataLength,
                        parse_u16(bytes, at_length),
                    ) {
                        Err(e) => Err(e),
                        Ok((length, at_data)) => Ok(
                            (RecordHead { name, kind, class, ttl, length }, at_data),
                        ),
                    },
                },
            },
        },
    }
}

/// The data at `at` of a record of type `kind` that declares `length` bytes
/// of data, and the offset behind the data.
///
/// The host name of an NS or CNAME record ends where the name ends, whatever
/// length is declared. An address record must declare the size of its
/// address. The data of any other record is the declared number of bytes.
pub open spec fn parse_data(bytes: Seq<u8>, at: int, kind: Kind, length: u16) -> Result<
    (DataView, int),
    PacketError,
> {
    match kind {
        Kind::NS | Kind::CNAME => match read_as(Field::Host, parse_name(bytes, at)) {
            Ok((name, next)) => Ok((DataView::Host(name), next)),
            Err(e) => Err(e),
        },
        Kind::A => if length != 4 {
            Err(PacketError::LengthMismatch { kind, length })
        } else {
            match read_as(Field::Address, parse_bytes(bytes, at, 4)) {
                Ok((address, next)) => Ok((DataView::IPv4(address), next)),
                Err(e) => Err(e),
            }
        },
        Kind::AAAA => if length != 16 {
            Err(PacketError::LengthMismatch { kind, length })
        } else {
            match read_as(Field::Address, parse_bytes(bytes, at, 16)) {
                Ok((address, next)) => Ok((DataView::IPv6(address), next)),
                Err(e) => Err(e),
            }
        },
        _ => match read_as(Field::Data, parse_bytes(bytes, at, length as int)) {
            Ok((data, next)) => Ok((DataView::Other(data), next)),
            Err(e) => Err(e),
        },
    }
}

/// The record at `at`, and the offset behind it.
///
/// The fixed fields are read first. Then the type code is looked up, the data
/// is read as the type asks, and the class code is looked up last.
pub open spec fn parse_record(bytes: Seq<u8>, at: int) -> Result<(RecordView, int), PacketError> {
    match parse_record_head(bytes, at) {
        Err(e) => Err(e),
        Ok((head, at_data)) => match Kind::of_code(head.kind) {
            None => Err(PacketError::InvalidKind(head.kind)),
            Some(kind) => match parse_data(bytes, at_data, kind, head.length) {
                Err(e) => Err(e),
                Ok((data, next)) => match Class::of_code(head.class) {
                    None => Err(PacketError::InvalidClass(head.class)),
                    Some(class) => Ok(
                        (RecordView { name: head.name, kind, class, ttl: head.ttl, data }, next),
                    ),
                },
            },
        },
    }
}

impl Data {
    /// Reads the data of a record of type `kind` that declares `length` bytes
    /// of data, and moves behind it. Where the data cannot be decoded the
    /// read position stays.
    pub fn decode(reader: &mut Reader, kind: Kind, length: u16) -> (r: Result<Data, PacketError>)
        ensures
            final(reader).bytes() == old(reader).bytes(),
            match r {
                Ok(data) => parse_data(old(reader).bytes(), old(reader).offset(), kind, length)
                    == Ok::<_, PacketError>((data@, final(reader).offset())),
                Err(e) => parse_data(old(reader).bytes(), old(reader).offset(), kind, length)
                    == Err::<(DataView, int), _>(e) && final(reader).offset() == old(
                    reader,
                ).offset(),
            },
    {
        match kind {
            Kind::NS | Kind::CNAME => match reader.decode_name() {
                Ok(name) => Ok(Data::Host(name)),
                Err(cause) => Err(PacketError::Read { field: Field::Host, cause }),
            },
            Kind::A => {
                if length != 4 {
                    return Err(PacketError::LengthMismatch { kind, length });
                }
                match reader.read(4) {
                    Ok(raw) => {
                        let address = [raw[0], raw[1], raw[2], raw[3]];
                        assert(address@ == raw@);
                        Ok(Data::IPv4(address))
                    },
                    Err(cause) => Err(PacketError::Read { field: Field::Address, cause }),
                }
            },
            Kind::AAAA => {
                if length != 16 {
                    return Err(PacketError::LengthMismatch { kind, length });
                }
                match reader.read(16) {
                    Ok(raw) => {
                        let address = [
                            raw[0],
                            raw[1],
                            raw[2],
                            raw[3],
                            raw[4],
                            raw[5],
                            raw[6],
                            raw[7],
                            raw[8],
                            raw[9],
                            raw[10],
                            raw[11],
                            raw[12],
                            raw[13],
                            raw[14],
                            raw[15],
                        ];
                        assert(address@ == raw@);
                        Ok(Data::IPv6(address))
                    },
                    Err(cause) => Err(PacketError::Read { field: Field::Address, cause }),
                }
            },
            _ => match reader.read(length as usize) {
                Ok(raw) => Ok(Data::Other(raw)),
                Err(cause) => Err(PacketError::Read { field: Field::Data, cause }),
            },
        }
    }
}

impl DNSRecord {
    /// Reads a record and moves behind it. Where the record cannot be decoded
    /// the read position stays.
    pub fn try_from(reader: &mut Reader) -> (r: Result<Self, PacketError>)
        ensures
            final(reader).bytes() == old(reader).bytes(),
            match r {
                Ok(record) => parse_record(old(reader).bytes(), old(reader).offset()) == Ok::<
                    _,
                    PacketError,
                >((record@, final(reader).offset())),
                Err(e) => parse_record(old(reader).bytes(), old(reader).offset()) == Err::<
                    (RecordView, int),
                    _,
                >(e) && final(reader).offset() == old(reader).offset(),
            },
    {
        let start = reader.position();
        let name = match reader.decode_name() {
            Ok(name) => name,
            Err(cause) => {
                return Err(PacketError::Read { field: Field::Name, cause });
            },
        };
        let kind = match reader.next_u16() {
            Ok(kind) => kind,
            Err(cause) => {
                reader.seek(start);
                return Err(PacketError::Read { field: Field::Kind, cause });
            },
        };
        let class = match reader.next_u16() {
            Ok(class) => class,
            Err(cause) => {
                reader.seek(start);
                return Err(PacketError::Read { field: Field::Class, cause });
            },
        };
        let ttl = match reader.next_u32() {
            Ok(ttl) => ttl,
            Err(cause) => {
                reader.seek(start);
                return Err(PacketError::Read { field: Field::Ttl, cause });
            },
        };
        let length = match reader.next_u16() {
            Ok(length) => length,
            Err(cause) => {
                reader.seek(start);
                return Err(PacketError::Read { field: Field::DataLength, cause });
            },
        };
        let kind = match Kind::try_from(kind) {
            Ok(kind) => kind,
            Err(code) => {
                reader.seek(start);
                return Err(PacketError::InvalidKind(code));
            },
        };
        let data = match Data::decode(reader, kind, length) {
            Ok(data) => data,
            Err(e) => {
                reader.seek(start);
                return Err(e);
            },
        };
        let class = match Class::try_from(class) {
            Ok(class) => class,
            Err(code) => {
                reader.seek(start);
                return Err(PacketError::InvalidClass(code));
            },
        };
        Ok(DNSRecord { name, kind, class, ttl, data })
    }
}

/// A record that decodes carries what a record of its type carries.
pub proof fn lemma_decoded_record_wf(bytes: Seq<u8>, at: int)
    ensures
        parse_record(bytes, at) matches Ok((record, _)) ==> record.wf(),
{
}

/// An A record that declares any data length but four, and an AAAA record
/// that declares any but sixteen, is rejected for that.
pub proof fn lemma_address_length(bytes: Seq<u8>, at: int)
    ensures
        parse_record_head(bytes, at) matches Ok((head, _)) ==> {
            &&& Kind::of_code(head.kind) == Some(Kind::A) && head.length != 4 ==> parse_record(
                bytes,
                at,
            ) == Err::<(RecordView, int), _>(
                PacketError::LengthMismatch { kind: Kind::A, length: head.length },
            )
            &&& Kind::of_code(head.kind) == Some(Kind::AAAA) && head.length != 16
                ==> parse_record(bytes, at) == Err::<(RecordView, int), _>(
                PacketError::LengthMismatch { kind: Kind::AAAA, length: head.length },
            )
        },
{
}

/// A record whose type code stands for no record type is rejected for that,
/// once its fixed fields are read.
pub proof fn lemma_unknown_kind(bytes: Seq<u8>, at: int)
    ensures
        parse_record_head(bytes, at) matches Ok((head, _)) && Kind::of_code(head.kind) is None
            ==> parse_record(bytes, at) == Err::<(RecordView, int), _>(
            PacketError::InvalidKind(parse_record_head(bytes, at)->Ok_0.0.kind),
        ),
        parse_record(bytes, at) matches Ok((record, _)) ==> record.kind != Kind::ANY,
{
}

} // verus!
