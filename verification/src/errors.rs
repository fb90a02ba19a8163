use crate::dns_structs::reader::DecodeError;
use crate::enums::Kind;
use vstd::prelude::*;

verus! {

/// The part of a message that was being read when decoding failed.
#[derive(Copy, Clone, Debug, PartialEq, Eq, Structural)]
pub enum Field {
    /// The twelve-byte header.
    Header,
    /// The owner name of a question or a record.
    Name,
    /// The type code of a question or a record.
    Kind,
    /// The class code of a question or a record.
    Class,
    /// The time to live of a record.
    Ttl,
    /// The declared length of a record's data.
    DataLength,
    /// The host name that an NS or CNAME record carries.
    Host,
    /// The address that an A or AAAA record carries.
    Address,
    /// The data of a record of any other type.
    Data,
}

/// Why a message could not be decoded.
#[derive(Copy, Clone, Debug, PartialEq, Eq, Structural)]
pub enum PacketError {
    /// Reading `field` failed with `cause`.
    Read { field: Field, cause: DecodeError },
    /// A type code that stands for no record type.
    InvalidKind(u16),
    /// A class code that stands for no class.
    InvalidClass(u16),
    /// An address record of type `kind` declares `length` bytes of data, which
    /// is not the size of its address.
    LengthMismatch { kind: Kind, length: u16 },
}

/// Why a name could not be resolved.
#[derive(Debug, PartialEq, Eq)]
pub enum ResolveError {
    /// A response could not be decoded.
    Decode(PacketError),
    /// The server at `name_server` gave neither an answer for `domain_name`
    /// nor a server to ask next.
    Unresolvable { domain_name: String, name_server: [u8; 4] },
    /// The lookup of a name server's address was answered, but the first
    /// answer is no IPv4 address.
    NoAddress,
    /// More referrals were followed than the lookup was allowed.
    ReferralLoop,
}

/// What a [`ResolveError`] holds.
pub enum ResolveErrorView {
    Decode(PacketError),
    Unresolvable { domain_name: Seq<char>, name_server: Seq<u8> },
    NoAddress,
    ReferralLoop,
}

impl View for ResolveError {
    type V = ResolveErrorView;

    open spec fn view(&self) -> ResolveErrorView {
        match self {
            ResolveError::Decode(e) => ResolveErrorView::Decode(*e),
            ResolveError::Unresolvable { domain_name, name_server } => {
                ResolveErrorView::Unresolvable {
                    domain_name: domain_name@,
                    name_server: name_server@,
                }
            },
            ResolveError::NoAddress => ResolveErrorView::NoAddress,
            ResolveError::ReferralLoop => ResolveErrorView::ReferralLoop,
        }
    }
}

/// What reading `field` came to.
pub open spec fn read_as<T>(field: Field, outcome: Result<T, DecodeError>) -> Result<T, PacketError> {
    match outcome {
        Ok(v) => Ok(v),
        Err(cause) => Err(PacketError::Read { field, cause }),
    }
}

} // verus!
