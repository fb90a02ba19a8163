use vstd::prelude::*;
use vstd::std_specs::convert::TryFromSpecImpl;

verus! {

/// The type of a DNS resource record (RFC 1035 section 3.2.2 and later additions).
///
/// Every variant but [`Kind::ANY`] stands for one code on the wire. `ANY` is a
/// filter that matches every record type; it has no wire code.
#[allow(non_camel_case_types)]
#[derive(Copy, Clone, Debug, PartialEq, Eq, Structural)]
pub enum Kind {
    /// An address record holding an IPv4 address.
    A,
    /// An authoritative name server.
    NS,
    /// A mail destination (obsolete).
    MD,
    /// A mail forwarder (obsolete).
    MF,
    /// The canonical name of an alias.
    CNAME,
    /// The start of a zone of authority.
    SOA,
    /// A mailbox domain name (experimental).
    MB,
    /// A mail group member (experimental).
    MG,
    /// A mail rename domain name (experimental).
    MR,
    /// A null record (experimental).
    NULL,
    /// A well-known service description.
    WKS,
    /// A domain name pointer.
    PTR,
    /// Host information.
    HINFO,
    /// Mailbox or mail list information (experimental).
    MINFO,
    /// A mail exchange.
    MX,
    /// Text strings.
    TXT,
    /// The responsible person (RFC 1183).
    RP,
    /// An AFS database location (RFC 1183).
    AFSDB,
    /// A signature (RFC 2535).
    SIG,
    /// A key record (RFC 2535, RFC 2930).
    KEY,
    /// An address record holding an IPv6 address (RFC 3596).
    AAAA,
    /// A geographical location (RFC 1876).
    LOC,
    /// A service locator (RFC 2782).
    SRV,
    /// A naming authority pointer (RFC 3403).
    NAPTR,
    /// A key exchanger (RFC 2230).
    KX,
    /// A certificate (RFC 4398).
    CERT,
    /// A delegation name (RFC 6672).
    DNAME,
    /// An address prefix list (RFC 3123).
    APL,
    /// A delegation signer (RFC 4034).
    DS,
    /// An SSH public key fingerprint (RFC 4255).
    SSHFP,
    /// An IPsec key (RFC 4025).
    IPSECKEY,
    /// A DNSSEC signature (RFC 4034).
    RRSIG,
    /// A next-secure record (RFC 4034).
    NSEC,
    /// A DNS key (RFC 4034).
    DNSKEY,
    /// A DHCP identifier (RFC 4701).
    DHCID,
    /// A next-secure record, version 3 (RFC 5155).
    NSEC3,
    /// NSEC3 parameters (RFC 5155).
    NSEC3PARAM,
    /// A TLSA certificate association (RFC 6698).
    TLSA,
    /// An S/MIME certificate association (RFC 8162).
    SMIMEA,
    /// A host identity protocol record (RFC 8005).
    HIP,
    /// A child copy of a DS record (RFC 7344).
    CDS,
    /// A child copy of a DNSKEY record (RFC 7344).
    CDNSKEY,
    /// An OpenPGP public key (RFC 7929).
    OPENPGPKEY,
    /// Child-to-parent synchronisation (RFC 7477).
    CSYNC,
    /// A message digest for a zone (RFC 8976).
    ZONEMD,
    /// A service binding.
    SVCB,
    /// An HTTPS binding.
    HTTPS,
    /// A 48-bit MAC address (RFC 7043).
    EUI48,
    /// A 64-bit MAC address (RFC 7043).
    EUI64,
    /// A transaction key (RFC 2930).
    TKEY,
    /// A transaction signature (RFC 2845).
    TSIG,
    /// A uniform resource identifier (RFC 7553).
    URI,
    /// A certification authority authorisation (RFC 6844).
    CAA,
    /// A DNSSEC trust authority.
    TA,
    /// A DNSSEC lookaside validation record (RFC 4431).
    DLV,
    /// Matches every record type. Never sent and never received.
    ANY,
}

impl Kind {
    /// The code that stands for this record type on the wire, if it has one.
    pub open spec fn wire_code(self) -> Option<u16> {
        match self {
            Kind::A => Some(1u16),
            Kind::NS => Some(2u16),
            Kind::MD => Some(3u16),
            Kind::MF => Some(4u16),
            Kind::CNAME => Some(5u16),
            Kind::SOA => Some(6u16),
            Kind::MB => Some(7u16),
            Kind::MG => Some(8u16),
            Kind::MR => Some(9u16),
            Kind::NULL => Some(10u16),
            Kind::WKS => Some(11u16),
            Kind::PTR => Some(12u16),
            Kind::HINFO => Some(13u16),
            Kind::MINFO => Some(14u16),
            Kind::MX => Some(15u16),
            Kind::TXT => Some(16u16),
            Kind::RP => Some(17u16),
            Kind::AFSDB => Some(18u16),
            Kind::SIG => Some(24u16),
            Kind::KEY => Some(25u16),
            Kind::AAAA => Some(28u16),
            Kind::LOC => Some(29u16),
            Kind::SRV => Some(33u16),
            Kind::NAPTR => Some(35u16),
            Kind::KX => Some(36u16),
            Kind::CERT => Some(37u16),
            Kind::DNAME => Some(39u16),
            Kind::APL => Some(42u16),
            Kind::DS => Some(43u16),
            Kind::SSHFP => Some(44u16),
            Kind::IPSECKEY => Some(45u16),
            Kind::RRSIG => Some(46u16),
            Kind::NSEC => Some(47u16),
            Kind::DNSKEY => Some(48u16),
            Kind::DHCID => Some(49u16),
            Kind::NSEC3 => Some(50u16),
            Kind::NSEC3PARAM => Some(51u16),
            Kind::TLSA => Some(52u16),
            Kind::SMIMEA => Some(53u16),
            Kind::HIP => Some(55u16),
            Kind::CDS => Some(59u16),
            Kind::CDNSKEY => Some(60u16),
            Kind::OPENPGPKEY => Some(61u16),
            Kind::CSYNC => Some(62u16),
            Kind::ZONEMD => Some(63u16),
            Kind::SVCB => Some(64u16),
            Kind::HTTPS => Some(65u16),
            Kind::EUI48 => Some(108u16),
            Kind::EUI64 => Some(109u16),
            Kind::TKEY => Some(249u16),
            Kind::TSIG => Some(250u16),
            Kind::URI => Some(256u16),
            Kind::CAA => Some(257u16),
            Kind::TA => Some(32768u16),
            Kind::DLV => Some(32769u16),
            Kind::ANY => None,
        }
    }

    /// The record type that `code` stands for, if any.
    pub open spec fn of_code(code: u16) -> Option<Kind> {
        match code {
            1u16 => Some(Kind::A),
            2u16 => Some(Kind::NS),
            3u16 => Some(Kind::MD),
            4u16 => Some(Kind::MF),
            5u16 => Some(Kind::CNAME),
            6u16 => Some(Kind::SOA),
            7u16 => Some(Kind::MB),
            8u16 => Some(Kind::MG),
            9u16 => Some(Kind::MR),
            10u16 => Some(Kind::NULL),
            11u16 => Some(Kind::WKS),
            12u16 => Some(Kind::PTR),
            13u16 => Some(Kind::HINFO),
            14u16 => Some(Kind::MINFO),
            15u16 => Some(Kind::MX),
            16u16 => Some(Kind::TXT),
            17u16 => Some(Kind::RP),
            18u16 => Some(Kind::AFSDB),
            24u16 => Some(Kind::SIG),
            25u16 => Some(Kind::KEY),
            28u16 => Some(Kind::AAAA),
            29u16 => Some(Kind::LOC),
            33u16 => Some(Kind::SRV),
            35u16 => Some(Kind::NAPTR),
            36u16 => Some(Kind::KX),
            37u16 => Some(Kind::CERT),
            39u16 => Some(Kind::DNAME),
            42u16 => Some(Kind::APL),
            43u16 => Some(Kind::DS),
            44u16 => Some(Kind::SSHFP),
            45u16 => Some(Kind::IPSECKEY),
            46u16 => Some(Kind::RRSIG),
            47u16 => Some(Kind::NSEC),
            48u16 => Some(Kind::DNSKEY),
            49u16 => Some(Kind::DHCID),
            50u16 => Some(Kind::NSEC3),
            51u16 => Some(Kind::NSEC3PARAM),
            52u16 => Some(Kind::TLSA),
            53u16 => Some(Kind::SMIMEA),
            55u16 => Some(Kind::HIP),
            59u16 => Some(Kind::CDS),
            60u16 => Some(Kind::CDNSKEY),
            61u16 => Some(Kind::OPENPGPKEY),
            62u16 => Some(Kind::CSYNC),
            63u16 => Some(Kind::ZONEMD),
            64u16 => Some(Kind::SVCB),
            65u16 => Some(Kind::HTTPS),
            108u16 => Some(Kind::EUI48),
            109u16 => Some(Kind::EUI64),
            249u16 => Some(Kind::TKEY),
            250u16 => Some(Kind::TSIG),
            256u16 => Some(Kind::URI),
            257u16 => Some(Kind::CAA),
            32768u16 => Some(Kind::TA),
            32769u16 => Some(Kind::DLV),
            _ => None,
        }
    }

    /// The code that stands for this record type on the wire; `None` for the
    /// `ANY` filter.
    pub fn code(&self) -> (r: Option<u16>)
        ensures
            r == self.wire_code(),
    {
        match self {
            Kind::A => Some(1),
            Kind::NS => Some(2),
            Kind::MD => Some(3),
            Kind::MF => Some(4),
            Kind::CNAME => Some(5),
            Kind::SOA => Some(6),
            Kind::MB => Some(7),
            Kind::MG => Some(8),
            Kind::MR => Some(9),
            Kind::NULL => Some(10),
            Kind::WKS => Some(11),
            Kind::PTR => Some(12),
            Kind::HINFO => Some(13),
            Kind::MINFO => Some(14),
            Kind::MX => Some(15),
            Kind::TXT => Some(16),
            Kind::RP => Some(17),
            Kind::AFSDB => Some(18),
            Kind::SIG => Some(24),
            Kind::KEY => Some(25),
            Kind::AAAA => Some(28),
            Kind::LOC => Some(29),
            Kind::SRV => Some(33),
            Kind::NAPTR => Some(35),
            Kind::KX => Some(36),
            Kind::CERT => Some(37),
            Kind::DNAME => Some(39),
            Kind::APL => Some(42),
            Kind::DS => Some(43),
            Kind::SSHFP => Some(44),
            Kind::IPSECKEY => Some(45),
            Kind::RRSIG => Some(46),
            Kind::NSEC => Some(47),
            Kind::DNSKEY => Some(48),
            Kind::DHCID => Some(49),
            Kind::NSEC3 => Some(50),
            Kind::NSEC3PARAM => Some(51),
            Kind::TLSA => Some(52),
            Kind::SMIMEA => Some(53),
            Kind::HIP => Some(55),
            Kind::CDS => Some(59),
            Kind::CDNSKEY => Some(60),
            Kind::OPENPGPKEY => Some(61),
            Kind::CSYNC => Some(62),
            Kind::ZONEMD => Some(63),
            Kind::SVCB => Some(64),
            Kind::HTTPS => Some(65),
            Kind::EUI48 => Some(108),
            Kind::EUI64 => Some(109),
            Kind::TKEY => Some(249),
            Kind::TSIG => Some(250),
            Kind::URI => Some(256),
            Kind::CAA => Some(257),
            Kind::TA => Some(32768),
            Kind::DLV => Some(32769),
            Kind::ANY => None,
        }
    }

    /// Whether this type, taken as a filter, lets a record of type `other`
    /// pass: `ANY` lets every record pass, any other type only its own.
    pub open spec fn admits(self, other: Kind) -> bool {
        self == Kind::ANY || self == other
    }

    /// Whether this type, taken as a filter, lets a record of type `other`
    /// pass.
    pub fn accepts(&self, other: Kind) -> (r: bool)
        ensures
            r == self.admits(other),
    {
        *self == Kind::ANY || *self == other
    }

    /// No two record types share a wire code.
    pub proof fn lemma_wire_code_injective(a: Kind, b: Kind)
        requires
            a.wire_code() is Some,
            a.wire_code() == b.wire_code(),
        ensures
            a == b,
    {
    }

    /// A code stands for a record type exactly when it is that type's wire
    /// code; the `ANY` filter is the only type without one.
    pub proof fn lemma_code_round_trip(k: Kind, code: u16)
        ensures
            k.wire_code() == Some(code) <==> Kind::of_code(code) == Some(k),
            k.wire_code() is None <==> k == Kind::ANY,
    {
    }
}

impl TryFrom<u16> for Kind {
    type Error = u16;

    /// The record type that `code` stands for; an unassigned code comes back
    /// as the error.
    fn try_from(code: u16) -> (r: Result<Kind, u16>) {
        match code {
            1 => Ok(Kind::A),
            2 => Ok(Kind::NS),
            3 => Ok(Kind::MD),
            4 => Ok(Kind::MF),
            5 => Ok(Kind::CNAME),
            6 => Ok(Kind::SOA),
            7 => Ok(Kind::MB),
            8 => Ok(Kind::MG),
            9 => Ok(Kind::MR),
            10 => Ok(Kind::NULL),
            11 => Ok(Kind::WKS),
            12 => Ok(Kind::PTR),
            13 => Ok(Kind::HINFO),
            14 => Ok(Kind::MINFO),
            15 => Ok(Kind::MX),
            16 => Ok(Kind::TXT),
            17 => Ok(Kind::RP),
            18 => Ok(Kind::AFSDB),
            24 => Ok(Kind::SIG),
            25 => Ok(Kind::KEY),
            28 => Ok(Kind::AAAA),
            29 => Ok(Kind::LOC),
            33 => Ok(Kind::SRV),
            35 => Ok(Kind::NAPTR),
            36 => Ok(Kind::KX),
            37 => Ok(Kind::CERT),
            39 => Ok(Kind::DNAME),
            42 => Ok(Kind::APL),
            43 => Ok(Kind::DS),
            44 => Ok(Kind::SSHFP),
            45 => Ok(Kind::IPSECKEY),
            46 => Ok(Kind::RRSIG),
            47 => Ok(Kind::NSEC),
            48 => Ok(Kind::DNSKEY),
            49 => Ok(Kind::DHCID),
            50 => Ok(Kind::NSEC3),
            51 => Ok(Kind::NSEC3PARAM),
            52 => Ok(Kind::TLSA),
            53 => Ok(Kind::SMIMEA),
            55 => Ok(Kind::HIP),
            59 => Ok(Kind::CDS),
            60 => Ok(Kind::CDNSKEY),
            61 => Ok(Kind::OPENPGPKEY),
            62 => Ok(Kind::CSYNC),
            63 => Ok(Kind::ZONEMD),
            64 => Ok(Kind::SVCB),
            65 => Ok(Kind::HTTPS),
            108 => Ok(Kind::EUI48),
            109 => Ok(Kind::EUI64),
            249 => Ok(Kind::TKEY),
            250 => Ok(Kind::TSIG),
            256 => Ok(Kind::URI),
            257 => Ok(Kind::CAA),
            32768 => Ok(Kind::TA),
            32769 => Ok(Kind::DLV),
            _ => Err(code),
        }
    }
}

impl TryFromSpecImpl<u16> for Kind {
    open spec fn obeys_try_from_spec() -> bool {
        true
    }

    open spec fn try_from_spec(code: u16) -> Result<Kind, u16> {
        match Kind::of_code(code) {
            Some(k) => Ok(k),
            None => Err(code),
        }
    }
}

impl Default for Kind {
    fn default() -> (r: Kind)
        ensures
            r == Kind::A,
    {
        Kind::A
    }
}

/// The class of a DNS resource record (RFC 1035 section 3.2.4).
#[derive(Copy, Clone, Debug, PartialEq, Eq, Structural)]
pub enum Class {
    /// The Internet.
    IN,
    /// CSNET (obsolete).
    CS,
    /// CHAOS.
    CH,
    /// Hesiod.
    HS,
}

impl Class {
    /// The code that stands for this class on the wire.
    pub open spec fn wire_code(self) -> u16 {
        match self {
            Class::IN => 1u16,
            Class::CS => 2u16,
            Class::CH => 3u16,
            Class::HS => 4u16,
        }
    }

    /// The class that `code` stands for, if any.
    pub open spec fn of_code(code: u16) -> Option<Class> {
        match code {
            1u16 => Some(Class::IN),
            2u16 => Some(Class::CS),
            3u16 => Some(Class::CH),
            4u16 => Some(Class::HS),
            _ => None,
        }
    }

    /// The code that stands for this class on the wire.
    pub fn code(&self) -> (r: u16)
        ensures
            r == self.wire_code(),
    {
        match self {
            Class::IN => 1,
            Class::CS => 2,
            Class::CH => 3,
            Class::HS => 4,
        }
    }

    /// A code stands for a class exactly when it is that class's wire code.
    pub proof fn lemma_code_round_trip(c: Class, code: u16)
        ensures
            c.wire_code() == code <==> Class::of_code(code) == Some(c),
    {
    }
}

impl TryFrom<u16> for Class {
    type Error = u16;

    /// The class that `code` stands for; an unassigned code comes back as the
    /// error.
    fn try_from(code: u16) -> (r: Result<Class, u16>) {
        match code {
            1 => Ok(Class::IN),
            2 => Ok(Class::CS),
            3 => Ok(Class::CH),
            4 => Ok(Class::HS),
            _ => Err(code),
        }
    }
}

impl TryFromSpecImpl<u16> for Class {
    open spec fn obeys_try_from_spec() -> bool {
        true
    }

    open spec fn try_from_spec(code: u16) -> Result<Class, u16> {
        match Class::of_code(code) {
            Some(c) => Ok(c),
            None => Err(code),
        }
    }
}

impl Default for Class {
    fn default() -> (r: Class)
        ensures
            r == Class::IN,
    {
        Class::IN
    }
}

/// One of the single-bit flags of the DNS header.
#[derive(Copy, Clone, Debug, PartialEq, Eq, Structural)]
pub enum Flag {
    /// Authoritative answer: the responding server is an authority for the
    /// name in the question.
    AA,
    /// Truncated: the message was cut to fit the transport.
    TC,
    /// Recursion desired: the client asks the server to resolve recursively.
    RD,
    /// Recursion available: the server supports recursive resolution.
    RA,
    /// Authentic data: the server has authenticated the answer and authority
    /// sections.
    AD,
    /// Checking disabled: the client asks the server not to authenticate.
    CD,
}

impl Flag {
    /// The position of this flag within the sixteen-bit field.
    pub open spec fn position(self) -> nat {
        match self {
            Flag::AA => 5,
            Flag::TC => 6,
            Flag::RD => 7,
            Flag::RA => 8,
            Flag::AD => 10,
            Flag::CD => 11,
        }
    }

    /// The field value in which this flag alone is set.
    pub open spec fn mask(self) -> u16 {
        match self {
            Flag::AA => 0x0020u16,
            Flag::TC => 0x0040u16,
            Flag::RD => 0x0080u16,
            Flag::RA => 0x0100u16,
            Flag::AD => 0x0400u16,
            Flag::CD => 0x0800u16,
        }
    }

    /// The field value in which this flag alone is set.
    pub fn bit(&self) -> (r: u16)
        ensures
            r == self.mask(),
    {
        match self {
            Flag::AA => 0x0020,
            Flag::TC => 0x0040,
            Flag::RD => 0x0080,
            Flag::RA => 0x0100,
            Flag::AD => 0x0400,
            Flag::CD => 0x0800,
        }
    }

    /// The mask of a flag has exactly the bit at the flag's position set.
    pub proof fn lemma_mask_is_one_bit(f: Flag)
        ensures
            f.position() < 16,
            f.mask() == 1u16 << (f.position() as u16),
    {
        assert(0x0020u16 == 1u16 << 5u16 && 0x0040u16 == 1u16 << 6u16 && 0x0080u16 == 1u16 << 7u16
            && 0x0100u16 == 1u16 << 8u16 && 0x0400u16 == 1u16 << 10u16 && 0x0800u16 == 1u16
            << 11u16) by (bit_vector);
    }

    /// No two flags share a bit.
    pub proof fn lemma_masks_disjoint(f: Flag, g: Flag)
        requires
            f != g,
        ensures
            f.position() != g.position(),
            f.mask() & g.mask() == 0,
    {
        let a = f.mask();
        let b = g.mask();
        assert((a == 0x0020u16 || a == 0x0040u16 || a == 0x0080u16 || a == 0x0100u16 || a
            == 0x0400u16 || a == 0x0800u16) && (b == 0x0020u16 || b == 0x0040u16 || b == 0x0080u16
            || b == 0x0100u16 || b == 0x0400u16 || b == 0x0800u16) && a != b ==> a & b == 0)
            by (bit_vector);
    }
}

} // verus!
