use crate::dns_structs::reader::{DecodeError, Reader};
use crate::enums::Flag;
use crate::errors::{Field, PacketError};
use vstd::prelude::*;

verus! {

/// The two bytes of `value`, high byte first.
pub open spec fn u16_bytes(value: u16) -> Seq<u8> {
    seq![(value / 0x100) as u8, (value % 0x100) as u8]
}

/// The number that two bytes spell, high byte first.
pub open spec fn u16_of(high: u8, low: u8) -> u16 {
    (high as int * 0x100 + low as int) as u16
}

/// Appends the two bytes of `value`, high byte first.
pub fn put_u16(out: &mut Vec<u8>, value: u16)
    ensures
        final(out)@ == old(out)@ + u16_bytes(value),
{
    out.push((value / 0x100) as u8);
    out.push((value % 0x100) as u8);
}

/// The sixteen-bit flags field of a header.
#[derive(Copy, Clone, Debug, PartialEq, Eq, Structural)]
pub struct Flags(pub u16);

/// Every flag, by rising bit position.
pub open spec fn all_flags() -> Seq<Flag> {
    seq![Flag::AA, Flag::TC, Flag::RD, Flag::RA, Flag::AD, Flag::CD]
}

/// The bitwise OR of the masks of `flags`.
pub open spec fn union_of(flags: Seq<Flag>) -> u16
    decreases flags.len(),
{
    if flags.len() == 0 {
        0
    } else {
        union_of(flags.drop_last()) | flags.last().mask()
    }
}

impl Flags {
    /// Whether the bit of `flag` is set.
    pub open spec fn has(self, flag: Flag) -> bool {
        self.0 & flag.mask() == flag.mask()
    }

    /// The flags that are set, by rising bit position.
    pub open spec fn members(self) -> Seq<Flag> {
        all_flags().filter(|flag: Flag| self.has(flag))
    }

    /// The field in which exactly the bits of `flags` are set.
    pub fn compose(flags: &[Flag]) -> (r: Self)
        ensures
            r.0 == union_of(flags@),
    {
        let mut value: u16 = 0;
        let mut i: usize = 0;
        while i < flags.len()
            invariant
                i <= flags.len(),
                value == union_of(flags@.take(i as int)),
            decreases flags.len() - i,
        {
            assert(flags@.take(i + 1).drop_last() == flags@.take(i as int));
            value = value | flags[i].bit();
            i = i + 1;
        }
        assert(flags@.take(flags.len() as int) == flags@);
        Flags(value)
    }

    /// Whether the bit of `flag` is set.
    pub fn contains(&self, flag: Flag) -> (r: bool)
        ensures
            r == self.has(flag),
    {
        self.0 & flag.bit() == flag.bit()
    }

    /// The flags that are set, by rising bit position.
    pub fn decompose(&self) -> (r: Vec<Flag>)
        ensures
            r@ == self.members(),
    {
        let all = [Flag::AA, Flag::TC, Flag::RD, Flag::RA, Flag::AD, Flag::CD];
        let mut set: Vec<Flag> = Vec::new();
        let mut i: usize = 0;
        while i < 6
            invariant
                i <= 6,
                all@ == all_flags(),
                set@ == all_flags().take(i as int).filter(|flag: Flag| self.has(flag)),
            decreases 6 - i,
        {
            proof {
                let keep = |flag: Flag| self.has(flag);
                let before = all_flags().take(i as int);
                assert(all_flags().take(i + 1) == before.push(all_flags()[i as int]));
                assert(before.push(all_flags()[i as int]).drop_last() == before);
                reveal_with_fuel(Seq::filter, 2);
            }
            if self.contains(all[i]) {
                set.push(all[i]);
            }
            i = i + 1;
        }
        assert(all_flags().take(6) == all_flags());
        set
    }
}

/// A field composed from a list of flags has the bit of a flag set exactly
/// when the flag is in the list.
pub proof fn lemma_compose_has(flags: Seq<Flag>, flag: Flag)
    ensures
        Flags(union_of(flags)).has(flag) <==> flags.contains(flag),
    decreases flags.len(),
{
    if flags.len() == 0 {
        let mask = flag.mask();
        assert(mask != 0 ==> 0u16 & mask != mask) by (bit_vector);
    } else {
        let rest = flags.drop_last();
        let last = flags.last();
        lemma_compose_has(rest, flag);
        Flag::lemma_mask_is_one_bit(flag);
        Flag::lemma_mask_is_one_bit(last);
        let x = union_of(rest);
        let i = last.position() as u16;
        let j = flag.position() as u16;
        assert(((x | (1u16 << i)) & (1u16 << j) == (1u16 << j)) <==> ((x & (1u16 << j) == (1u16
            << j)) || i == j)) by (bit_vector)
            requires
                i < 16,
                j < 16,
        ;
        assert(flags.contains(flag) <==> rest.contains(flag) || last == flag) by {
            if rest.contains(flag) {
                let k = choose|k: int| 0 <= k < rest.len() && rest[k] == flag;
                assert(flags[k] == flag);
            }
            if last == flag {
                assert(flags[flags.len() - 1] == flag);
            }
            if flags.contains(flag) {
                let k = choose|k: int| 0 <= k < flags.len() && flags[k] == flag;
                if k < flags.len() - 1 {
                    assert(rest[k] == flag);
                }
            }
        }
    }
}

/// A field composed from a list of flags has no bit set that is not the bit
/// of a flag.
pub proof fn lemma_compose_only_flags(flags: Seq<Flag>)
    ensures
        union_of(flags) & 0xF21F == 0,
    decreases flags.len(),
{
    if flags.len() > 0 {
        lemma_compose_only_flags(flags.drop_last());
        let x = union_of(flags.drop_last());
        let m = flags.last().mask();
        assert(x & 0xF21F == 0 && (m == 0x0020u16 || m == 0x0040u16 || m == 0x0080u16 || m
            == 0x0100u16 || m == 0x0400u16 || m == 0x0800u16) ==> (x | m) & 0xF21F == 0)
            by (bit_vector);
    } else {
        assert(0u16 & 0xF21F == 0) by (bit_vector);
    }
}

/// The flags that are set in a field are the flags whose bit is set, each
/// listed once.
pub proof fn lemma_members(field: Flags, flag: Flag)
    ensures
        field.members().contains(flag) <==> field.has(flag),
        field.members().no_duplicates(),
{
    let keep = |f: Flag| field.has(f);
    let all = all_flags();
    if field.has(flag) {
        let k = match flag {
            Flag::AA => 0int,
            Flag::TC => 1,
            Flag::RD => 2,
            Flag::RA => 3,
            Flag::AD => 4,
            Flag::CD => 5,
        };
        all.lemma_filter_contains(keep, k);
    }
    if field.members().contains(flag) {
        let k = choose|k: int| 0 <= k < field.members().len() && field.members()[k] == flag;
        all.lemma_filter_pred(keep, k);
    }
    lemma_filter_keeps_distinct(all, keep);
}

/// Filtering a sequence without duplicates leaves no duplicates.
proof fn lemma_filter_keeps_distinct(s: Seq<Flag>, keep: spec_fn(Flag) -> bool)
    requires
        s.no_duplicates(),
    ensures
        s.filter(keep).no_duplicates(),
    decreases s.len(),
{
    reveal(Seq::filter);
    if s.len() > 0 {
        let rest = s.drop_last();
        lemma_filter_keeps_distinct(rest, keep);
        if keep(s.last()) {
            let kept = rest.filter(keep);
            assert forall|i: int| 0 <= i < kept.len() implies kept[i] != s.last() by {
                assert(kept.contains(kept[i]));
                rest.lemma_filter_contains_rev(keep, kept[i]);
                let k = choose|k: int| 0 <= k < rest.len() && rest[k] == kept[i];
                assert(s[k] == rest[k]);
            }
        }
    }
}

/// Composing a list of flags and taking the field apart again gives the flags
/// of the list, and no others.
pub proof fn lemma_decompose_compose(flags: Seq<Flag>, flag: Flag)
    ensures
        Flags(union_of(flags)).members().contains(flag) <==> flags.contains(flag),
{
    lemma_compose_has(flags, flag);
    lemma_members(Flags(union_of(flags)), flag);
}

impl Default for Flags {
    fn default() -> (r: Flags)
        ensures
            r == Flags(0),
    {
        Flags(0)
    }
}

/// The header of a DNS message.
#[derive(Copy, Clone, Debug, PartialEq, Eq, Structural)]
pub struct DNSHeader {
    /// The tag by which a response is matched to its query.
    pub id: u16,
    /// The flags field.
    pub flags: Flags,
    /// The number of entries in the question section.
    pub num_questions: u16,
    /// The number of records in the answer section.
    pub num_answers: u16,
    /// The number of records in the authority section.
    pub num_authorities: u16,
    /// The number of records in the additional section.
    pub num_additionals: u16,
}

/// The header at `at`, and the offset behind it.
pub open spec fn parse_header(bytes: Seq<u8>, at: int) -> Result<(DNSHeader, int), PacketError> {
    if 0 <= at && at + 12 <= bytes.len() {
        Ok(
            (
                DNSHeader {
                    id: u16_of(bytes[at], bytes[at + 1]),
                    flags: Flags(u16_of(bytes[at + 2], bytes[at + 3])),
                    num_questions: u16_of(bytes[at + 4], bytes[at + 5]),
                    num_answers: u16_of(bytes[at + 6], bytes[at + 7]),
                    num_authorities: u16_of(bytes[at + 8], bytes[at + 9]),
                    num_additionals: u16_of(bytes[at + 10], bytes[at + 11]),
                },
                at + 12,
            ),
        )
    } else {
        Err(PacketError::Read { field: Field::Header, cause: DecodeError::Io })
    }
}

/// The number that two bytes spell, high byte first.
fn join_u16(high: u8, low: u8) -> (r: u16)
    ensures
        r == u16_of(high, low),
{
    high as u16 * 0x100 + low as u16
}

impl DNSHeader {
    /// The twelve bytes of the header on the wire: the id, the flags and the
    /// four counts, each as two bytes, high byte first.
    pub open spec fn wire(self) -> Seq<u8> {
        u16_bytes(self.id) + u16_bytes(self.flags.0) + u16_bytes(self.num_questions) + u16_bytes(
            self.num_answers,
        ) + u16_bytes(self.num_authorities) + u16_bytes(self.num_additionals)
    }

    /// The header as it stands on the wire.
    pub fn to_bytes(&self) -> (r: Vec<u8>)
        ensures
            r@ == self.wire(),
    {
        let mut bytes: Vec<u8> = Vec::new();
        put_u16(&mut bytes, self.id);
        put_u16(&mut bytes, self.flags.0);
        put_u16(&mut bytes, self.num_questions);
        put_u16(&mut bytes, self.num_answers);
        put_u16(&mut bytes, self.num_authorities);
        put_u16(&mut bytes, self.num_additionals);
        bytes
    }

    /// Reads a header and moves behind it. Where fewer than twelve bytes are
    /// left the read position stays.
    pub fn try_from(reader: &mut Reader) -> (r: Result<Self, PacketError>)
        ensures
            final(reader).bytes() == old(reader).bytes(),
            match r {
                Ok(header) => parse_header(old(reader).bytes(), old(reader).offset()) == Ok::<
                    _,
                    PacketError,
                >((header, final(reader).offset())),
                Err(e) => parse_header(old(reader).bytes(), old(reader).offset()) == Err::<
                    (DNSHeader, int),
                    _,
                >(e) && final(reader).offset() == old(reader).offset(),
            },
    {
        let buffer = match reader.read(12) {
            Ok(buffer) => buffer,
            Err(cause) => {
                return Err(PacketError::Read { field: Field::Header, cause });
            },
        };
        Ok(
            DNSHeader {
                id: join_u16(buffer[0], buffer[1]),
                flags: Flags(join_u16(buffer[2], buffer[3])),
                num_questions: join_u16(buffer[4], buffer[5]),
                num_answers: join_u16(buffer[6], buffer[7]),
                num_authorities: join_u16(buffer[8], buffer[9]),
                num_additionals: join_u16(buffer[10], buffer[11]),
            },
        )
    }
}

/// Two bytes, high byte first, spell the number they were made from.
pub proof fn lemma_u16_round_trip(value: u16)
    ensures
        u16_bytes(value).len() == 2,
        u16_of(u16_bytes(value)[0], u16_bytes(value)[1]) == value,
{
}

/// A header that is written to the wire takes twelve bytes, and reading those
/// bytes, whatever stands before and behind them, gives the header back.
pub proof fn lemma_header_round_trip(header: DNSHeader, before: Seq<u8>, behind: Seq<u8>)
    ensures
        header.wire().len() == 12,
        parse_header(before + header.wire() + behind, before.len() as int) == Ok::<
            _,
            PacketError,
        >((header, before.len() as int + 12)),
{
    lemma_u16_round_trip(header.id);
    lemma_u16_round_trip(header.flags.0);
    lemma_u16_round_trip(header.num_questions);
    lemma_u16_round_trip(header.num_answers);
    lemma_u16_round_trip(header.num_authorities);
    lemma_u16_round_trip(header.num_additionals);
    let wire = header.wire();
    let all = before + wire + behind;
    let at = before.len() as int;
    assert forall|i: int| 0 <= i < 12 implies all[at + i] == #[trigger] wire[i] by {}
}

impl Default for DNSHeader {
    fn default() -> (r: DNSHeader)
        ensures
            r == (DNSHeader {
                id: 0,
                flags: Flags(0),
                num_questions: 0,
                num_answers: 0,
                num_authorities: 0,
                num_additionals: 0,
            }),
    {
        DNSHeader {
            id: 0,
            flags: Flags(0),
            num_questions: 0,
            num_answers: 0,
            num_authorities: 0,
            num_additionals: 0,
        }
    }
}

} // verus!
