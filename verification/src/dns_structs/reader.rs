use vstd::prelude::*;
use vstd::slice::{slice_subrange, slice_to_vec};
use vstd::string::StringExecFns;
use vstd::utf8::{decode_utf8, valid_utf8};

verus! {

/// Why reading from a message failed.
#[derive(Copy, Clone, Debug, PartialEq, Eq, Structural)]
pub enum DecodeError {
    /// Fewer bytes are left than the value needs.
    Io,
    /// A label of a name is not valid UTF-8.
    Utf8,
    /// Compression pointers are chained deeper than [`MAX_POINTER_DEPTH`].
    PointerDepth,
}

/// The byte at `at`, and the offset behind it.
pub open spec fn parse_u8(bytes: Seq<u8>, at: int) -> Result<(u8, int), DecodeError> {
    if 0 <= at && at + 1 <= bytes.len() {
        Ok((bytes[at], at + 1))
    } else {
        Err(DecodeError::Io)
    }
}

/// The two-byte big-endian number at `at`, and the offset behind it.
pub open spec fn parse_u16(bytes: Seq<u8>, at: int) -> Result<(u16, int), DecodeError> {
    if 0 <= at && at + 2 <= bytes.len() {
        Ok(((bytes[at] as int * 0x100 + bytes[at + 1] as int) as u16, at + 2))
    } else {
        Err(DecodeError::Io)
    }
}

/// The four-byte big-endian number at `at`, and the offset behind it.
pub open spec fn parse_u32(bytes: Seq<u8>, at: int) -> Result<(u32, int), DecodeError> {
    if 0 <= at && at + 4 <= bytes.len() {
        Ok(
            (
                (bytes[at] as int * 0x100_0000 + bytes[at + 1] as int * 0x1_0000 + bytes[at
                    + 2] as int * 0x100 + bytes[at + 3] as int) as u32,
                at + 4,
            ),
        )
    } else {
        Err(DecodeError::Io)
    }
}

/// The `n` bytes from `at` on, and the offset behind them.
pub open spec fn parse_bytes(bytes: Seq<u8>, at: int, n: int) -> Result<(Seq<u8>, int), DecodeError> {
    if 0 <= at && 0 <= n && at + n <= bytes.len() {
        Ok((bytes.subrange(at, at + n), at + n))
    } else {
        Err(DecodeError::Io)
    }
}

/// How many compression pointers may be followed, one from inside the name
/// that the one before points to, while a single name is decoded.
pub const MAX_POINTER_DEPTH: u32 = 64;

/// The offset that a compression pointer names: the low six bits of its first
/// byte, then its second byte.
pub open spec fn pointer_target(first: u8, second: u8) -> int {
    (first as int % 0x40) * 0x100 + second as int
}

/// The labels of the name at `at`, and the offset behind the name.
///
/// A zero byte ends the name. A byte of `0xC0` or more starts a compression
/// pointer, which ends the name with the labels of the name it points to. Any
/// other byte is the length of a label that follows it. No more than `depth`
/// pointers are followed.
pub open spec fn parse_labels(bytes: Seq<u8>, at: int, depth: nat) -> Result<
    (Seq<Seq<u8>>, int),
    DecodeError,
>
    decreases depth, bytes.len() - at,
{
    if at < 0 || at >= bytes.len() {
        Err(DecodeError::Io)
    } else if bytes[at] == 0 {
        Ok((Seq::empty(), at + 1))
    } else if bytes[at] >= 0xC0 {
        parse_pointer(bytes, at + 1, bytes[at], depth)
    } else {
        let end = at + 1 + bytes[at] as int;
        if end > bytes.len() {
            Err(DecodeError::Io)
        } else if !valid_utf8(bytes.subrange(at + 1, end)) {
            Err(DecodeError::Utf8)
        } else {
            match parse_labels(bytes, end, depth) {
                Ok((rest, next)) => Ok((seq![bytes.subrange(at + 1, end)] + rest, next)),
                Err(e) => Err(e),
            }
        }
    }
}

/// The labels that a compression pointer stands for, and the offset behind
/// the pointer. `first` is the pointer's first byte; its second byte is at `at`.
pub open spec fn parse_pointer(bytes: Seq<u8>, at: int, first: u8, depth: nat) -> Result<
    (Seq<Seq<u8>>, int),
    DecodeError,
>
    decreases depth, bytes.len() - at,
{
    if at < 0 || at >= bytes.len() {
        Err(DecodeError::Io)
    } else if depth == 0 {
        Err(DecodeError::PointerDepth)
    } else {
        match parse_labels(bytes, pointer_target(first, bytes[at]), (depth - 1) as nat) {
            Ok((labels, _)) => Ok((labels, at + 1)),
            Err(e) => Err(e),
        }
    }
}

/// The outcome `rest` of decoding the end of a name, seen from the start of
/// the name, where the labels `done` stand before it.
pub open spec fn with_prefix(done: Seq<Seq<u8>>, rest: Result<(Seq<Seq<u8>>, int), DecodeError>)
    -> Result<(Seq<Seq<u8>>, int), DecodeError> {
    match rest {
        Ok((labels, next)) => Ok((done + labels, next)),
        Err(e) => Err(e),
    }
}

/// The labels joined by dots.
pub open spec fn dotted(labels: Seq<Seq<char>>) -> Seq<char>
    decreases labels.len(),
{
    if labels.len() == 0 {
        Seq::empty()
    } else if labels.len() == 1 {
        labels[0]
    } else {
        dotted(labels.drop_last()) + seq!['.'] + labels.last()
    }
}

/// The text of a name whose labels are the UTF-8 byte strings `labels`.
pub open spec fn name_text(labels: Seq<Seq<u8>>) -> Seq<char> {
    dotted(labels.map_values(|label: Seq<u8>| decode_utf8(label)))
}

/// The text of the name at `at`, and the offset behind the name.
pub open spec fn parse_name(bytes: Seq<u8>, at: int) -> Result<(Seq<char>, int), DecodeError> {
    match parse_labels(bytes, at, MAX_POINTER_DEPTH as nat) {
        Ok((labels, next)) => Ok((name_text(labels), next)),
        Err(e) => Err(e),
    }
}

/// The text of the name that a compression pointer stands for, and the offset
/// behind the pointer. `first` is the pointer's first byte; its second byte is
/// at `at`.
pub open spec fn parse_compressed_name(bytes: Seq<u8>, at: int, first: u8) -> Result<
    (Seq<char>, int),
    DecodeError,
> {
    match parse_pointer(bytes, at, first, MAX_POINTER_DEPTH as nat) {
        Ok((labels, next)) => Ok((name_text(labels), next)),
        Err(e) => Err(e),
    }
}

/// `String::from_utf8`, with the error dropped: the string that `bytes` spell
/// in UTF-8, or `None` where they are not valid UTF-8.
#[verifier::external_body]
fn string_from_utf8(bytes: Vec<u8>) -> (r: Option<String>)
    ensures
        r is Some <==> valid_utf8(bytes@),
        r matches Some(s) ==> s@ == decode_utf8(bytes@),
{
    String::from_utf8(bytes).ok()
}

/// The text of each string.
pub open spec fn texts(strings: Seq<String>) -> Seq<Seq<char>> {
    strings.map_values(|s: String| s@)
}

/// Joins `parts` with dots.
fn join_dotted(parts: &Vec<String>) -> (r: String)
    ensures
        r@ == dotted(texts(parts@)),
{
    let mut name = String::new();
    let mut i: usize = 0;
    while i < parts.len()
        invariant
            i <= parts.len(),
            name@ == dotted(texts(parts@).take(i as int)),
        decreases parts.len() - i,
    {
        proof {
            reveal_strlit(".");
            let before = texts(parts@).take(i as int);
            let after = texts(parts@).take(i + 1);
            assert(after.drop_last() == before);
        }
        if i > 0 {
            name.append(".");
        }
        name.append(parts[i].as_str());
        i = i + 1;
    }
    assert(texts(parts@).take(parts.len() as int) == texts(parts@));
    name
}

/// A message buffer with a read position.
///
/// The position may stand anywhere, also behind the end of the buffer; a read
/// that asks for more than is left fails and leaves the position alone.
pub struct Reader {
    data: Vec<u8>,
    pos: usize,
}

impl Reader {
    /// The whole buffer, read or not.
    pub closed spec fn bytes(&self) -> Seq<u8> {
        self.data@
    }

    /// The offset of the next byte to read.
    pub closed spec fn offset(&self) -> int {
        self.pos as int
    }

    /// A reader at the start of `inner`.
    pub fn new(inner: Vec<u8>) -> (r: Self)
        ensures
            r.bytes() == inner@,
            r.offset() == 0,
    {
        Reader { data: inner, pos: 0 }
    }

    /// The offset of the next byte to read.
    pub fn position(&self) -> (r: usize)
        ensures
            r == self.offset(),
    {
        self.pos
    }

    /// Moves the read position to the absolute offset `pos`.
    pub fn seek(&mut self, pos: usize)
        ensures
            final(self).bytes() == old(self).bytes(),
            final(self).offset() == pos,
    {
        self.pos = pos;
    }

    /// Reads one byte.
    pub fn next(&mut self) -> (r: Result<u8, DecodeError>)
        ensures
            final(self).bytes() == old(self).bytes(),
            match r {
                Ok(v) => parse_u8(old(self).bytes(), old(self).offset()) == Ok::<_, DecodeError>(
                    (v, final(self).offset()),
                ),
                Err(e) => parse_u8(old(self).bytes(), old(self).offset()) == Err::<(u8, int), _>(e)
                    && final(self).offset() == old(self).offset(),
            },
    {
        if self.pos >= self.data.len() {
            return Err(DecodeError::Io);
        }
        let byte = self.data[self.pos];
        self.pos = self.pos + 1;
        Ok(byte)
    }

    /// Reads a big-endian `u16`.
    pub fn next_u16(&mut self) -> (r: Result<u16, DecodeError>)
        ensures
            final(self).bytes() == old(self).bytes(),
            match r {
                Ok(v) => parse_u16(old(self).bytes(), old(self).offset()) == Ok::<_, DecodeError>(
                    (v, final(self).offset()),
                ),
                Err(e) => parse_u16(old(self).bytes(), old(self).offset()) == Err::<(u16, int), _>(
                    e,
                ) && final(self).offset() == old(self).offset(),
            },
    {
        let len = self.data.len();
        if self.pos > len || len - self.pos < 2 {
            return Err(DecodeError::Io);
        }
        let high: u16 = self.data[self.pos] as u16;
        let low: u16 = self.data[self.pos + 1] as u16;
        self.pos = self.pos + 2;
        Ok(high * 0x100 + low)
    }

    /// Reads a big-endian `u32`.
    pub fn next_u32(&mut self) -> (r: Result<u32, DecodeError>)
        ensures
            final(self).bytes() == old(self).bytes(),
            match r {
                Ok(v) => parse_u32(old(self).bytes(), old(self).offset()) == Ok::<_, DecodeError>(
                    (v, final(self).offset()),
                ),
                Err(e) => parse_u32(old(self).bytes(), old(self).offset()) == Err::<(u32, int), _>(
                    e,
                ) && final(self).offset() == old(self).offset(),
            },
    {
        let len = self.data.len();
        if self.pos > len || len - self.pos < 4 {
            return Err(DecodeError::Io);
        }
        let b0: u32 = self.data[self.pos] as u32;
        let b1: u32 = self.data[self.pos + 1] as u32;
        let b2: u32 = self.data[self.pos + 2] as u32;
        let b3: u32 = self.data[self.pos + 3] as u32;
        self.pos = self.pos + 4;
        Ok(b0 * 0x100_0000 + b1 * 0x1_0000 + b2 * 0x100 + b3)
    }

    /// Reads the next `n` bytes.
    pub fn read(&mut self, n: usize) -> (r: Result<Vec<u8>, DecodeError>)
        ensures
            final(self).bytes() == old(self).bytes(),
            match r {
                Ok(v) => parse_bytes(old(self).bytes(), old(self).offset(), n as int) == Ok::<
                    _,
                    DecodeError,
                >((v@, final(self).offset())),
                Err(e) => parse_bytes(old(self).bytes(), old(self).offset(), n as int) == Err::<
                    (Seq<u8>, int),
                    _,
                >(e) && final(self).offset() == old(self).offset(),
            },
    {
        let len = self.data.len();
        if self.pos > len || len - self.pos < n {
            return Err(DecodeError::Io);
        }
        let part = slice_subrange(self.data.as_slice(), self.pos, self.pos + n);
        let out = slice_to_vec(part);
        self.pos = self.pos + n;
        Ok(out)
    }

    /// Gives up on what was read since `start`: moves back there and fails
    /// with `error`.
    fn give_up<T>(&mut self, start: usize, error: DecodeError) -> (r: Result<T, DecodeError>)
        ensures
            final(self).bytes() == old(self).bytes(),
            final(self).offset() == start,
            r == Err::<T, DecodeError>(error),
    {
        self.pos = start;
        Err(error)
    }

    /// Reads the labels of the name at the read position, following at most
    /// `depth` compression pointers.
    fn decode_labels(&mut self, depth: u32) -> (r: Result<Vec<String>, DecodeError>)
        ensures
            final(self).bytes() == old(self).bytes(),
            match r {
                Ok(v) => parse_labels(old(self).bytes(), old(self).offset(), depth as nat)
                    matches Ok((labels, next)) && next == final(self).offset() && texts(v@)
                    == labels.map_values(|label: Seq<u8>| decode_utf8(label)),
                Err(e) => parse_labels(old(self).bytes(), old(self).offset(), depth as nat) == Err::<
                    (Seq<Seq<u8>>, int),
                    _,
                >(e) && final(self).offset() == old(self).offset(),
            },
        decreases depth, 1nat,
    {
        let start = self.pos;
        let mut parts: Vec<String> = Vec::new();
        let ghost done: Seq<Seq<u8>> = Seq::empty();
        loop
            invariant
                self.bytes() == old(self).bytes(),
                start == old(self).offset(),
                start <= self.offset(),
                parse_labels(self.bytes(), start as int, depth as nat) == with_prefix(
                    done,
                    parse_labels(self.bytes(), self.offset(), depth as nat),
                ),
                texts(parts@) == done.map_values(|label: Seq<u8>| decode_utf8(label)),
            decreases self.bytes().len() - self.offset(),
        {
            let ghost at = self.offset();
            let length = match self.next() {
                Ok(length) => length,
                Err(e) => {
                    return self.give_up(start, e);
                },
            };
            if length == 0 {
                return Ok(parts);
            }
            if length >= 0xC0 {
                match self.decode_pointer(length, depth) {
                    Ok(mut more) => {
                        assert(texts(parts@ + more@) == texts(parts@) + texts(more@));
                        parts.append(&mut more);
                        return Ok(parts);
                    },
                    Err(e) => {
                        return self.give_up(start, e);
                    },
                }
            }
            let raw = match self.read(length as usize) {
                Ok(raw) => raw,
                Err(e) => {
                    return self.give_up(start, e);
                },
            };
            let label = match string_from_utf8(raw) {
                Some(label) => label,
                None => {
                    return self.give_up(start, DecodeError::Utf8);
                },
            };
            proof {
                let piece = self.bytes().subrange(at + 1, at + 1 + length as int);
                assert(texts(parts@.push(label)) == texts(parts@).push(label@));
                match parse_labels(self.bytes(), self.offset(), depth as nat) {
                    Ok((rest, next)) => {
                        assert(done + (seq![piece] + rest) == done.push(piece) + rest);
                    },
                    Err(_) => {},
                }
                done = done.push(piece);
            }
            parts.push(label);
        }
    }

    /// Reads the second byte of a compression pointer whose first byte is
    /// `first`, and the labels of the name that the pointer names, following
    /// at most `depth` pointers, this one included. The read position ends
    /// behind the pointer.
    fn decode_pointer(&mut self, first: u8, depth: u32) -> (r: Result<Vec<String>, DecodeError>)
        ensures
            final(self).bytes() == old(self).bytes(),
            match r {
                Ok(v) => parse_pointer(old(self).bytes(), old(self).offset(), first, depth as nat)
                    matches Ok((labels, next)) && next == final(self).offset() && texts(v@)
                    == labels.map_values(|label: Seq<u8>| decode_utf8(label)),
                Err(e) => parse_pointer(old(self).bytes(), old(self).offset(), first, depth as nat)
                    == Err::<(Seq<Seq<u8>>, int), _>(e) && final(self).offset() == old(
                    self,
                ).offset(),
            },
        decreases depth, 0nat,
    {
        let start = self.pos;
        let second = self.next()?;
        if depth == 0 {
            return self.give_up(start, DecodeError::PointerDepth);
        }
        let behind = self.pos;
        let target: usize = (first % 0x40) as usize * 0x100 + second as usize;
        self.seek(target);
        match self.decode_labels(depth - 1) {
            Ok(labels) => {
                self.seek(behind);
                Ok(labels)
            },
            Err(e) => self.give_up(start, e),
        }
    }
}

/// Reading domain names, compressed or not, from a message.
pub trait NameDecoder {
    /// The message that is read from.
    spec fn message(&self) -> Seq<u8>;

    /// The offset in the message of the next byte to read.
    spec fn at(&self) -> int;

    /// Reads the name at the read position and moves behind it. Where the
    /// name cannot be decoded the read position stays.
    fn decode_name(&mut self) -> (r: Result<String, DecodeError>)
        ensures
            final(self).message() == old(self).message(),
            match r {
                Ok(name) => parse_name(old(self).message(), old(self).at()) == Ok::<
                    _,
                    DecodeError,
                >((name@, final(self).at())),
                Err(e) => parse_name(old(self).message(), old(self).at()) == Err::<
                    (Seq<char>, int),
                    _,
                >(e) && final(self).at() == old(self).at(),
            },
    ;

    /// Reads the second byte of a compression pointer whose first byte is
    /// `length`, decodes the name at the offset that the pointer names, and
    /// moves behind the pointer. Where the name cannot be decoded the read
    /// position stays.
    fn decode_compressed_name(&mut self, length: u8) -> (r: Result<String, DecodeError>)
        ensures
            final(self).message() == old(self).message(),
            match r {
                Ok(name) => parse_compressed_name(old(self).message(), old(self).at(), length)
                    == Ok::<_, DecodeError>((name@, final(self).at())),
                Err(e) => parse_compressed_name(old(self).message(), old(self).at(), length)
                    == Err::<(Seq<char>, int), _>(e) && final(self).at() == old(self).at(),
            },
    ;
}

impl NameDecoder for Reader {
    open spec fn message(&self) -> Seq<u8> {
        self.bytes()
    }

    open spec fn at(&self) -> int {
        self.offset()
    }

    fn decode_name(&mut self) -> (r: Result<String, DecodeError>) {
        match self.decode_labels(MAX_POINTER_DEPTH) {
            Ok(labels) => Ok(join_dotted(&labels)),
            Err(e) => Err(e),
        }
    }

    fn decode_compressed_name(&mut self, length: u8) -> (r: Result<String, DecodeError>) {
        match self.decode_pointer(length, MAX_POINTER_DEPTH) {
            Ok(labels) => Ok(join_dotted(&labels)),
            Err(e) => Err(e),
        }
    }
}

} // verus!
