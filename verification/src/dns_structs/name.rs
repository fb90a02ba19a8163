use crate::dns_structs::reader::{
    dotted, parse_labels, parse_name, DecodeError, MAX_POINTER_DEPTH,
};
use vstd::prelude::*;
use vstd::utf8::{
    char_is_scalar, decode_utf8, encode_scalar, encode_utf8, encode_utf8_decode_utf8,
    encode_utf8_valid_utf8, valid_utf8,
};

verus! {

/// The byte that separates the labels of a name in text.
pub const DOT: u8 = 0x2E;

/// The pieces of `text` between the occurrences of `mark`. There is always at
/// least one piece, and a piece may be empty.
pub open spec fn split<T>(text: Seq<T>, mark: T) -> Seq<Seq<T>>
    decreases text.len(),
{
    if text.len() == 0 {
        seq![Seq::empty()]
    } else {
        let before = split(text.drop_last(), mark);
        if text.last() == mark {
            before.push(Seq::empty())
        } else {
            before.drop_last().push(before.last().push(text.last()))
        }
    }
}

/// The pieces of `text` between its dots.
pub open spec fn split_dots(text: Seq<u8>) -> Seq<Seq<u8>> {
    split(text, DOT)
}

/// A label on the wire: one byte that holds its length, cut to eight bits,
/// then its bytes.
pub open spec fn label_wire(label: Seq<u8>) -> Seq<u8> {
    seq![(label.len() % 0x100) as u8] + label
}

/// The labels on the wire, one after the other.
pub open spec fn labels_wire(labels: Seq<Seq<u8>>) -> Seq<u8>
    decreases labels.len(),
{
    if labels.len() == 0 {
        Seq::empty()
    } else {
        labels_wire(labels.drop_last()) + label_wire(labels.last())
    }
}

/// The name whose text is `text`, on the wire: the pieces between its dots
/// as labels, then a zero byte.
pub open spec fn name_wire(text: Seq<u8>) -> Seq<u8> {
    labels_wire(split_dots(text)) + seq![0u8]
}

/// Whether a name of these labels decodes as it was encoded: each label
/// holds at least one byte, and fewer than the `0xC0` from which on a length
/// byte is read as a compression pointer.
pub open spec fn plain_labels(labels: Seq<Seq<u8>>) -> bool {
    forall|i: int| 0 <= i < labels.len() ==> 0 < (#[trigger] labels[i]).len() < 0xC0
}

/// Text always splits into at least one piece.
pub proof fn lemma_split_nonempty<T>(text: Seq<T>, mark: T)
    ensures
        split(text, mark).len() > 0,
    decreases text.len(),
{
    if text.len() > 0 {
        lemma_split_nonempty(text.drop_last(), mark);
    }
}

/// Text that is put behind other text, and holds no mark, prolongs the last
/// piece.
pub proof fn lemma_split_append_plain<T>(text: Seq<T>, tail: Seq<T>, mark: T)
    requires
        !tail.contains(mark),
    ensures
        split(text + tail, mark) == split(text, mark).drop_last().push(
            split(text, mark).last() + tail,
        ),
    decreases tail.len(),
{
    lemma_split_nonempty(text, mark);
    let pieces = split(text, mark);
    if tail.len() > 0 {
        let shorter = tail.drop_last();
        assert forall|x: T| shorter.contains(x) implies tail.contains(x) by {
            let i = choose|i: int| 0 <= i < shorter.len() && shorter[i] == x;
            assert(tail[i] == x);
        }
        lemma_split_append_plain(text, shorter, mark);
        assert((text + tail).drop_last() == text + shorter);
        assert((pieces.last() + shorter).push(tail.last()) == pieces.last() + tail);
    }
}

/// Joining the pieces of a text with dots gives the text back.
pub proof fn lemma_dotted_split(text: Seq<char>)
    ensures
        dotted(split(text, '.')) == text,
    decreases text.len(),
{
    if text.len() > 0 {
        let init = text.drop_last();
        let pieces = split(init, '.');
        lemma_dotted_split(init);
        lemma_split_nonempty(init, '.');
        if text.last() == '.' {
            let grown = pieces.push(Seq::<char>::empty());
            assert(grown.drop_last() == pieces);
        } else {
            let longer = pieces.last().push(text.last());
            let grown = pieces.drop_last().push(longer);
            assert(grown.drop_last() == pieces.drop_last());
            if pieces.len() > 1 {
                assert(dotted(pieces.drop_last()) + seq!['.'] + longer == (dotted(
                    pieces.drop_last(),
                ) + seq!['.'] + pieces.last()).push(text.last()));
            }
        }
    }
}

/// The UTF-8 encoding of two texts, one behind the other, is the encoding of
/// the first, then that of the second.
pub proof fn lemma_encode_concat(a: Seq<char>, b: Seq<char>)
    ensures
        encode_utf8(a + b) == encode_utf8(a) + encode_utf8(b),
    decreases a.len(),
{
    if a.len() > 0 {
        lemma_encode_concat(a.drop_first(), b);
        assert((a + b).drop_first() == a.drop_first() + b);
    }
}

/// The UTF-8 encoding of a dot is the one byte [`DOT`], and the encoding of
/// any other character holds no such byte.
pub proof fn lemma_encode_dot(c: char)
    ensures
        c == '.' ==> encode_scalar(c as u32) == seq![DOT],
        c != '.' ==> !encode_scalar(c as u32).contains(DOT),
        encode_utf8(seq![c]) == encode_scalar(c as u32),
{
    let s = c as u32;
    char_is_scalar(c);
    assert(s <= 0x7F ==> (s & 0x7F) as u8 == s) by (bit_vector);
    assert((0xC0u8 | ((s >> 6) & 0x1F) as u8) >= 0x80 && (0xE0u8 | ((s >> 12) & 0x0F) as u8) >= 0x80
        && (0xF0u8 | ((s >> 18) & 0x7) as u8) >= 0x80 && (0x80u8 | (s & 0x3F) as u8) >= 0x80 && (
    0x80u8 | ((s >> 6) & 0x3F) as u8) >= 0x80 && (0x80u8 | ((s >> 12) & 0x3F) as u8) >= 0x80)
        by (bit_vector);
    let bytes = encode_scalar(s);
    if c != '.' {
        assert forall|i: int| 0 <= i < bytes.len() implies bytes[i] != DOT by {}
    }
    assert(seq![c].drop_first() == Seq::<char>::empty());
    assert(encode_utf8(seq![c]) == encode_scalar(s) + encode_utf8(Seq::<char>::empty()));
}

/// Splitting the UTF-8 encoding of a text at its dots gives the encodings of
/// the pieces of the text.
pub proof fn lemma_split_encoded(text: Seq<char>)
    ensures
        split_dots(encode_utf8(text)) == split(text, '.').map_values(
            |piece: Seq<char>| encode_utf8(piece),
        ),
    decreases text.len(),
{
    if text.len() > 0 {
        let init = text.drop_last();
        let last = text.last();
        let pieces = split(init, '.');
        lemma_split_encoded(init);
        lemma_split_nonempty(init, '.');
        lemma_encode_dot(last);
        lemma_encode_concat(init, seq![last]);
        assert(init + seq![last] == text);
        if last == '.' {
            assert(encode_utf8(text).drop_last() == encode_utf8(init));
        } else {
            lemma_split_append_plain(encode_utf8(init), encode_scalar(last as u32), DOT);
            lemma_encode_concat(pieces.last(), seq![last]);
            assert(pieces.last() + seq![last] == pieces.last().push(last));
        }
    }
}

/// The labels of a list that begins with `first` stand on the wire as
/// `first`, then the others.
pub proof fn lemma_labels_wire_first(first: Seq<u8>, others: Seq<Seq<u8>>)
    ensures
        labels_wire(seq![first] + others) == label_wire(first) + labels_wire(others),
    decreases others.len(),
{
    let all = seq![first] + others;
    if others.len() == 0 {
        assert(labels_wire(all.drop_last()) == Seq::<u8>::empty());
    } else {
        lemma_labels_wire_first(first, others.drop_last());
        assert(all.drop_last() == seq![first] + others.drop_last());
    }
}

/// Labels that were put on the wire, each of them valid UTF-8 and of a
/// length that is no pointer mark, are read back as they were, whatever
/// stands before and behind them, without a pointer being followed.
pub proof fn lemma_labels_round_trip(
    labels: Seq<Seq<u8>>,
    before: Seq<u8>,
    behind: Seq<u8>,
    depth: nat,
)
    requires
        plain_labels(labels),
        forall|i: int| 0 <= i < labels.len() ==> valid_utf8(#[trigger] labels[i]),
    ensures
        parse_labels(
            before + (labels_wire(labels) + seq![0u8]) + behind,
            before.len() as int,
            depth,
        ) == Ok::<_, DecodeError>((labels, (before.len() + labels_wire(labels).len() + 1) as int)),
    decreases labels.len(),
{
    let wire = labels_wire(labels) + seq![0u8];
    let all = before + wire + behind;
    let at = before.len() as int;
    if labels.len() == 0 {
        assert(labels == Seq::<Seq<u8>>::empty());
    } else {
        let first = labels[0];
        let others = labels.drop_first();
        assert(seq![first] + others == labels);
        lemma_labels_wire_first(first, others);
        assert forall|i: int| 0 <= i < others.len() implies 0 < (#[trigger] others[i]).len() < 0xC0
            && valid_utf8(others[i]) by {
            assert(others[i] == labels[i + 1]);
        }
        let head = label_wire(first);
        assert(all == (before + head) + (labels_wire(others) + seq![0u8]) + behind);
        lemma_labels_round_trip(others, before + head, behind, depth);
        let end = at + 1 + first.len();
        assert(all.subrange(at + 1, end) == first);
    }
}

/// Whether a name of this text decodes as it was encoded: each piece between
/// its dots takes at least one byte in UTF-8, and fewer than `0xC0`.
pub open spec fn plain_name(text: Seq<char>) -> bool {
    plain_labels(split_dots(encode_utf8(text)))
}

/// A name that was put on the wire is read back as it was, whatever stands
/// before and behind it, if each of its labels holds at least one byte and
/// fewer than `0xC0`.
pub proof fn lemma_name_round_trip(text: Seq<char>, before: Seq<u8>, behind: Seq<u8>)
    requires
        plain_name(text),
    ensures
        parse_name(before + name_wire(encode_utf8(text)) + behind, before.len() as int) == Ok::<
            _,
            DecodeError,
        >((text, (before.len() + name_wire(encode_utf8(text)).len()) as int)),
{
    let pieces = split(text, '.');
    let labels = split_dots(encode_utf8(text));
    let decode = |label: Seq<u8>| decode_utf8(label);
    lemma_split_encoded(text);
    assert forall|i: int| 0 <= i < labels.len() implies valid_utf8(#[trigger] labels[i]) by {
        encode_utf8_valid_utf8(pieces[i]);
    }
    lemma_labels_round_trip(labels, before, behind, MAX_POINTER_DEPTH as nat);
    assert(labels.map_values(decode) == pieces) by {
        assert forall|i: int| 0 <= i < labels.len() implies labels.map_values(decode)[i]
            == pieces[i] by {
            encode_utf8_decode_utf8(pieces[i]);
        }
    }
    lemma_dotted_split(text);
}

} // verus!
