//! Domain names on the wire.
//!
//! A dotted name is written as its labels, each behind one octet that holds
//! its length, and a zero octet at the end. When a name is read, an octet of
//! 192 or more in the place of a length starts a two-octet compression
//! pointer: the name goes on at the offset that the pointer holds, counted
//! from the start of the message. A name is read as UTF-8, with a dot behind
//! every label.

use crate::dns::buffer::buf_bytes;
use crate::dns::buffer::put_slice;
use crate::dns::buffer::put_u8;
use crate::dns::error::Error;
use bytes::BytesMut;
use vstd::prelude::*;
use vstd::slice::slice_subrange;
use vstd::slice::slice_to_vec;
use vstd::utf8::decode_utf8;
use vstd::utf8::encode_utf8;
use vstd::utf8::valid_utf8;

verus! {

/// The byte that separates the labels of a dotted name.
pub const DOT: u8 = 0x2e;

/// The longest label that can be written, in bytes.
pub const MAX_LABEL: usize = 63;

/// The smallest octet that starts a compression pointer.
pub const POINTER: u8 = 192;

/// The labels of a dotted name: a dot opens a new, empty label, and any
/// other byte extends the last one. A name without a dot is one label.
pub open spec fn labels(name: Seq<u8>) -> Seq<Seq<u8>>
    decreases name.len(),
{
    if name.len() == 0 {
        seq![Seq::<u8>::empty()]
    } else {
        let before = labels(name.drop_last());
        if name.last() == DOT {
            before.push(Seq::<u8>::empty())
        } else {
            before.drop_last().push(before.last().push(name.last()))
        }
    }
}

/// Every label of the name fits behind a length octet: it has at most 63
/// bytes.
pub open spec fn encodable(name: Seq<u8>) -> bool {
    forall|i: int| 0 <= i < labels(name).len() ==> (#[trigger] labels(name)[i]).len() <= MAX_LABEL
}

/// One label on the wire: its length, then its bytes.
pub open spec fn label_wire(label: Seq<u8>) -> Seq<u8> {
    seq![label.len() as u8] + label
}

/// Labels on the wire, one after the other.
pub open spec fn labels_wire(labels: Seq<Seq<u8>>) -> Seq<u8>
    decreases labels.len(),
{
    if labels.len() == 0 {
        Seq::<u8>::empty()
    } else {
        labels_wire(labels.drop_last()) + label_wire(labels.last())
    }
}

/// A dotted name on the wire: its labels, then a zero octet.
pub open spec fn name_wire(name: Seq<u8>) -> Seq<u8> {
    labels_wire(labels(name)) + seq![0u8]
}

/// The offset that a compression pointer holds: the low six bits of its
/// first octet, then its second octet.
pub open spec fn pointer_target(first: u8, second: u8) -> int {
    (first - POINTER) * 256 + second
}

/// The dotted name that starts at `pos`, every label with a dot behind it,
/// read with at most `hops` compression pointers followed. `None` where the
/// name runs past the end of the buffer or needs more pointers than that.
pub open spec fn name_at(buf: Seq<u8>, pos: int, hops: nat) -> Option<Seq<u8>>
    decreases hops, buf.len() - pos,
{
    if pos < 0 || pos >= buf.len() {
        None
    } else if buf[pos] == 0 {
        Some(Seq::<u8>::empty())
    } else if buf[pos] >= POINTER {
        if hops == 0 || pos + 1 >= buf.len() {
            None
        } else {
            name_at(buf, pointer_target(buf[pos], buf[pos + 1]), (hops - 1) as nat)
        }
    } else if pos + 1 + buf[pos] > buf.len() {
        None
    } else {
        match name_at(buf, pos + 1 + buf[pos], hops) {
            Some(rest) => Some(buf.subrange(pos + 1, pos + 1 + buf[pos]) + seq![DOT] + rest),
            None => None,
        }
    }
}

/// The number of bytes that the name at `pos` takes up there: its labels
/// and the zero octet or the pointer that ends them. What a pointer leads
/// to is not counted.
pub open spec fn name_span(buf: Seq<u8>, pos: int) -> int
    decreases buf.len() - pos,
{
    if pos < 0 || pos >= buf.len() {
        0
    } else if buf[pos] == 0 {
        1
    } else if buf[pos] >= POINTER {
        2
    } else if pos + 1 + buf[pos] > buf.len() {
        0
    } else {
        1 + buf[pos] + name_span(buf, pos + 1 + buf[pos])
    }
}

/// What reading a name at `pos` gives: the name as text and the bytes it
/// takes up there, or `MalformedName`. A pointer is followed at most as many
/// times as the buffer has bytes, so a chain of pointers that comes back to
/// where it was is an error.
pub open spec fn decode_name(buf: Seq<u8>, pos: int) -> Result<(Seq<char>, int), Error> {
    match name_at(buf, pos, buf.len()) {
        Some(bytes) => if valid_utf8(bytes) {
            Ok((decode_utf8(bytes), name_span(buf, pos)))
        } else {
            Err(Error::MalformedName)
        },
        None => Err(Error::MalformedName),
    }
}

/// What reading the label at `pos` gives: its bytes and their number, or
/// `MalformedName` where the label runs past the end of the buffer.
pub open spec fn label_at(buf: Seq<u8>, pos: int) -> Result<(Seq<u8>, int), Error> {
    if 0 <= pos < buf.len() && pos + 1 + buf[pos] <= buf.len() {
        Ok((buf.subrange(pos + 1, pos + 1 + buf[pos]), buf[pos] as int))
    } else {
        Err(Error::MalformedName)
    }
}

/// Appending a byte to a name opens a label or extends the last one.
pub proof fn lemma_labels_push(name: Seq<u8>, byte: u8)
    ensures
        labels(name).len() >= 1,
        byte == DOT ==> labels(name.push(byte)) == labels(name).push(Seq::<u8>::empty()),
        byte != DOT ==> labels(name.push(byte)) == labels(name).drop_last().push(
            labels(name).last().push(byte),
        ),
    decreases name.len(),
{
    if name.len() > 0 {
        lemma_labels_push(name.drop_last(), name.last());
    }
    assert(name.push(byte).drop_last() == name);
}

/// A name has one label more than it has dots, and its labels hold all of
/// its other bytes: on the wire they take one byte more than the name.
pub proof fn lemma_labels_wire_len(name: Seq<u8>)
    ensures
        labels(name).len() >= 1,
        labels_wire(labels(name)).len() == name.len() + 1,
        name_wire(name).len() == name.len() + 2,
    decreases name.len(),
{
    if name.len() == 0 {
        let one = seq![Seq::<u8>::empty()];
        assert(one.drop_last() == Seq::<Seq<u8>>::empty());
        assert(labels_wire(one.drop_last()).len() == 0);
    } else {
        let shorter = name.drop_last();
        lemma_labels_wire_len(shorter);
        let before = labels(shorter);
        if name.last() == DOT {
            assert(before.push(Seq::<u8>::empty()).drop_last() == before);
        } else {
            let last = before.last().push(name.last());
            assert(before.drop_last().push(last).drop_last() == before.drop_last());
        }
    }
}

/// The labels of the first `i` bytes of a name are no more and no longer
/// than the labels of the whole name.
pub proof fn lemma_labels_of_prefix(name: Seq<u8>, i: int)
    requires
        0 <= i <= name.len(),
    ensures
        1 <= labels(name.take(i)).len() <= labels(name).len(),
        forall|k: int|
            0 <= k < labels(name.take(i)).len() ==> (#[trigger] labels(name.take(i))[k]).len()
                <= labels(name)[k].len(),
    decreases name.len() - i,
{
    if i == name.len() {
        assert(name.take(i) == name);
        lemma_labels_push(name, DOT);
    } else {
        lemma_labels_of_prefix(name, i + 1);
        assert(name.take(i + 1) == name.take(i).push(name[i]));
        lemma_labels_push(name.take(i), name[i]);
        let shorter = labels(name.take(i));
        let longer = labels(name.take(i + 1));
        assert forall|k: int| 0 <= k < shorter.len() implies (#[trigger] shorter[k]).len()
            <= labels(name)[k].len() by {
            assert(shorter[k].len() <= longer[k].len());
        }
    }
}

/// Labels one after the other, each with a dot behind it.
pub open spec fn dotted(labels: Seq<Seq<u8>>) -> Seq<u8>
    decreases labels.len(),
{
    if labels.len() == 0 {
        Seq::<u8>::empty()
    } else {
        dotted(labels.drop_last()) + labels.last() + seq![DOT]
    }
}

/// Labels that are read back as they were written: none is empty, and none
/// has more than 63 bytes.
pub open spec fn plain(labels: Seq<Seq<u8>>) -> bool {
    forall|i: int| 0 <= i < labels.len() ==> 1 <= (#[trigger] labels[i]).len() <= MAX_LABEL
}

/// The labels of a name, each with a dot behind it, are the name with a dot
/// behind it.
pub proof fn lemma_dotted_labels(name: Seq<u8>)
    ensures
        dotted(labels(name)) == name.push(DOT),
    decreases name.len(),
{
    if name.len() == 0 {
        let one = seq![Seq::<u8>::empty()];
        assert(one.drop_last() == Seq::<Seq<u8>>::empty());
        assert(dotted(one.drop_last()) == Seq::<u8>::empty());
        assert(dotted(one) == Seq::<u8>::empty() + Seq::<u8>::empty() + seq![DOT]);
        assert(dotted(one) == name.push(DOT));
    } else {
        let shorter = name.drop_last();
        let before = labels(shorter);
        lemma_dotted_labels(shorter);
        lemma_labels_push(shorter, name.last());
        assert(shorter.push(name.last()) == name);
        let head = dotted(before.drop_last());
        assert(dotted(before) == head + before.last() + seq![DOT]);
        assert(head + before.last() == shorter) by {
            assert((head + before.last() + seq![DOT]).drop_last() == head + before.last());
            assert(shorter.push(DOT).drop_last() == shorter);
        }
        if name.last() == DOT {
            let all = before.push(Seq::<u8>::empty());
            assert(all.drop_last() == before);
            assert(dotted(all) == dotted(before) + Seq::<u8>::empty() + seq![DOT]);
            assert(dotted(all) == name.push(DOT));
        } else {
            let last = before.last().push(name.last());
            let all = before.drop_last().push(last);
            assert(all.drop_last() == before.drop_last());
            assert(dotted(all) == head + last + seq![DOT]);
            assert(head + last == (head + before.last()).push(name.last()));
            assert(dotted(all) == name.push(DOT));
        }
    }
}

/// Reading labels that were written at `pos` gives them back, each with a
/// dot behind it, and goes on behind them.
pub proof fn lemma_read_labels(buf: Seq<u8>, pos: int, hops: nat, written: Seq<Seq<u8>>)
    requires
        plain(written),
        0 <= pos,
        pos + labels_wire(written).len() <= buf.len(),
        buf.subrange(pos, pos + labels_wire(written).len()) == labels_wire(written),
    ensures
        name_at(buf, pos, hops) == prepend(
            dotted(written),
            name_at(buf, pos + labels_wire(written).len(), hops),
        ),
        name_span(buf, pos) == labels_wire(written).len() + name_span(
            buf,
            pos + labels_wire(written).len(),
        ),
    decreases written.len(),
{
    if written.len() == 0 {
        match name_at(buf, pos, hops) {
            Some(bytes) => {
                assert(Seq::<u8>::empty() + bytes == bytes);
            },
            None => {},
        }
    } else {
        let front = written.drop_last();
        let label = written.last();
        let width = labels_wire(front).len() as int;
        let whole = labels_wire(written);
        let at = pos + width;
        let len = label.len() as int;
        assert(whole == labels_wire(front) + label_wire(label));
        assert(whole.len() == width + 1 + len);
        assert(plain(front)) by {
            assert forall|i: int| 0 <= i < front.len() implies 1 <= (#[trigger] front[i]).len()
                <= MAX_LABEL by {
                assert(front[i] == written[i]);
            }
        }
        assert(1 <= written[written.len() - 1].len() <= MAX_LABEL);
        assert(buf.subrange(pos, pos + width) == labels_wire(front)) by {
            assert(buf.subrange(pos, pos + width) == buf.subrange(pos, pos + whole.len()).subrange(
                0,
                width,
            ));
            assert(whole.subrange(0, width) == labels_wire(front));
        }
        lemma_read_labels(buf, pos, hops, front);
        assert(buf[at] == len as u8) by {
            assert(buf[at] == buf.subrange(pos, pos + whole.len())[width]);
            assert(whole[width] == label_wire(label)[0]);
        }
        assert(buf.subrange(at + 1, at + 1 + len) == label) by {
            assert(buf.subrange(at + 1, at + 1 + len) == buf.subrange(
                pos,
                pos + whole.len(),
            ).subrange(width + 1, width + 1 + len));
            assert(whole.subrange(width + 1, width + 1 + len) == label);
        }
        let rest = name_at(buf, at + 1 + len, hops);
        assert(name_at(buf, at, hops) == prepend(label + seq![DOT], rest));
        assert(dotted(written) == dotted(front) + label + seq![DOT]);
        match rest {
            Some(bytes) => {
                assert(dotted(front) + (label + seq![DOT] + bytes) == dotted(written) + bytes);
            },
            None => {},
        }
    }
}

/// Reading a name that was written at `pos` gives it back with a dot behind
/// it, where no label of the name is empty.
pub proof fn lemma_read_written_name(buf: Seq<u8>, pos: int, hops: nat, name: Seq<u8>)
    requires
        plain(labels(name)),
        0 <= pos,
        pos + name_wire(name).len() <= buf.len(),
        buf.subrange(pos, pos + name_wire(name).len()) == name_wire(name),
    ensures
        name_at(buf, pos, hops) == Some(name.push(DOT)),
        name_span(buf, pos) == name_wire(name).len(),
        name_wire(name).len() == name.len() + 2,
{
    let written = labels(name);
    let width = labels_wire(written).len() as int;
    let whole = name_wire(name);
    lemma_labels_wire_len(name);
    assert(buf.subrange(pos, pos + width) == labels_wire(written)) by {
        assert(buf.subrange(pos, pos + width) == buf.subrange(pos, pos + whole.len()).subrange(
            0,
            width,
        ));
        assert(whole.subrange(0, width) == labels_wire(written));
    }
    lemma_read_labels(buf, pos, hops, written);
    assert(buf[pos + width] == 0) by {
        assert(buf[pos + width] == buf.subrange(pos, pos + whole.len())[width]);
    }
    lemma_dotted_labels(name);
    assert(dotted(written) + Seq::<u8>::empty() == dotted(written));
}

/// A name that ends in a dot is written with two zero octets at its end: one
/// for its last, empty label and one that ends the name. Reading stops at the
/// first, and gives the name as it was, where no other label is empty.
pub proof fn lemma_read_written_rooted_name(buf: Seq<u8>, pos: int, hops: nat, name: Seq<u8>)
    requires
        labels(name).last().len() == 0,
        plain(labels(name).drop_last()),
        0 <= pos,
        pos + name_wire(name).len() <= buf.len(),
        buf.subrange(pos, pos + name_wire(name).len()) == name_wire(name),
    ensures
        name_at(buf, pos, hops) == Some(name),
        name_span(buf, pos) == name_wire(name).len() - 1,
        name_wire(name).len() == name.len() + 2,
        buf[pos + name.len()] == 0,
        buf[pos + name.len() + 1] == 0,
{
    let all = labels(name);
    let written = all.drop_last();
    let width = labels_wire(written).len() as int;
    let whole = name_wire(name);
    lemma_labels_wire_len(name);
    assert(all.last() == Seq::<u8>::empty());
    assert(label_wire(all.last()) == seq![0u8]);
    assert(whole == labels_wire(written) + seq![0u8] + seq![0u8]);
    assert(buf.subrange(pos, pos + width) == labels_wire(written)) by {
        assert(buf.subrange(pos, pos + width) == buf.subrange(pos, pos + whole.len()).subrange(
            0,
            width,
        ));
        assert(whole.subrange(0, width) == labels_wire(written));
    }
    lemma_read_labels(buf, pos, hops, written);
    assert(buf[pos + width] == 0) by {
        assert(buf[pos + width] == buf.subrange(pos, pos + whole.len())[width]);
    }
    assert(buf[pos + width + 1] == 0) by {
        assert(buf[pos + width + 1] == buf.subrange(pos, pos + whole.len())[width + 1]);
    }
    lemma_dotted_labels(name);
    assert(dotted(all) == dotted(written) + Seq::<u8>::empty() + seq![DOT]);
    assert(dotted(written) == name) by {
        assert((dotted(written) + Seq::<u8>::empty() + seq![DOT]).drop_last() == dotted(written));
        assert(name.push(DOT).drop_last() == name);
    }
    assert(dotted(written) + Seq::<u8>::empty() == dotted(written));
}

/// The UTF-8 encoding of two texts, one after the other, is the encoding of
/// the first followed by the encoding of the second.
pub proof fn lemma_encode_concat(first: Seq<char>, second: Seq<char>)
    ensures
        encode_utf8(first + second) == encode_utf8(first) + encode_utf8(second),
    decreases first.len(),
{
    if first.len() == 0 {
        assert(first + second == second);
        assert(encode_utf8(first) + encode_utf8(second) == encode_utf8(second));
    } else {
        lemma_encode_concat(first.drop_first(), second);
        assert((first + second).drop_first() == first.drop_first() + second);
        assert((first + second)[0] == first[0]);
        let head = vstd::utf8::encode_scalar(first[0] as u32);
        assert(head + (encode_utf8(first.drop_first()) + encode_utf8(second)) == head
            + encode_utf8(first.drop_first()) + encode_utf8(second));
    }
}

/// A dot behind a text is the byte of a dot behind its UTF-8 encoding.
pub proof fn lemma_encode_push_dot(text: Seq<char>)
    ensures
        encode_utf8(text.push('.')) == encode_utf8(text).push(DOT),
{
    let dot = seq!['.'];
    assert(vstd::utf8::is_ascii_chars(dot));
    vstd::utf8::is_ascii_chars_encode_utf8(dot);
    assert(dot[0] as u8 == DOT);
    assert(encode_utf8(dot) == seq![DOT]);
    lemma_encode_concat(text, dot);
    assert(text + dot == text.push('.'));
    assert(encode_utf8(text) + seq![DOT] == encode_utf8(text).push(DOT));
}

/// A name that was written is read back as text with a dot behind it, and
/// a pointer to where it was written is read as the same text: two names,
/// the second written as a pointer to the first, are read as the same string.
/// This holds for a name with no empty label and no label of more than 63
/// bytes.
pub proof fn lemma_pointer_reads_written_name(
    buf: Seq<u8>,
    first: int,
    second: int,
    text: Seq<char>,
)
    requires
        plain(labels(encode_utf8(text))),
        0 <= first,
        first + name_wire(encode_utf8(text)).len() <= buf.len(),
        buf.subrange(first, first + name_wire(encode_utf8(text)).len()) == name_wire(
            encode_utf8(text),
        ),
        0 <= second,
        second + 1 < buf.len(),
        buf[second] >= POINTER,
        pointer_target(buf[second], buf[second + 1]) == first,
    ensures
        decode_name(buf, first) == Ok::<(Seq<char>, int), Error>(
            (text.push('.'), encode_utf8(text).len() as int + 2),
        ),
        decode_name(buf, second) == Ok::<(Seq<char>, int), Error>((text.push('.'), 2)),
{
    let name = encode_utf8(text);
    lemma_read_written_name(buf, first, buf.len(), name);
    lemma_read_written_name(buf, first, (buf.len() - 1) as nat, name);
    lemma_encode_push_dot(text);
    vstd::utf8::encode_utf8_valid_utf8(text.push('.'));
    vstd::utf8::encode_utf8_decode_utf8(text.push('.'));
}

/// A name that ends in a pointer to its own start is never read, however
/// many pointers may be followed: behind its labels, if it has any, stands a
/// pointer that holds the offset at which the name starts.
pub proof fn lemma_pointer_to_own_start(
    buf: Seq<u8>,
    start: int,
    written: Seq<Seq<u8>>,
    hops: nat,
)
    requires
        plain(written),
        0 <= start,
        start + labels_wire(written).len() + 2 <= buf.len(),
        buf.subrange(start, start + labels_wire(written).len()) == labels_wire(written),
        buf[start + labels_wire(written).len()] >= POINTER,
        pointer_target(
            buf[start + labels_wire(written).len()],
            buf[start + labels_wire(written).len() + 1],
        ) == start,
    ensures
        name_at(buf, start, hops) is None,
    decreases hops,
{
    lemma_read_labels(buf, start, hops, written);
    if hops > 0 {
        lemma_pointer_to_own_start(buf, start, written, (hops - 1) as nat);
    }
}

/// A pointer that holds the offset at which it stands is read as a
/// malformed name.
pub proof fn lemma_pointer_to_itself(buf: Seq<u8>, pos: int)
    requires
        0 <= pos,
        pos + 1 < buf.len(),
        buf[pos] >= POINTER,
        pointer_target(buf[pos], buf[pos + 1]) == pos,
    ensures
        decode_name(buf, pos) == Err::<(Seq<char>, int), Error>(Error::MalformedName),
{
    let none = Seq::<Seq<u8>>::empty();
    assert(labels_wire(none) == Seq::<u8>::empty());
    assert(buf.subrange(pos, pos) == Seq::<u8>::empty());
    lemma_pointer_to_own_start(buf, pos, none, buf.len());
}

/// Whether every label of `name` has at most 63 bytes, so that the name can
/// be written.
pub fn is_encodable(name: &str) -> (r: bool)
    ensures
        r == encodable(encode_utf8(name@)),
{
    let bytes = name.as_bytes();
    let n = bytes.len();
    let ghost all = bytes@;
    let mut run: usize = 0;
    let mut i: usize = 0;
    assert(all.take(0) == Seq::<u8>::empty());
    while i < n
        invariant
            i <= n,
            n == all.len(),
            bytes@ == all,
            all == encode_utf8(name@),
            run == labels(all.take(i as int)).last().len(),
            labels(all.take(i as int)).len() >= 1,
            forall|k: int|
                0 <= k < labels(all.take(i as int)).len() ==> (#[trigger] labels(
                    all.take(i as int),
                )[k]).len() <= MAX_LABEL,
        decreases n - i,
    {
        proof {
            assert(all.take(i + 1) == all.take(i as int).push(all[i as int]));
            lemma_labels_push(all.take(i as int), all[i as int]);
        }
        if bytes[i] == DOT {
            run = 0;
        } else {
            run = run + 1;
            if run > MAX_LABEL {
                proof {
                    lemma_labels_of_prefix(all, i + 1);
                    let k = labels(all.take(i + 1)).len() - 1;
                    assert(labels(all.take(i + 1))[k].len() <= labels(all)[k].len());
                    assert(labels(all)[k].len() > MAX_LABEL);
                }
                return false;
            }
        }
        i = i + 1;
    }
    assert(all.take(n as int) == all);
    true
}

/// Appends `name` to `buf` as labels: the name is split at its dots, each
/// label is written behind its length, and a zero octet ends the name.
pub fn encode_name(name: &str, buf: &mut BytesMut)
    requires
        encodable(encode_utf8(name@)),
        buf_bytes(*old(buf)).len() + encode_utf8(name@).len() + 2 <= isize::MAX,
    ensures
        buf_bytes(*final(buf)) == buf_bytes(*old(buf)) + name_wire(encode_utf8(name@)),
{
    let bytes = name.as_bytes();
    let n = bytes.len();
    let ghost all = bytes@;
    let ghost before = buf_bytes(*buf);
    let mut start: usize = 0;
    let mut i: usize = 0;
    proof {
        assert(all.take(0) == Seq::<u8>::empty());
        assert(labels(all.take(0)).drop_last() == Seq::<Seq<u8>>::empty());
        assert(all.subrange(0, 0) == Seq::<u8>::empty());
        assert(before + Seq::<u8>::empty() == before);
    }
    while i < n
        invariant
            start <= i <= n,
            n == all.len(),
            bytes@ == all,
            encodable(all),
            before.len() + n + 2 <= isize::MAX,
            labels(all.take(i as int)).len() >= 1,
            labels(all.take(i as int)).last() == all.subrange(start as int, i as int),
            buf_bytes(*buf) == before + labels_wire(labels(all.take(i as int)).drop_last()),
            buf_bytes(*buf).len() == before.len() + start,
        decreases n - i,
    {
        proof {
            assert(all.take(i + 1) == all.take(i as int).push(all[i as int]));
            lemma_labels_push(all.take(i as int), all[i as int]);
        }
        if bytes[i] == DOT {
            let ghost done = labels(all.take(i as int));
            proof {
                lemma_labels_of_prefix(all, i as int);
                let k = done.len() - 1;
                assert(done[k].len() <= labels(all)[k].len());
                assert(labels(all)[k].len() <= MAX_LABEL);
                assert(done.push(Seq::<u8>::empty()).drop_last() == done);
            }
            put_u8(buf, (i - start) as u8);
            put_slice(buf, slice_subrange(bytes, start, i));
            proof {
                let label = all.subrange(start as int, i as int);
                assert(buf_bytes(*buf) == before + labels_wire(done.drop_last()) + seq![
                    label.len() as u8,
                ] + label);
                assert(seq![label.len() as u8] + label == label_wire(label));
                assert(before + labels_wire(done.drop_last()) + seq![label.len() as u8] + label
                    == before + (labels_wire(done.drop_last()) + label_wire(label)));
                assert(all.subrange(i + 1, i + 1) == Seq::<u8>::empty());
            }
            start = i + 1;
        } else {
            proof {
                let done = labels(all.take(i as int));
                let last = done.last().push(all[i as int]);
                assert(done.drop_last().push(last).drop_last() == done.drop_last());
                assert(all.subrange(start as int, i as int).push(all[i as int]) == all.subrange(
                    start as int,
                    i + 1,
                ));
            }
        }
        i = i + 1;
    }
    let ghost done = labels(all);
    proof {
        assert(all.take(n as int) == all);
        let k = done.len() - 1;
        assert(done[k].len() <= MAX_LABEL);
    }
    put_u8(buf, (n - start) as u8);
    put_slice(buf, slice_subrange(bytes, start, n));
    put_u8(buf, 0);
    proof {
        let label = all.subrange(start as int, n as int);
        assert(seq![label.len() as u8] + label == label_wire(label));
        assert(buf_bytes(*buf) == before + labels_wire(done.drop_last()) + seq![label.len() as u8]
            + label + seq![0u8]);
        assert(before + labels_wire(done.drop_last()) + seq![label.len() as u8] + label + seq![
            0u8,
        ] == before + (labels_wire(done.drop_last()) + label_wire(label) + seq![0u8]));
    }
}

/// Reads the label at `offset`: the octet there holds its length, its bytes
/// follow.
pub fn read_name_part(raw: &[u8], offset: usize) -> (r: Result<(Vec<u8>, usize), Error>)
    ensures
        match r {
            Ok((part, len)) => label_at(raw@, offset as int) == Ok::<(Seq<u8>, int), Error>(
                (part@, len as int),
            ),
            Err(e) => label_at(raw@, offset as int) == Err::<(Seq<u8>, int), Error>(e),
        },
{
    if offset >= raw.len() {
        return Err(Error::MalformedName);
    }
    let len = raw[offset] as usize;
    if len > raw.len() - offset - 1 {
        return Err(Error::MalformedName);
    }
    let part = slice_to_vec(slice_subrange(raw, offset + 1, offset + 1 + len));
    Ok((part, len))
}

/// `String::from_utf8`: the bytes become a string exactly where they are
/// UTF-8, and the string then holds those bytes.
#[verifier::external_body]
fn string_from_utf8(bytes: Vec<u8>) -> (r: Option<String>)
    ensures
        r is Some <==> valid_utf8(bytes@),
        r matches Some(text) ==> encode_utf8(text@) == bytes@,
{
    match String::from_utf8(bytes) {
        Ok(text) => Some(text),
        Err(_) => None,
    }
}

/// `name` in front of what is still to be read.
pub open spec fn prepend(name: Seq<u8>, rest: Option<Seq<u8>>) -> Option<Seq<u8>> {
    match rest {
        Some(bytes) => Some(name + bytes),
        None => None,
    }
}

/// Reads the name at `base_offset`, following compression pointers. Gives
/// the name as text, with a dot behind every label, and the number of bytes
/// that the name takes up at `base_offset`.
pub fn read_name(raw: &[u8], base_offset: usize) -> (r: Result<(String, usize), Error>)
    ensures
        match r {
            Ok((name, used)) => decode_name(raw@, base_offset as int) == Ok::<
                (Seq<char>, int),
                Error,
            >((name@, used as int)),
            Err(e) => decode_name(raw@, base_offset as int) == Err::<(Seq<char>, int), Error>(e),
        },
        r matches Ok((_, used)) ==> 1 <= used && base_offset + used <= raw@.len(),
{
    let n = raw.len();
    let mut name: Vec<u8> = Vec::new();
    let mut pos = base_offset;
    let mut hops = n;
    let mut used: usize = 0;
    let mut jumped = false;
    let mut done = false;
    assert(name@ + name_at(raw@, pos as int, hops as nat).unwrap_or(Seq::empty()) == name_at(
        raw@,
        pos as int,
        hops as nat,
    ).unwrap_or(Seq::empty()));
    while !done
        invariant
            n == raw@.len(),
            hops <= n,
            !done ==> name_at(raw@, base_offset as int, n as nat) == prepend(
                name@,
                name_at(raw@, pos as int, hops as nat),
            ),
            !done && !jumped ==> pos == base_offset + used && name_span(raw@, base_offset as int)
                == used + name_span(raw@, pos as int),
            jumped || done ==> name_at(raw@, base_offset as int, n as nat) is Some ==> used
                == name_span(raw@, base_offset as int),
            done ==> name_at(raw@, base_offset as int, n as nat) == Some(name@),
            used <= n,
            used == 0 || base_offset + used <= n,
            jumped || done ==> used >= 1,
        decreases hops, (if done { 0 } else { n - pos + 1 }),
    {
        if pos >= n {
            return Err(Error::MalformedName);
        }
        let len = raw[pos];
        if len == 0 {
            if !jumped {
                used = used + 1;
            }
            assert(name@ + Seq::<u8>::empty() == name@);
            done = true;
        } else if len >= POINTER {
            if hops == 0 || pos + 1 >= n {
                return Err(Error::MalformedName);
            }
            let target = (len - POINTER) as usize * 256 + raw[pos + 1] as usize;
            if !jumped {
                used = used + 2;
                jumped = true;
            }
            pos = target;
            hops = hops - 1;
        } else {
            let ghost before = name@;
            let ghost rest = name_at(raw@, pos + 1 + len, hops as nat);
            match read_name_part(raw, pos) {
                Ok((mut part, _)) => {
                    name.append(&mut part);
                    name.push(DOT);
                    if !jumped {
                        used = used + len as usize + 1;
                    }
                    pos = pos + 1 + len as usize;
                    proof {
                        let label = raw@.subrange(pos - len, pos as int);
                        assert(name@ == before + label + seq![DOT]);
                        if let Some(bytes) = rest {
                            assert(before + (label + seq![DOT] + bytes) == name@ + bytes);
                        }
                    }
                },
                Err(e) => {
                    return Err(e);
                },
            }
        }
    }
    match string_from_utf8(name) {
        Some(text) => {
            proof {
                vstd::utf8::encode_utf8_decode_utf8(text@);
            }
            Ok((text, used))
        },
        None => Err(Error::MalformedName),
    }
}

} // verus!
