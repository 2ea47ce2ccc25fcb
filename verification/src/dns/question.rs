//! The question section of a DNS message.
//!
//! A question is a name, a question type and a question class. On the wire
//! the name comes first, as labels, then the type and the class, two bytes
//! each, most significant byte first. The decoy form, written to confuse a
//! forger on the path, holds in place of the name a compression pointer to
//! offset 18 of the message: the place of the name of the first question
//! that follows a header and one decoy.

use crate::binary::merged;
use crate::binary::u8_merge;
use crate::dns::buffer::be16;
use crate::dns::buffer::buf_bytes;
use crate::dns::buffer::put_u16;
use crate::dns::buffer::put_u8;
use crate::dns::buffer::with_capacity;
use crate::dns::class::Class;
use crate::dns::class::QClass;
use crate::dns::error::Error;
use crate::dns::name::decode_name;
use crate::dns::name::encodable;
use crate::dns::name::encode_name;
use crate::dns::name::labels;
use crate::dns::name::lemma_encode_push_dot;
use crate::dns::name::lemma_labels_wire_len;
use crate::dns::name::lemma_read_written_name;
use crate::dns::name::lemma_read_written_rooted_name;
use crate::dns::name::name_wire;
use crate::dns::name::plain;
use crate::dns::name::read_name;
use crate::dns::types::QType;
use bytes::BytesMut;
use vstd::prelude::*;
use vstd::utf8::encode_utf8;

verus! {

/// The first octet of the pointer that a decoy question holds.
pub const DECOY_POINTER_HIGH: u8 = 0xc0;

/// The second octet of the pointer that a decoy question holds: offset 18.
pub const DECOY_POINTER_LOW: u8 = 0x12;

/// One entry of the question section.
#[derive(Debug, PartialEq, Eq)]
pub struct Question {
    /// The name asked for, in dotted form.
    pub q_name: String,
    /// The type of record asked for.
    pub q_type: QType,
    /// The class asked for.
    pub q_class: QClass,
}

/// What a question holds.
pub struct QuestionView {
    pub name: Seq<char>,
    pub q_type: QType,
    pub q_class: QClass,
}

impl View for Question {
    type V = QuestionView;

    open spec fn view(&self) -> QuestionView {
        QuestionView { name: self.q_name@, q_type: self.q_type, q_class: self.q_class }
    }
}

impl QuestionView {
    /// The name as bytes: its UTF-8 encoding.
    pub open spec fn name_bytes(self) -> Seq<u8> {
        encode_utf8(self.name)
    }

    /// Every label of the name has at most 63 bytes, so that the question
    /// can be written.
    pub open spec fn encodable(self) -> bool {
        encodable(self.name_bytes())
    }

    /// The type and the class are the ones that their codes stand for.
    pub open spec fn wf(self) -> bool {
        self.q_type.wf() && self.q_class.wf()
    }

    /// The question on the wire: name, type, class.
    pub open spec fn wire(self) -> Seq<u8> {
        name_wire(self.name_bytes()) + be16(self.q_type.spec_value()) + be16(
            self.q_class.spec_value(),
        )
    }

    /// The decoy form of the question on the wire: a pointer to offset 18,
    /// type, class.
    pub open spec fn decoy_wire(self) -> Seq<u8> {
        seq![DECOY_POINTER_HIGH, DECOY_POINTER_LOW] + be16(self.q_type.spec_value()) + be16(
            self.q_class.spec_value(),
        )
    }
}

/// What reading a question at `pos` gives: the question and the bytes it
/// takes up, `MalformedName` where its name cannot be read, or `Length`
/// where the buffer ends before the type and the class do.
pub open spec fn question_at(buf: Seq<u8>, pos: int) -> Result<(QuestionView, int), Error> {
    match decode_name(buf, pos) {
        Err(e) => Err(e),
        Ok((name, used)) => {
            let at = pos + used;
            if at + 4 > buf.len() {
                Err(Error::Length)
            } else {
                Ok(
                    (
                        QuestionView {
                            name,
                            q_type: QType::of_code(merged(buf[at], buf[at + 1])),
                            q_class: QClass::of_code(merged(buf[at + 2], buf[at + 3])),
                        },
                        used + 4,
                    ),
                )
            }
        },
    }
}

/// A question that is written and read again has the type and the class that
/// it had, and the name that it had with a dot behind it; every byte that was
/// written is read. This holds wherever the question stands in a buffer, for
/// a question whose type and class are the ones that their codes stand for
/// and whose name has no empty label and no label of more than 63 bytes.
pub proof fn lemma_question_round_trip(question: QuestionView, before: Seq<u8>, after: Seq<u8>)
    requires
        question.wf(),
        plain(labels(question.name_bytes())),
    ensures
        question_at(before + question.wire() + after, before.len() as int) == Ok::<
            (QuestionView, int),
            Error,
        >(
            (
                QuestionView {
                    name: question.name.push('.'),
                    q_type: question.q_type,
                    q_class: question.q_class,
                },
                question.wire().len() as int,
            ),
        ),
{
    let name = question.name_bytes();
    let buf = before + question.wire() + after;
    let pos = before.len() as int;
    let written = name_wire(name);
    lemma_labels_wire_len(name);
    assert(buf.subrange(pos, pos + written.len()) == written);
    lemma_read_written_name(buf, pos, buf.len(), name);
    lemma_encode_push_dot(question.name);
    vstd::utf8::encode_utf8_valid_utf8(question.name.push('.'));
    vstd::utf8::encode_utf8_decode_utf8(question.name.push('.'));
    lemma_fields_read_back(question, before, after, written.len() as int);
}

/// A question whose name ends in a dot is written with a zero octet for the
/// empty label behind that dot, before the zero octet that ends the name.
/// Reading stops at the first of the two, so the type and the class are read
/// one byte early. Such a question is read again as it was written exactly
/// where the codes of its type and of its class are both zero, and its name,
/// but for the empty label at its end, has no empty label and no label of
/// more than 63 bytes; the last byte that was written is then not read.
pub proof fn lemma_question_round_trip_exact(question: QuestionView, after: Seq<u8>)
    requires
        question.wf(),
        labels(question.name_bytes()).last().len() == 0,
        plain(labels(question.name_bytes()).drop_last()),
        question.q_type.spec_value() == 0,
        question.q_class.spec_value() == 0,
    ensures
        question_at(question.wire() + after, 0) == Ok::<(QuestionView, int), Error>(
            (question, question.wire().len() - 1),
        ),
{
    let name = question.name_bytes();
    let buf = question.wire() + after;
    let written = name_wire(name);
    lemma_labels_wire_len(name);
    assert(buf.subrange(0, written.len() as int) == written);
    lemma_read_written_rooted_name(buf, 0, buf.len(), name);
    vstd::utf8::encode_utf8_valid_utf8(question.name);
    vstd::utf8::encode_utf8_decode_utf8(question.name);
    let at = name.len() as int + 1;
    assert(buf[at] == 0);
    assert(buf[at + 1] == be16(question.q_type.spec_value())[0]);
    assert(buf[at + 2] == be16(question.q_type.spec_value())[1]);
    assert(buf[at + 3] == be16(question.q_class.spec_value())[0]);
    QType::lemma_type_round_trip(question.q_type);
    QClass::lemma_class_round_trip(question.q_class);
}

/// A decoy that is written behind the twelve bytes of a header, in front of
/// the question that it was made from, is read as that question is: the
/// pointer that it holds leads to offset 18, where the name of the question
/// stands. This holds for a question whose type and class are the ones that
/// their codes stand for and whose name has no empty label and no label of
/// more than 63 bytes.
pub proof fn lemma_decoy_round_trip(head: Seq<u8>, question: QuestionView, after: Seq<u8>)
    requires
        head.len() == 12,
        question.wf(),
        plain(labels(question.name_bytes())),
    ensures
        question_at(head + question.decoy_wire() + question.wire() + after, 12) == Ok::<
            (QuestionView, int),
            Error,
        >(
            (
                QuestionView {
                    name: question.name.push('.'),
                    q_type: question.q_type,
                    q_class: question.q_class,
                },
                6,
            ),
        ),
{
    let decoy = question.decoy_wire();
    let name = question.name_bytes();
    let written = name_wire(name);
    let buf = head + decoy + question.wire() + after;
    lemma_labels_wire_len(name);
    assert(buf[12] == decoy[0] && buf[13] == decoy[1]);
    assert(buf[14] == decoy[2] && buf[15] == decoy[3]);
    assert(buf[16] == decoy[4] && buf[17] == decoy[5]);
    assert(crate::dns::name::pointer_target(buf[12], buf[13]) == 18);
    assert(buf.subrange(18, 18 + written.len() as int) == written);
    lemma_read_written_name(buf, 18, (buf.len() - 1) as nat, name);
    lemma_encode_push_dot(question.name);
    vstd::utf8::encode_utf8_valid_utf8(question.name.push('.'));
    vstd::utf8::encode_utf8_decode_utf8(question.name.push('.'));
    assert(decoy[2] == be16(question.q_type.spec_value())[0]);
    assert(decoy[3] == be16(question.q_type.spec_value())[1]);
    assert(decoy[4] == be16(question.q_class.spec_value())[0]);
    assert(decoy[5] == be16(question.q_class.spec_value())[1]);
    QType::lemma_type_round_trip(question.q_type);
    QClass::lemma_class_round_trip(question.q_class);
}

/// The type and the class of a question are read back from behind its name.
proof fn lemma_fields_read_back(
    question: QuestionView,
    before: Seq<u8>,
    after: Seq<u8>,
    name_len: int,
)
    requires
        question.wf(),
        name_len == name_wire(question.name_bytes()).len(),
    ensures
        ({
            let buf = before + question.wire() + after;
            let at = before.len() + name_len;
            &&& at + 4 <= buf.len()
            &&& question.wire().len() == name_len + 4
            &&& QType::of_code(merged(buf[at], buf[at + 1])) == question.q_type
            &&& QClass::of_code(merged(buf[at + 2], buf[at + 3])) == question.q_class
        }),
{
    let buf = before + question.wire() + after;
    let at = before.len() + name_len;
    let type_code = question.q_type.spec_value();
    let class_code = question.q_class.spec_value();
    assert(buf[at] == be16(type_code)[0]);
    assert(buf[at + 1] == be16(type_code)[1]);
    assert(buf[at + 2] == be16(class_code)[0]);
    assert(buf[at + 3] == be16(class_code)[1]);
    QType::lemma_type_round_trip(question.q_type);
    QClass::lemma_class_round_trip(question.q_class);
}

impl Question {
    /// A question for `host` of the given type, in the Internet class.
    pub fn new(host: &str, q_type: QType) -> (question: Question)
        ensures
            question@ == (QuestionView {
                name: host@,
                q_type,
                q_class: QClass::Class(Class::IN),
            }),
    {
        Question { q_name: host.to_owned(), q_type, q_class: QClass::Class(Class::IN) }
    }

    /// Writes this question to a new buffer.
    pub fn to_raw(&self) -> (buf: BytesMut)
        requires
            self@.encodable(),
            self@.wire().len() <= isize::MAX,
        ensures
            buf_bytes(buf) == self@.wire(),
    {
        let mut buf = with_capacity(12);
        self.append_to(&mut buf);
        assert(Seq::<u8>::empty() + self@.wire() == self@.wire());
        buf
    }

    /// Appends this question to `m`.
    pub fn append_to<'a>(&self, m: &'a mut BytesMut) -> (buf: &'a mut BytesMut)
        requires
            self@.encodable(),
            buf_bytes(*old(m)).len() + self@.wire().len() <= isize::MAX,
        ensures
            buf_bytes(*buf) == buf_bytes(*old(m)) + self@.wire(),
            *final(m) == *final(buf),
    {
        let ghost before = buf_bytes(*m);
        proof {
            lemma_labels_wire_len(self@.name_bytes());
        }
        encode_name(self.q_name.as_str(), m);
        put_u16(m, self.q_type.value());
        put_u16(m, self.q_class.value());
        assert(buf_bytes(*m) == before + self@.wire());
        m
    }

    /// Appends the decoy form of this question to `m`.
    pub fn append_gfw<'a>(&self, m: &'a mut BytesMut) -> (buf: &'a mut BytesMut)
        requires
            buf_bytes(*old(m)).len() + 6 <= isize::MAX,
        ensures
            buf_bytes(*buf) == buf_bytes(*old(m)) + self@.decoy_wire(),
            *final(m) == *final(buf),
    {
        let ghost before = buf_bytes(*m);
        put_u8(m, DECOY_POINTER_HIGH);
        put_u8(m, DECOY_POINTER_LOW);
        put_u16(m, self.q_type.value());
        put_u16(m, self.q_class.value());
        assert(buf_bytes(*m) == before + self@.decoy_wire());
        m
    }

    /// Reads the question at `base_offset`. Gives the question and the
    /// number of bytes that it takes up there.
    pub fn parse(raw: &[u8], base_offset: usize) -> (r: Result<(Question, usize), Error>)
        ensures
            match r {
                Ok((question, used)) => question_at(raw@, base_offset as int) == Ok::<
                    (QuestionView, int),
                    Error,
                >((question@, used as int)),
                Err(e) => question_at(raw@, base_offset as int) == Err::<
                    (QuestionView, int),
                    Error,
                >(e),
            },
            r matches Ok((_, used)) ==> 5 <= used && base_offset + used <= raw@.len(),
    {
        let n = raw.len();
        match read_name(raw, base_offset) {
            Err(e) => Err(e),
            Ok((name, size)) => {
                let offset = base_offset + size;
                if n - offset < 4 {
                    return Err(Error::Length);
                }
                let q_type = QType::from(u8_merge(raw[offset], raw[offset + 1]));
                let q_class = QClass::from(u8_merge(raw[offset + 2], raw[offset + 3]));
                Ok((Question { q_name: name, q_type, q_class }, size + 4))
            },
        }
    }
}

} // verus!
