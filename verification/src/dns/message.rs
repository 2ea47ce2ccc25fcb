//! A whole DNS message: header, questions and answers.
//!
//! A message is written as its header and then its questions; answers are
//! never written. With the bypass switched on, the question section starts
//! with one decoy: the type and class of the first question behind a pointer
//! to offset 18, where the name of that first question then stands. The
//! decoy stands in front of the questions, not behind them: only there does
//! its pointer lead to a name. The header counts the decoy: its question
//! count is the number of questions, and one more while the bypass is on.
//!
//! A message is read as its header, then as many questions and as many
//! answers as the header counts. A header with a response code other than
//! zero ends the reading: the message then has no questions and no answers.

use crate::binary::bits_of;
use crate::dns::buffer::buf_bytes;
use crate::dns::error::Error;
use crate::dns::header::header_at;
use crate::dns::header::header_wire;
use crate::dns::header::lemma_header_round_trip;
use crate::dns::header::FlagRCode;
use crate::dns::header::Header;
use crate::dns::header::HEADER_LEN;
use crate::dns::name::labels;
use crate::dns::name::plain;
use crate::dns::question::lemma_question_round_trip;
use crate::dns::question::question_at;
use crate::dns::question::Question;
use crate::dns::question::QuestionView;
use crate::dns::record::record_at;
use crate::dns::record::RecordView;
use crate::dns::record::ResourceRecord;
use bytes::BytesMut;
use vstd::prelude::*;

verus! {

/// A DNS message.
#[derive(Debug)]
pub struct Message {
    pub header: Header,
    pub questions: Vec<Question>,
    pub answers: Vec<ResourceRecord>,
    /// Whether a decoy question is written in front of the questions.
    pub bypass_gfw: bool,
}

/// What a message holds.
pub struct MessageView {
    pub header: Header,
    pub questions: Seq<QuestionView>,
    pub answers: Seq<RecordView>,
    pub bypass_gfw: bool,
}

impl View for Message {
    type V = MessageView;

    open spec fn view(&self) -> MessageView {
        MessageView {
            header: self.header,
            questions: self.questions@.map_values(|q: Question| q@),
            answers: self.answers@.map_values(|r: ResourceRecord| r@),
            bypass_gfw: self.bypass_gfw,
        }
    }
}

/// Questions on the wire, one after the other.
pub open spec fn questions_wire(questions: Seq<QuestionView>) -> Seq<u8>
    decreases questions.len(),
{
    if questions.len() == 0 {
        Seq::<u8>::empty()
    } else {
        questions_wire(questions.drop_last()) + questions.last().wire()
    }
}

impl MessageView {
    /// The header counts the questions, and one more while the bypass is on.
    pub open spec fn wf(self) -> bool {
        self.header.qd_count == self.questions.len() + (if self.bypass_gfw {
            1int
        } else {
            0int
        })
    }

    /// Every question can be written.
    pub open spec fn encodable(self) -> bool {
        forall|i: int| 0 <= i < self.questions.len() ==> (#[trigger] self.questions[i]).encodable()
    }

    /// Whether a decoy is written: the bypass is on and there is a question
    /// to take the type and the class from.
    pub open spec fn has_decoy(self) -> bool {
        self.bypass_gfw && self.header.qd_count > 1
    }

    /// The decoy on the wire, if one is written.
    pub open spec fn decoy_wire(self) -> Seq<u8> {
        if self.has_decoy() {
            self.questions[0].decoy_wire()
        } else {
            Seq::<u8>::empty()
        }
    }

    /// The message on the wire: header, decoy, questions.
    pub open spec fn wire(self) -> Seq<u8> {
        header_wire(self.header) + self.decoy_wire() + questions_wire(self.questions)
    }
}

/// What reading `count` questions from `pos` on gives: the questions and the
/// offset behind the last, or the error of the first that cannot be read.
pub open spec fn questions_at(buf: Seq<u8>, pos: int, count: nat) -> Result<
    (Seq<QuestionView>, int),
    Error,
>
    decreases count,
{
    if count == 0 {
        Ok((Seq::<QuestionView>::empty(), pos))
    } else {
        match question_at(buf, pos) {
            Err(e) => Err(e),
            Ok((first, used)) => match questions_at(buf, pos + used, (count - 1) as nat) {
                Err(e) => Err(e),
                Ok((rest, end)) => Ok((seq![first] + rest, end)),
            },
        }
    }
}

/// What reading `count` records from `pos` on gives: the records and the
/// offset behind the last, or the error of the first that cannot be read.
pub open spec fn records_at(buf: Seq<u8>, pos: int, count: nat) -> Result<
    (Seq<RecordView>, int),
    Error,
>
    decreases count,
{
    if count == 0 {
        Ok((Seq::<RecordView>::empty(), pos))
    } else {
        match record_at(buf, pos) {
            Err(e) => Err(e),
            Ok((first, used)) => match records_at(buf, pos + used, (count - 1) as nat) {
                Err(e) => Err(e),
                Ok((rest, end)) => Ok((seq![first] + rest, end)),
            },
        }
    }
}

/// Whether the response code of a flags word is zero: no error.
pub open spec fn is_no_error(flag: u16) -> bool {
    bits_of(flag, 12, 4) == 0
}

/// What reading a message gives. The header comes first, and `Length` where
/// it is cut short. Behind a header whose response code is not zero nothing
/// is read. Else the questions and then the answers are read, as many as the
/// header counts, and the first that cannot be read gives its error.
pub open spec fn message_at(buf: Seq<u8>) -> Result<MessageView, Error> {
    match header_at(buf) {
        Err(e) => Err(e),
        Ok(header) => if !is_no_error(header.flag) {
            Ok(
                MessageView {
                    header,
                    questions: Seq::<QuestionView>::empty(),
                    answers: Seq::<RecordView>::empty(),
                    bypass_gfw: false,
                },
            )
        } else {
            match questions_at(buf, HEADER_LEN as int, header.qd_count as nat) {
                Err(e) => Err(e),
                Ok((questions, pos)) => match records_at(buf, pos, header.an_count as nat) {
                    Err(e) => Err(e),
                    Ok((answers, _)) => Ok(
                        MessageView { header, questions, answers, bypass_gfw: false },
                    ),
                },
            }
        },
    }
}

/// `done` in front of what is still to be read.
pub open spec fn questions_after(
    done: Seq<QuestionView>,
    rest: Result<(Seq<QuestionView>, int), Error>,
) -> Result<(Seq<QuestionView>, int), Error> {
    match rest {
        Err(e) => Err(e),
        Ok((more, end)) => Ok((done + more, end)),
    }
}

/// `done` in front of what is still to be read.
pub open spec fn records_after(
    done: Seq<RecordView>,
    rest: Result<(Seq<RecordView>, int), Error>,
) -> Result<(Seq<RecordView>, int), Error> {
    match rest {
        Err(e) => Err(e),
        Ok((more, end)) => Ok((done + more, end)),
    }
}

/// The first questions of a section take no more bytes than all of them.
pub proof fn lemma_questions_wire_prefix(questions: Seq<QuestionView>, i: int)
    requires
        0 <= i <= questions.len(),
    ensures
        questions_wire(questions.take(i)).len() <= questions_wire(questions).len(),
    decreases questions.len() - i,
{
    if i == questions.len() {
        assert(questions.take(i) == questions);
    } else {
        lemma_questions_wire_prefix(questions, i + 1);
        assert(questions.take(i + 1).drop_last() == questions.take(i));
    }
}

/// A message that was read has the bypass off.
pub proof fn lemma_read_message_has_no_bypass(buf: Seq<u8>)
    ensures
        message_at(buf) matches Ok(message) ==> !message.bypass_gfw,
{
}

/// A response whose code is not zero is read as its header alone: it has no
/// questions and no answers, whatever follows the header.
pub proof fn lemma_negative_response(buf: Seq<u8>)
    requires
        buf.len() >= HEADER_LEN,
        !is_no_error(header_at(buf).unwrap().flag),
    ensures
        message_at(buf) matches Ok(message) && message.questions.len() == 0
            && message.answers.len() == 0 && Ok::<Header, Error>(message.header) == header_at(
            buf,
        ),
{
}

/// With the bypass on, a message that counts its questions and has one or
/// more starts its question section with the pointer of the decoy, and the
/// first question follows at offset 18, where that pointer leads.
pub proof fn lemma_bypass_wire(message: MessageView)
    requires
        message.wf(),
        message.bypass_gfw,
        message.questions.len() >= 1,
    ensures
        message.wire().len() >= 18 + message.questions[0].wire().len(),
        message.wire().subrange(12, 14) == seq![0xc0u8, 0x12u8],
        message.wire().subrange(12, 18) == message.questions[0].decoy_wire(),
        message.wire().subrange(18, 18 + message.questions[0].wire().len() as int)
            == message.questions[0].wire(),
{
    let first = message.questions[0];
    let rest = questions_wire(message.questions);
    lemma_header_round_trip(message.header, Seq::<u8>::empty());
    lemma_first_question_wire(message.questions);
    assert(first.decoy_wire().len() == 6);
    let wire = message.wire();
    assert(wire == header_wire(message.header) + first.decoy_wire() + rest);
    assert(wire.subrange(12, 18) == first.decoy_wire());
    assert(wire.subrange(12, 14) == first.decoy_wire().subrange(0, 2));
    assert(wire.subrange(18, 18 + first.wire().len() as int) == rest.subrange(
        0,
        first.wire().len() as int,
    ));
}

/// The wire of a question section starts with the wire of its first
/// question.
pub proof fn lemma_first_question_wire(questions: Seq<QuestionView>)
    requires
        questions.len() >= 1,
    ensures
        questions_wire(questions).len() >= questions[0].wire().len(),
        questions_wire(questions).subrange(0, questions[0].wire().len() as int)
            == questions[0].wire(),
    decreases questions.len(),
{
    if questions.len() == 1 {
        assert(questions.drop_last() == Seq::<QuestionView>::empty());
        assert(questions_wire(questions.drop_last()) == Seq::<u8>::empty());
        assert(questions_wire(questions) == questions[0].wire());
    } else {
        lemma_first_question_wire(questions.drop_last());
        assert(questions.drop_last()[0] == questions[0]);
        let front = questions_wire(questions.drop_last());
        let width = questions[0].wire().len() as int;
        assert((front + questions.last().wire()).subrange(0, width) == front.subrange(0, width));
    }
}

/// The decoy of a message is read as its first question: the pointer that it
/// holds leads to the name of the first question, so the decoy has that name,
/// with a dot behind it, and the type and the class that the first question
/// has. This holds for a message that counts its questions, with the bypass
/// on, whose first question has the type and the class that their codes stand
/// for and a name with no empty label and no label of more than 63 bytes.
pub proof fn lemma_decoy_reads_first_question(message: MessageView)
    requires
        message.wf(),
        message.bypass_gfw,
        message.questions.len() >= 1,
        message.questions[0].wf(),
        plain(labels(message.questions[0].name_bytes())),
    ensures
        question_at(message.wire(), 12) == Ok::<(QuestionView, int), Error>(
            (
                QuestionView {
                    name: message.questions[0].name.push('.'),
                    q_type: message.questions[0].q_type,
                    q_class: message.questions[0].q_class,
                },
                6,
            ),
        ),
        question_at(message.wire(), 18) == Ok::<(QuestionView, int), Error>(
            (
                QuestionView {
                    name: message.questions[0].name.push('.'),
                    q_type: message.questions[0].q_type,
                    q_class: message.questions[0].q_class,
                },
                message.questions[0].wire().len() as int,
            ),
        ),
{
    let first = message.questions[0];
    let wire = message.wire();
    let width = first.wire().len() as int;
    lemma_bypass_wire(message);
    lemma_header_round_trip(message.header, Seq::<u8>::empty());
    let before = wire.subrange(0, 18);
    let after = wire.subrange(18 + width, wire.len() as int);
    assert(wire == before + first.wire() + after) by {
        assert(wire.subrange(18, 18 + width) == first.wire());
    }
    lemma_question_round_trip(first, before, after);
    let head = header_wire(message.header);
    assert(before == head + first.decoy_wire()) by {
        assert(wire.subrange(0, 12) == head);
        assert(before == wire.subrange(0, 12) + wire.subrange(12, 18));
    }
    crate::dns::question::lemma_decoy_round_trip(head, first, after);
}

/// A question as it is read back: with a dot behind its name.
pub open spec fn read_back(question: QuestionView) -> QuestionView {
    QuestionView {
        name: question.name.push('.'),
        q_type: question.q_type,
        q_class: question.q_class,
    }
}

/// A question that is read back as it was written, but for the dot: its
/// type and its class are the ones that their codes stand for, and its name
/// has no empty label and no label of more than 63 bytes.
pub open spec fn readable_question(question: QuestionView) -> bool {
    question.wf() && plain(labels(question.name_bytes()))
}

/// Questions that are read back as they were written, but for the dot.
pub open spec fn readable(questions: Seq<QuestionView>) -> bool {
    forall|i: int| 0 <= i < questions.len() ==> readable_question(#[trigger] questions[i])
}

/// Questions as they are read back.
pub open spec fn all_read_back(questions: Seq<QuestionView>) -> Seq<QuestionView> {
    questions.map_values(|q: QuestionView| read_back(q))
}

/// The wire of a question section is the wire of its first question
/// followed by the wire of the others.
pub proof fn lemma_questions_wire_first(questions: Seq<QuestionView>)
    requires
        questions.len() >= 1,
    ensures
        questions_wire(questions) == questions[0].wire() + questions_wire(questions.drop_first()),
    decreases questions.len(),
{
    if questions.len() == 1 {
        assert(questions.drop_last() == Seq::<QuestionView>::empty());
        assert(questions.drop_first() == Seq::<QuestionView>::empty());
        assert(questions_wire(Seq::<QuestionView>::empty()) == Seq::<u8>::empty());
        assert(questions_wire(questions) == Seq::<u8>::empty() + questions[0].wire());
    } else {
        let front = questions.drop_last();
        lemma_questions_wire_first(front);
        assert(front[0] == questions[0]);
        assert(front.drop_first() == questions.drop_first().drop_last());
        assert(questions.drop_first().last() == questions.last());
        assert(questions[0].wire() + questions_wire(front.drop_first()) + questions.last().wire()
            == questions[0].wire() + (questions_wire(questions.drop_first().drop_last())
            + questions.last().wire()));
    }
}

/// What stands first in readable questions, and what follows, is readable,
/// and is read back first, and behind it what follows.
proof fn lemma_readable_first(questions: Seq<QuestionView>)
    requires
        questions.len() >= 1,
        readable(questions),
    ensures
        readable_question(questions[0]),
        readable(questions.drop_first()),
        all_read_back(questions) == seq![read_back(questions[0])] + all_read_back(
            questions.drop_first(),
        ),
{
    let rest = questions.drop_first();
    assert forall|i: int| 0 <= i < rest.len() implies readable_question(#[trigger] rest[i]) by {
        assert(rest[i] == questions[i + 1]);
    }
}

/// Questions that are written one after the other are read back one after
/// the other, each with a dot behind its name, and every byte that was
/// written is read. This holds wherever the questions stand in a buffer.
#[verifier::rlimit(40)]
pub proof fn lemma_questions_round_trip(
    before: Seq<u8>,
    questions: Seq<QuestionView>,
    after: Seq<u8>,
)
    requires
        readable(questions),
    ensures
        questions_at(
            before + questions_wire(questions) + after,
            before.len() as int,
            questions.len(),
        ) == Ok::<(Seq<QuestionView>, int), Error>(
            (all_read_back(questions), before.len() as int + questions_wire(questions).len()),
        ),
    decreases questions.len(),
{
    if questions.len() == 0 {
        assert(all_read_back(questions) == Seq::<QuestionView>::empty());
    } else {
        let buf = before + questions_wire(questions) + after;
        let first = questions[0];
        let rest = questions.drop_first();
        let tail = questions_wire(rest) + after;
        let front = before + first.wire();
        assert(questions_wire(questions) == first.wire() + questions_wire(rest)) by {
            lemma_questions_wire_first(questions);
        }
        assert(buf == before + first.wire() + tail);
        assert(buf == front + questions_wire(rest) + after);
        lemma_readable_first(questions);
        let one = question_at(buf, before.len() as int);
        assert(one == Ok::<(QuestionView, int), Error>(
            (read_back(first), first.wire().len() as int),
        )) by {
            lemma_question_round_trip(first, before, tail);
        }
        let others = questions_at(buf, front.len() as int, rest.len());
        assert(others == Ok::<(Seq<QuestionView>, int), Error>(
            (all_read_back(rest), front.len() as int + questions_wire(rest).len()),
        )) by {
            lemma_questions_round_trip(front, rest, after);
        }
        assert((questions.len() - 1) as nat == rest.len());
        assert(before.len() + first.wire().len() == front.len());
    }
}

/// What the question section of a written message is read as.
pub open spec fn questions_read_back(message: MessageView) -> Seq<QuestionView> {
    (if message.bypass_gfw {
        seq![read_back(message.questions[0])]
    } else {
        Seq::<QuestionView>::empty()
    }) + all_read_back(message.questions)
}

/// The question section of a written message is read back to its end.
#[verifier::rlimit(40)]
proof fn lemma_question_section_round_trip(message: MessageView)
    requires
        message.wf(),
        readable(message.questions),
        message.bypass_gfw ==> message.questions.len() >= 1,
    ensures
        questions_at(message.wire(), HEADER_LEN as int, message.header.qd_count as nat) == Ok::<
            (Seq<QuestionView>, int),
            Error,
        >((questions_read_back(message), message.wire().len() as int)),
{
    let wire = message.wire();
    let head = header_wire(message.header);
    let section = questions_wire(message.questions);
    let read = all_read_back(message.questions);
    lemma_header_round_trip(message.header, Seq::<u8>::empty());
    if message.bypass_gfw {
        let first = message.questions[0];
        let front = head + first.decoy_wire();
        lemma_decoy_reads_first_question(message);
        assert(front.len() == 18);
        assert(wire == front + section + Seq::<u8>::empty());
        lemma_questions_round_trip(front, message.questions, Seq::<u8>::empty());
        let rest = questions_at(wire, 18, message.questions.len());
        assert(rest == Ok::<(Seq<QuestionView>, int), Error>((read, wire.len() as int)));
        assert(question_at(wire, 12) == Ok::<(QuestionView, int), Error>((read_back(first), 6)));
        assert((message.header.qd_count - 1) as nat == message.questions.len());
        assert(questions_at(wire, 12, message.header.qd_count as nat) == Ok::<
            (Seq<QuestionView>, int),
            Error,
        >((seq![read_back(first)] + read, wire.len() as int)));
    } else {
        assert(message.decoy_wire() == Seq::<u8>::empty());
        assert(wire == head + section + Seq::<u8>::empty());
        lemma_questions_round_trip(head, message.questions, Seq::<u8>::empty());
        assert(Seq::<QuestionView>::empty() + read == read);
    }
}

/// A query that is written and read again has the header that it had and the
/// questions that it had, each with a dot behind its name; with the bypass
/// on, the decoy is read in front of them as one more copy of the first.
/// This holds for a message that counts its questions, whose header has the
/// response code zero and counts no answers, and whose questions are
/// readable. With the bypass on, the message has to hold a question: a
/// message that counts a decoy and has no question to make it from writes
/// none, and is not read back.
#[verifier::rlimit(40)]
pub proof fn lemma_message_round_trip(message: MessageView)
    requires
        message.wf(),
        readable(message.questions),
        is_no_error(message.header.flag),
        message.header.an_count == 0,
        message.bypass_gfw ==> message.questions.len() >= 1,
    ensures
        message_at(message.wire()) == Ok::<MessageView, Error>(
            MessageView {
                header: message.header,
                questions: questions_read_back(message),
                answers: Seq::<RecordView>::empty(),
                bypass_gfw: false,
            },
        ),
{
    let wire = message.wire();
    let rest = message.decoy_wire() + questions_wire(message.questions);
    lemma_header_round_trip(message.header, rest);
    assert(wire == header_wire(message.header) + rest);
    assert(header_at(wire) == Ok::<Header, Error>(message.header));
    lemma_question_section_round_trip(message);
    assert(records_at(wire, wire.len() as int, 0) == Ok::<(Seq<RecordView>, int), Error>(
        (Seq::<RecordView>::empty(), wire.len() as int),
    ));
}

impl Message {
    /// A message with the given header and no questions. The question count
    /// of the header is set to count the decoy alone.
    pub fn new(header: Header, bypass_gfw: bool) -> (message: Message)
        ensures
            message@ == (MessageView {
                header: Header { qd_count: if bypass_gfw { 1u16 } else { 0u16 }, ..header },
                questions: Seq::<QuestionView>::empty(),
                answers: Seq::<RecordView>::empty(),
                bypass_gfw,
            }),
            message@.wf(),
    {
        let mut message = Message {
            header,
            questions: Vec::new(),
            answers: Vec::new(),
            bypass_gfw,
        };
        message.header.qd_count = if bypass_gfw { 1 } else { 0 };
        assert(message@.questions == Seq::<QuestionView>::empty());
        assert(message@.answers == Seq::<RecordView>::empty());
        message
    }

    /// Adds a question behind those that the message has, and counts it.
    pub fn add_question(&mut self, q: Question)
        requires
            old(self).header.qd_count < u16::MAX,
        ensures
            final(self)@ == (MessageView {
                header: Header {
                    qd_count: (old(self).header.qd_count + 1) as u16,
                    ..old(self).header
                },
                questions: old(self)@.questions.push(q@),
                ..old(self)@
            }),
            old(self)@.wf() ==> final(self)@.wf(),
    {
        let ghost before = self.questions@;
        self.questions.push(q);
        self.header.qd_count = self.header.qd_count + 1;
        assert(self.questions@.map_values(|q: Question| q@) == before.map_values(
            |q: Question| q@,
        ).push(q@));
    }

    /// Switches the bypass on or off. The question count goes up by one when
    /// the bypass goes on and down by one when it goes off.
    pub fn bypass_gfw(&mut self, bypass_gfw: bool)
        requires
            !old(self).bypass_gfw && bypass_gfw ==> old(self).header.qd_count < u16::MAX,
            old(self).bypass_gfw && !bypass_gfw ==> old(self).header.qd_count > 0,
        ensures
            final(self)@ == (MessageView {
                header: Header {
                    qd_count: (old(self).header.qd_count + (if bypass_gfw {
                        1int
                    } else {
                        0int
                    }) - (if old(self).bypass_gfw {
                        1int
                    } else {
                        0int
                    })) as u16,
                    ..old(self).header
                },
                bypass_gfw,
                ..old(self)@
            }),
            old(self)@.wf() ==> final(self)@.wf(),
    {
        if self.bypass_gfw && !bypass_gfw {
            self.header.qd_count = self.header.qd_count - 1;
        } else if !self.bypass_gfw && bypass_gfw {
            self.header.qd_count = self.header.qd_count + 1;
        }
        self.bypass_gfw = bypass_gfw;
    }

    /// Writes this message to a new buffer: the header, the decoy where the
    /// bypass is on and there is a question, and the questions.
    pub fn to_raw(&self) -> (buf: BytesMut)
        requires
            self@.wf(),
            self@.encodable(),
            self@.wire().len() <= isize::MAX,
        ensures
            buf_bytes(buf) == self@.wire(),
    {
        let mut message = self.header.to_raw();
        let ghost views = self@.questions;
        proof {
            lemma_header_round_trip(self.header, Seq::<u8>::empty());
        }
        if self.header.qd_count > 1 && self.bypass_gfw {
            assert(self.questions@.len() >= 1);
            assert(views[0] == self.questions@[0]@);
            self.questions[0].append_gfw(&mut message);
        }
        let ghost front = buf_bytes(message);
        let n = self.questions.len();
        let mut i: usize = 0;
        proof {
            assert(views.take(0) == Seq::<QuestionView>::empty());
            assert(front + questions_wire(views.take(0)) == front);
        }
        while i < n
            invariant
                i <= n,
                n == self.questions@.len(),
                views == self@.questions,
                self@.encodable(),
                front == header_wire(self.header) + self@.decoy_wire(),
                front.len() + questions_wire(views).len() <= isize::MAX,
                buf_bytes(message) == front + questions_wire(views.take(i as int)),
            decreases n - i,
        {
            proof {
                lemma_questions_wire_prefix(views, i + 1);
                assert(views.take(i + 1).drop_last() == views.take(i as int));
                assert(views[i as int] == self.questions@[i as int]@);
                assert(views[i as int].encodable());
            }
            self.questions[i].append_to(&mut message);
            proof {
                assert(front + questions_wire(views.take(i as int)) + views[i as int].wire()
                    == front + questions_wire(views.take(i + 1)));
            }
            i = i + 1;
        }
        assert(views.take(n as int) == views);
        message
    }

    /// Reads a message from `buffer`.
    pub fn from(buffer: &[u8]) -> (r: Result<Message, Error>)
        ensures
            match r {
                Ok(message) => message_at(buffer@) == Ok::<MessageView, Error>(message@),
                Err(e) => message_at(buffer@) == Err::<MessageView, Error>(e),
            },
    {
        let header = match Header::from(buffer) {
            Ok(header) => header,
            Err(e) => {
                return Err(e);
            },
        };
        match header.flag().rcode {
            FlagRCode::NoError => {},
            _ => {
                let message = Message {
                    header,
                    questions: Vec::new(),
                    answers: Vec::new(),
                    bypass_gfw: false,
                };
                assert(message@.questions == Seq::<QuestionView>::empty());
                assert(message@.answers == Seq::<RecordView>::empty());
                return Ok(message);
            },
        }
        let ghost buf = buffer@;
        let n = buffer.len();
        let mut offset: usize = HEADER_LEN;
        let mut questions: Vec<Question> = Vec::new();
        let mut i: u16 = 0;
        proof {
            let all = questions_at(buf, HEADER_LEN as int, header.qd_count as nat);
            assert(questions_after(Seq::<QuestionView>::empty(), all) == all) by {
                if let Ok((more, end)) = all {
                    assert(Seq::<QuestionView>::empty() + more == more);
                }
            }
            assert(questions@.map_values(|q: Question| q@) == Seq::<QuestionView>::empty());
        }
        while i < header.qd_count
            invariant
                i <= header.qd_count,
                buf == buffer@,
                n == buf.len(),
                offset <= buf.len(),
                header_at(buf) == Ok::<Header, Error>(header),
                is_no_error(header.flag),
                questions_at(buf, HEADER_LEN as int, header.qd_count as nat) == questions_after(
                    questions@.map_values(|q: Question| q@),
                    questions_at(buf, offset as int, (header.qd_count - i) as nat),
                ),
            decreases header.qd_count - i,
        {
            let ghost done = questions@.map_values(|q: Question| q@);
            match Question::parse(buffer, offset) {
                Err(e) => {
                    return Err(e);
                },
                Ok((question, size)) => {
                    proof {
                        let rest = questions_at(
                            buf,
                            offset + size,
                            (header.qd_count - i - 1) as nat,
                        );
                        if let Ok((more, end)) = rest {
                            assert(done + (seq![question@] + more) == done.push(question@)
                                + more);
                        }
                    }
                    questions.push(question);
                    offset = offset + size;
                    assert(questions@.map_values(|q: Question| q@) == done.push(question@));
                },
            }
            i = i + 1;
        }
        let ghost start = offset as int;
        let mut answers: Vec<ResourceRecord> = Vec::new();
        let mut j: u16 = 0;
        proof {
            let all = records_at(buf, start, header.an_count as nat);
            assert(records_after(Seq::<RecordView>::empty(), all) == all) by {
                if let Ok((more, end)) = all {
                    assert(Seq::<RecordView>::empty() + more == more);
                }
            }
            assert(answers@.map_values(|r: ResourceRecord| r@) == Seq::<RecordView>::empty());
            let views = questions@.map_values(|q: Question| q@);
            assert(views + Seq::<QuestionView>::empty() == views);
        }
        while j < header.an_count
            invariant
                j <= header.an_count,
                buf == buffer@,
                n == buf.len(),
                offset <= buf.len(),
                header_at(buf) == Ok::<Header, Error>(header),
                is_no_error(header.flag),
                questions_at(buf, HEADER_LEN as int, header.qd_count as nat) == Ok::<
                    (Seq<QuestionView>, int),
                    Error,
                >((questions@.map_values(|q: Question| q@), start)),
                records_at(buf, start, header.an_count as nat) == records_after(
                    answers@.map_values(|r: ResourceRecord| r@),
                    records_at(buf, offset as int, (header.an_count - j) as nat),
                ),
            decreases header.an_count - j,
        {
            let ghost done = answers@.map_values(|r: ResourceRecord| r@);
            match ResourceRecord::parse(buffer, offset) {
                Err(e) => {
                    return Err(e);
                },
                Ok((answer, size)) => {
                    proof {
                        let rest = records_at(
                            buf,
                            offset + size,
                            (header.an_count - j - 1) as nat,
                        );
                        if let Ok((more, end)) = rest {
                            assert(done + (seq![answer@] + more) == done.push(answer@) + more);
                        }
                    }
                    answers.push(answer);
                    offset = offset + size;
                    assert(answers@.map_values(|r: ResourceRecord| r@) == done.push(answer@));
                },
            }
            j = j + 1;
        }
        proof {
            let views = answers@.map_values(|r: ResourceRecord| r@);
            assert(views + Seq::<RecordView>::empty() == views);
        }
        Ok(Message { header, questions, answers, bypass_gfw: false })
    }
}

impl Default for Message {
    /// A query with a random id, the default flags, no questions, and the
    /// bypass on.
    fn default() -> (message: Message)
        ensures
            message@ == (MessageView {
                header: Header {
                    id: message.header.id,
                    flag: crate::dns::header::DEFAULT_QUERY_FLAG,
                    qd_count: 1,
                    an_count: 0,
                    ns_count: 0,
                    ar_count: 0,
                },
                questions: Seq::<QuestionView>::empty(),
                answers: Seq::<RecordView>::empty(),
                bypass_gfw: true,
            }),
            message@.wf(),
    {
        Message::new(Header::default(), true)
    }
}

} // verus!
