//! The parts of a blocking client that need no socket: what to send for a
//! query, and what a reply says.
//!
//! A query is a message with a fresh random id, the default flags, and one
//! question in the Internet class; the caller sends it as one datagram to
//! the upstream resolver and hands the datagram that comes back to
//! `response`.

use crate::dns::buffer::buf_bytes;
use crate::dns::class::Class;
use crate::dns::class::QClass;
use crate::dns::error::Error;
use crate::dns::header::lemma_header_round_trip;
use crate::dns::header::Header;
use crate::dns::header::DEFAULT_QUERY_FLAG;
use crate::dns::message::message_at;
use crate::dns::message::questions_wire;
use crate::dns::message::Message;
use crate::dns::message::MessageView;
use crate::dns::name::encodable;
use crate::dns::name::lemma_labels_wire_len;
use crate::dns::question::Question;
use crate::dns::question::QuestionView;
use crate::dns::record::RecordView;
use crate::dns::record::ResourceRecord;
use crate::dns::types::QType;
use bytes::BytesMut;
use vstd::prelude::*;
use vstd::utf8::encode_utf8;

verus! {

/// The size of the buffer that a reply is received into: what fits into one
/// Ethernet frame.
pub const RECEIVE_BUFFER_LEN: usize = 1500;

/// A client that sends from one local address to one upstream resolver.
#[derive(Debug)]
pub struct DNSClient {
    /// The local address that the socket is bound to.
    pub addr: String,
    /// The address of the resolver that queries go to.
    pub upstream: String,
}

/// The query for `domain`: the default header with the given id, one
/// question in the Internet class, and the header's count of questions,
/// which counts the decoy while the bypass is on.
pub open spec fn query_view(id: u16, domain: Seq<char>, q_type: QType, bypass_gfw: bool)
    -> MessageView {
    MessageView {
        header: Header {
            id,
            flag: DEFAULT_QUERY_FLAG,
            qd_count: if bypass_gfw {
                2
            } else {
                1
            },
            an_count: 0,
            ns_count: 0,
            ar_count: 0,
        },
        questions: seq![QuestionView { name: domain, q_type, q_class: QClass::Class(Class::IN) }],
        answers: Seq::<RecordView>::empty(),
        bypass_gfw,
    }
}

/// A query takes its header, its decoy where the bypass is on, and six bytes
/// more than the name asked for.
pub proof fn lemma_query_wire_len(id: u16, domain: Seq<char>, q_type: QType, bypass_gfw: bool)
    ensures
        query_view(id, domain, q_type, bypass_gfw).wf(),
        query_view(id, domain, q_type, bypass_gfw).wire().len() == encode_utf8(domain).len() + 18
            + (if bypass_gfw {
            6int
        } else {
            0int
        }),
{
    let query = query_view(id, domain, q_type, bypass_gfw);
    lemma_header_round_trip(query.header, Seq::<u8>::empty());
    lemma_labels_wire_len(encode_utf8(domain));
    assert(query.questions.drop_last() == Seq::<QuestionView>::empty());
    assert(questions_wire(query.questions.drop_last()) == Seq::<u8>::empty());
    assert(questions_wire(query.questions) == query.questions[0].wire());
}

impl DNSClient {
    /// A client that binds to `addr` and has no upstream resolver yet.
    pub fn new(addr: &str) -> (client: DNSClient)
        ensures
            client.addr@ == addr@,
            client.upstream@ == Seq::<char>::empty(),
    {
        DNSClient { addr: addr.to_owned(), upstream: String::new() }
    }

    /// Sets the resolver that queries go to.
    pub fn upstream(&mut self, addr: &str) -> (client: &DNSClient)
        ensures
            final(self).upstream@ == addr@,
            final(self).addr == old(self).addr,
            *client == *final(self),
    {
        self.upstream = addr.to_owned();
        self
    }

    /// The query for `domain` with the given id.
    pub fn query_message(id: u16, domain: &str, q_type: QType, bypass_gfw: bool) -> (message:
        Message)
        ensures
            message@ == query_view(id, domain@, q_type, bypass_gfw),
            message@.wf(),
    {
        let mut message = Message::new(Header::new(id, DEFAULT_QUERY_FLAG, 0, 0, 0, 0), true);
        message.bypass_gfw(bypass_gfw);
        message.add_question(Question::new(domain, q_type));
        assert(message@.questions == query_view(id, domain@, q_type, bypass_gfw).questions);
        message
    }

    /// The datagram to send for a query for `domain`, with a fresh random
    /// id.
    pub fn request(&self, domain: &str, q_type: QType, bypass_gfw: bool) -> (datagram: BytesMut)
        requires
            encodable(encode_utf8(domain@)),
            encode_utf8(domain@).len() + 24 <= isize::MAX,
        ensures
            exists|id: u16|
                buf_bytes(datagram) == (#[trigger] query_view(
                    id,
                    domain@,
                    q_type,
                    bypass_gfw,
                )).wire(),
    {
        let id = Header::default().id;
        let message = DNSClient::query_message(id, domain, q_type, bypass_gfw);
        proof {
            lemma_query_wire_len(id, domain@, q_type, bypass_gfw);
            assert(message@.questions[0].encodable());
        }
        message.to_raw()
    }

    /// What a reply says: its header, its questions and its answers. A reply
    /// whose response code is not zero has neither questions nor answers.
    pub fn response(datagram: &[u8]) -> (r: Result<
        (Header, Vec<Question>, Vec<ResourceRecord>),
        Error,
    >)
        ensures
            match r {
                Ok((header, questions, answers)) => message_at(datagram@) == Ok::<
                    MessageView,
                    Error,
                >(
                    MessageView {
                        header,
                        questions: questions@.map_values(|q: Question| q@),
                        answers: answers@.map_values(|r: ResourceRecord| r@),
                        bypass_gfw: false,
                    },
                ),
                Err(e) => message_at(datagram@) == Err::<MessageView, Error>(e),
            },
    {
        match Message::from(datagram) {
            Ok(message) => {
                proof {
                    crate::dns::message::lemma_read_message_has_no_bypass(datagram@);
                }
                Ok((message.header, message.questions, message.answers))
            },
            Err(e) => Err(e),
        }
    }
}

} // verus!
