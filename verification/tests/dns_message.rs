use glow::dns::class::Class;
use glow::dns::class::QClass;
use glow::dns::error::Error;
use glow::dns::header::FlagRCode;
use glow::dns::header::Header;
use glow::dns::header::DEFAULT_QUERY_FLAG;
use glow::dns::message::Message;
use glow::dns::question::Question;
use glow::dns::record::RData;
use glow::dns::sync::DNSClient;
use glow::dns::sync::RECEIVE_BUFFER_LEN;
use glow::dns::types::QType;
use glow::dns::types::Type;

fn query_header(id: u16) -> Header {
    Header::new(id, DEFAULT_QUERY_FLAG, 0, 0, 0, 0)
}

fn stub_reply(id: u16) -> Vec<u8> {
    let mut raw = Header::new(id, 0x8180, 1, 1, 0, 0).to_raw().to_vec();
    raw.extend_from_slice(b"\x07example\x03com\x00\x00\x01\x00\x01");
    raw.extend_from_slice(&[0xc0, 12, 0, 1, 0, 1, 0, 0, 0x0e, 0x10, 0, 4, 93, 184, 216, 34]);
    raw
}

#[test]
fn new_message_counts_the_decoy() {
    let message = Message::new(Header::new(7, 0x0100, 9, 1, 2, 3), true);
    assert_eq!(message.header, Header::new(7, 0x0100, 1, 1, 2, 3));
    assert!(message.questions.is_empty());
    assert!(message.answers.is_empty());
    assert!(message.bypass_gfw);
    let message = Message::new(Header::new(7, 0x0100, 9, 0, 0, 0), false);
    assert_eq!(message.header.qd_count, 0);
    assert!(!message.bypass_gfw);
}

#[test]
fn default_message_is_a_query_with_the_bypass_on() {
    let message = Message::default();
    assert_eq!(message.header.flag, DEFAULT_QUERY_FLAG);
    assert_eq!(message.header.qd_count, 1);
    assert_eq!(message.header.an_count, 0);
    assert!(message.questions.is_empty());
    assert!(message.bypass_gfw);
}

#[test]
fn adding_a_question_counts_it() {
    let mut message = Message::new(query_header(1), false);
    message.add_question(Question::new("a", QType::Type(Type::A)));
    assert_eq!(message.header.qd_count, 1);
    message.add_question(Question::new("b", QType::Type(Type::NS)));
    assert_eq!(message.header.qd_count, 2);
    assert_eq!(message.questions.len(), 2);
    assert_eq!(message.questions[0].q_name, "a");
    assert_eq!(message.questions[1].q_name, "b");
}

#[test]
fn bypass_changes_the_question_count_by_one() {
    let mut message = Message::new(query_header(1), false);
    message.add_question(Question::new("example.com", QType::Type(Type::A)));
    assert_eq!(message.header.qd_count, 1);
    message.bypass_gfw(true);
    assert_eq!(message.header.qd_count, 2);
    assert!(message.bypass_gfw);
    message.bypass_gfw(true);
    assert_eq!(message.header.qd_count, 2);
    message.bypass_gfw(false);
    assert_eq!(message.header.qd_count, 1);
    assert!(!message.bypass_gfw);
    message.bypass_gfw(false);
    assert_eq!(message.header.qd_count, 1);
    assert_eq!(message.questions.len(), 1);
}

#[test]
fn message_without_bypass_is_header_and_questions() {
    let mut message = Message::new(query_header(0x0102), false);
    message.add_question(Question::new("example.com", QType::Type(Type::A)));
    let raw = message.to_raw();
    let mut expected = vec![1, 2, 1, 0, 0, 1, 0, 0, 0, 0, 0, 0];
    expected.extend_from_slice(b"\x07example\x03com\x00\x00\x01\x00\x01");
    assert_eq!(&raw[..], &expected[..]);
}

#[test]
fn message_with_bypass_starts_its_questions_with_the_decoy() {
    let mut plain = Message::new(query_header(0x0102), false);
    plain.add_question(Question::new("example.com", QType::Type(Type::AAAA)));
    let mut message = Message::new(query_header(0x0102), false);
    message.add_question(Question::new("example.com", QType::Type(Type::AAAA)));
    message.bypass_gfw(true);
    assert_eq!(message.header.qd_count, plain.header.qd_count + 1);
    let raw = message.to_raw();
    let mut expected = vec![1, 2, 1, 0, 0, 2, 0, 0, 0, 0, 0, 0];
    expected.extend_from_slice(&[0xc0, 0x12, 0, 28, 0, 1]);
    expected.extend_from_slice(b"\x07example\x03com\x00\x00\x1c\x00\x01");
    assert_eq!(&raw[..], &expected[..]);
    assert_eq!(&raw[12..14], &[0xc0, 0x12]);
    assert_eq!(&raw[18..], &plain.to_raw()[12..]);
}

#[test]
fn decoy_is_read_as_the_first_question() {
    let mut message = Message::new(query_header(3), true);
    message.add_question(Question::new("glow.mmf.moe", QType::Type(Type::A)));
    let raw = message.to_raw();
    let (decoy, decoy_used) = Question::parse(&raw, 12).unwrap();
    let (first, first_used) = Question::parse(&raw, 18).unwrap();
    assert_eq!(decoy_used, 6);
    assert_eq!(12 + decoy_used + first_used, raw.len());
    assert_eq!(decoy, first);
    assert_eq!(first.q_name, "glow.mmf.moe.");
    let read = Message::from(&raw).unwrap();
    assert_eq!(read.header, message.header);
    assert_eq!(read.questions.len(), 2);
    assert_eq!(read.questions[0], read.questions[1]);
    assert!(!read.bypass_gfw);
}

#[test]
fn message_with_bypass_and_no_question_has_no_decoy() {
    let message = Message::new(query_header(5), true);
    assert_eq!(&message.to_raw()[..], &[0, 5, 1, 0, 0, 1, 0, 0, 0, 0, 0, 0]);
}

#[test]
fn message_writes_every_question_behind_one_decoy() {
    let mut message = Message::new(query_header(5), true);
    message.add_question(Question::new("a", QType::Type(Type::A)));
    message.add_question(Question::new("b", QType::Type(Type::MX)));
    assert_eq!(message.header.qd_count, 3);
    let mut expected = vec![0, 5, 1, 0, 0, 3, 0, 0, 0, 0, 0, 0];
    expected.extend_from_slice(&[0xc0, 0x12, 0, 1, 0, 1]);
    expected.extend_from_slice(b"\x01a\x00\x00\x01\x00\x01");
    expected.extend_from_slice(b"\x01b\x00\x00\x0f\x00\x01");
    assert_eq!(&message.to_raw()[..], &expected[..]);
}

#[test]
fn reply_with_one_answer_is_read() {
    let raw = stub_reply(0xbeef);
    let message = Message::from(&raw).unwrap();
    assert_eq!(message.header, Header::new(0xbeef, 0x8180, 1, 1, 0, 0));
    assert_eq!(message.questions.len(), 1);
    assert_eq!(message.questions[0].q_name, "example.com.");
    assert_eq!(message.questions[0].q_type, QType::Type(Type::A));
    assert_eq!(message.questions[0].q_class, QClass::Class(Class::IN));
    assert_eq!(message.answers.len(), 1);
    assert_eq!(message.answers[0].name, "example.com.");
    assert_eq!(message.answers[0].ttl, 3600);
    assert_eq!(message.answers[0].r_data, RData::A([93, 184, 216, 34]));
    assert!(!message.bypass_gfw);
}

#[test]
fn query_for_example_com_gets_its_address_from_a_stub_reply() {
    let mut client = DNSClient::new("0.0.0.0:9876");
    client.upstream("192.0.2.53:53");
    let request = client.request("example.com", QType::Type(Type::A), true);
    let id = u16::from_be_bytes([request[0], request[1]]);
    let mut received = [0u8; RECEIVE_BUFFER_LEN];
    let reply = stub_reply(id);
    received[..reply.len()].copy_from_slice(&reply);
    let (header, questions, answers) = DNSClient::response(&received).unwrap();
    assert_eq!(header.id, id);
    assert_eq!(header.flag().rcode, FlagRCode::NoError);
    assert_eq!(questions.len(), 1);
    assert_eq!(answers.len(), 1);
    assert_eq!(answers[0].r_data, RData::A([93, 184, 216, 34]));
}

#[test]
fn negative_reply_has_no_sections() {
    let mut raw = stub_reply(1);
    raw[3] = 0x83;
    let message = Message::from(&raw).unwrap();
    assert!(message.questions.is_empty());
    assert!(message.answers.is_empty());
    assert_eq!(message.header.flag().rcode, FlagRCode::NameError);
    assert_eq!(message.header.flag().rcode.error(), Some(Error::NameError));
    assert_eq!(message.header.qd_count, 1);
    assert_eq!(message.header.an_count, 1);
    let (header, questions, answers) = DNSClient::response(&raw).unwrap();
    assert_eq!(header.flag().rcode, FlagRCode::NameError);
    assert!(questions.is_empty());
    assert!(answers.is_empty());
}

#[test]
fn negative_reply_is_not_read_beyond_its_header() {
    for rcode in 1..16u8 {
        let raw = [0, 1, 0x81, 0x80 | rcode, 0, 9, 0, 9, 0, 0, 0, 0, 0xc0, 12];
        let message = Message::from(&raw).unwrap();
        assert!(message.questions.is_empty());
        assert!(message.answers.is_empty());
        assert_eq!(message.header.flag().rcode, FlagRCode::from(rcode as u16));
    }
}

#[test]
fn authority_and_additional_sections_are_not_read() {
    let mut raw = stub_reply(1);
    raw[9] = 3;
    raw[11] = 4;
    raw.extend_from_slice(&[0xff; 8]);
    let message = Message::from(&raw).unwrap();
    assert_eq!(message.header.ns_count, 3);
    assert_eq!(message.header.ar_count, 4);
    assert_eq!(message.answers.len(), 1);
}

#[test]
fn message_cut_short_is_an_error() {
    let raw = stub_reply(1);
    assert_eq!(Message::from(&raw[..11]).err(), Some(Error::Length));
    assert_eq!(Message::from(&raw[..12]).err(), Some(Error::MalformedName));
    assert_eq!(Message::from(&raw[..20]).err(), Some(Error::MalformedName));
    assert_eq!(Message::from(&raw[..27]).err(), Some(Error::Length));
    assert_eq!(Message::from(&raw[..29]).err(), Some(Error::MalformedName));
    assert_eq!(Message::from(&raw[..40]).err(), Some(Error::Length));
    assert_eq!(Message::from(&raw[..raw.len() - 1]).err(), Some(Error::Length));
    assert!(Message::from(&raw).is_ok());
}

#[test]
fn message_that_counts_more_than_it_holds_is_an_error() {
    let mut raw = stub_reply(1);
    raw[5] = 2;
    assert_eq!(Message::from(&raw).err(), Some(Error::Length));
    let mut raw = stub_reply(1);
    raw[7] = 2;
    assert_eq!(Message::from(&raw).err(), Some(Error::MalformedName));
}

#[test]
fn message_with_a_malformed_answer_is_an_error() {
    let mut raw = stub_reply(1);
    let length = raw.len();
    raw[length - 5] = 3;
    raw.pop();
    assert_eq!(Message::from(&raw).err(), Some(Error::MalformedMessage));
    let mut raw = stub_reply(1);
    raw[29] = 0xc0;
    raw[30] = 29;
    assert_eq!(Message::from(&raw).err(), Some(Error::MalformedName));
}

#[test]
fn client_keeps_its_addresses() {
    let mut client = DNSClient::new("0.0.0.0:9876");
    assert_eq!(client.addr, "0.0.0.0:9876");
    assert_eq!(client.upstream, "");
    let same = client.upstream("1.0.0.1:53");
    assert_eq!(same.upstream, "1.0.0.1:53");
    assert_eq!(client.addr, "0.0.0.0:9876");
    assert_eq!(client.upstream, "1.0.0.1:53");
}

#[test]
fn query_message_has_one_question_and_counts_the_decoy() {
    let message = DNSClient::query_message(0x0a0b, "glow.mmf.moe", QType::Type(Type::AAAA), true);
    assert_eq!(message.header, Header::new(0x0a0b, DEFAULT_QUERY_FLAG, 2, 0, 0, 0));
    assert_eq!(message.questions, vec![Question::new("glow.mmf.moe", QType::Type(Type::AAAA))]);
    assert!(message.answers.is_empty());
    assert!(message.bypass_gfw);
    let message = DNSClient::query_message(0x0a0b, "glow.mmf.moe", QType::Type(Type::A), false);
    assert_eq!(message.header, Header::new(0x0a0b, DEFAULT_QUERY_FLAG, 1, 0, 0, 0));
    assert!(!message.bypass_gfw);
}

#[test]
fn request_is_the_query_on_the_wire() {
    let client = DNSClient::new("0.0.0.0:9877");
    let request = client.request("glow.mmf.moe", QType::Type(Type::AAAA), true);
    let mut expected = vec![1, 0, 0, 2, 0, 0, 0, 0, 0, 0];
    expected.extend_from_slice(&[0xc0, 0x12, 0, 28, 0, 1]);
    expected.extend_from_slice(b"\x04glow\x03mmf\x03moe\x00\x00\x1c\x00\x01");
    assert_eq!(&request[2..], &expected[..]);
    let request = client.request("glow.mmf.moe", QType::Type(Type::A), false);
    let mut expected = vec![1, 0, 0, 1, 0, 0, 0, 0, 0, 0];
    expected.extend_from_slice(b"\x04glow\x03mmf\x03moe\x00\x00\x01\x00\x01");
    assert_eq!(&request[2..], &expected[..]);
}

#[test]
fn written_query_is_read_back() {
    for bypass in [false, true] {
        let mut message = Message::new(query_header(0x1f2e), bypass);
        message.add_question(Question::new("example.com", QType::Type(Type::A)));
        message.add_question(Question::new("glow.mmf.moe", QType::ANY));
        let read = Message::from(&message.to_raw()).unwrap();
        assert_eq!(read.header, message.header);
        assert!(read.answers.is_empty());
        assert!(!read.bypass_gfw);
        let mut expected = Vec::new();
        if bypass {
            expected.push(Question::new("example.com.", QType::Type(Type::A)));
        }
        expected.push(Question::new("example.com.", QType::Type(Type::A)));
        expected.push(Question::new("glow.mmf.moe.", QType::ANY));
        assert_eq!(read.questions, expected);
    }
}

#[test]
fn message_that_counts_a_decoy_without_a_question_is_not_read_back() {
    let message = Message::new(query_header(9), true);
    assert_eq!(Message::from(&message.to_raw()).err(), Some(Error::MalformedName));
}
