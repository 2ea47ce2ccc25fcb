use bytes::BytesMut;
use glow::dns::class::Class;
use glow::dns::class::QClass;
use glow::dns::error::Error;
use glow::dns::question::Question;
use glow::dns::types::QType;
use glow::dns::types::Type;

#[test]
fn new_question_is_in_the_internet_class() {
    let question = Question::new("example.com", QType::Type(Type::AAAA));
    assert_eq!(question.q_name, "example.com");
    assert_eq!(question.q_type, QType::Type(Type::AAAA));
    assert_eq!(question.q_class, QClass::Class(Class::IN));
}

#[test]
fn question_is_written_as_name_type_class() {
    let question = Question::new("example.com", QType::Type(Type::A));
    assert_eq!(&question.to_raw()[..], b"\x07example\x03com\x00\x00\x01\x00\x01");
    let question = Question {
        q_name: "a.b".to_string(),
        q_type: QType::ANY,
        q_class: QClass::Class(Class::CH),
    };
    assert_eq!(&question.to_raw()[..], b"\x01a\x01b\x00\x00\xff\x00\x03");
    let question = Question {
        q_name: "a".to_string(),
        q_type: QType::Type(Type::Unknown(0x1234)),
        q_class: QClass::ANY,
    };
    assert_eq!(&question.to_raw()[..], b"\x01a\x00\x12\x34\x00\xff");
}

#[test]
fn question_is_appended_and_the_buffer_handed_back() {
    let question = Question::new("a", QType::Type(Type::MX));
    let mut buf = BytesMut::new();
    buf.extend_from_slice(&[7]);
    let same = question.append_to(&mut buf);
    same.extend_from_slice(&[9]);
    assert_eq!(&buf[..], b"\x07\x01a\x00\x00\x0f\x00\x01\x09");
}

#[test]
fn decoy_is_a_pointer_to_offset_18() {
    let question = Question::new("example.com", QType::Type(Type::AAAA));
    let mut buf = BytesMut::new();
    question.append_gfw(&mut buf);
    assert_eq!(&buf[..], &[0xc0, 0x12, 0, 28, 0, 1]);
    let again = question.append_gfw(&mut buf);
    assert_eq!(again.len(), 12);
    assert_eq!(&buf[6..], &[0xc0, 0x12, 0, 28, 0, 1]);
}

#[test]
fn question_is_read_with_its_length() {
    let raw = b"\xff\x07example\x03com\x00\x00\x1c\x00\x01\xff";
    let (question, used) = Question::parse(raw, 1).unwrap();
    assert_eq!(question.q_name, "example.com.");
    assert_eq!(question.q_type, QType::Type(Type::AAAA));
    assert_eq!(question.q_class, QClass::Class(Class::IN));
    assert_eq!(used, 17);
}

#[test]
fn question_round_trip_keeps_type_and_class_and_the_name_with_a_dot() {
    let types = [
        QType::Type(Type::A),
        QType::Type(Type::AAAA),
        QType::Type(Type::Unknown(4660)),
        QType::AXFR,
        QType::ANY,
    ];
    let classes = [QClass::Class(Class::IN), QClass::Class(Class::HS), QClass::ANY];
    for name in ["example.com", "a", "glow.mmf.moe", "\u{e9}t\u{e9}.fr"] {
        for q_type in types {
            for q_class in classes {
                let question = Question { q_name: name.to_string(), q_type, q_class };
                let raw = question.to_raw();
                let (read, used) = Question::parse(&raw, 0).unwrap();
                assert_eq!(used, raw.len());
                assert_eq!(read.q_name, format!("{}.", name));
                assert_eq!(read.q_type, q_type);
                assert_eq!(read.q_class, q_class);
            }
        }
    }
}

#[test]
fn question_round_trip_is_exact_for_a_rooted_name_and_zero_codes() {
    for name in ["a.", "example.com.", ""] {
        let question = Question {
            q_name: name.to_string(),
            q_type: QType::Type(Type::Unknown(0)),
            q_class: QClass::Class(Class::Unknown(0)),
        };
        let raw = question.to_raw();
        let (read, used) = Question::parse(&raw, 0).unwrap();
        assert_eq!(read, question);
        assert_eq!(used, raw.len() - 1);
    }
}

#[test]
fn rooted_name_shifts_type_and_class_by_one_byte() {
    let question = Question::new("example.com.", QType::Type(Type::A));
    let raw = question.to_raw();
    assert_eq!(&raw[..], b"\x07example\x03com\x00\x00\x00\x01\x00\x01");
    let (read, used) = Question::parse(&raw, 0).unwrap();
    assert_eq!(read.q_name, "example.com.");
    assert_eq!(read.q_type, QType::Type(Type::Unknown(0)));
    assert_eq!(read.q_class, QClass::Class(Class::Unknown(256)));
    assert_eq!(used, 17);
}

#[test]
fn two_questions_with_one_name_the_second_by_pointer() {
    let mut raw = vec![0u8; 12];
    raw.extend_from_slice(b"\x07example\x03com\x00\x00\x01\x00\x01");
    raw.extend_from_slice(&[0xc0, 12, 0, 28, 0, 1]);
    let (first, first_used) = Question::parse(&raw, 12).unwrap();
    let (second, second_used) = Question::parse(&raw, 12 + first_used).unwrap();
    assert_eq!(first_used, 17);
    assert_eq!(second_used, 6);
    assert_eq!(first.q_name, "example.com.");
    assert_eq!(second.q_name, first.q_name);
    assert_eq!(first.q_type, QType::Type(Type::A));
    assert_eq!(second.q_type, QType::Type(Type::AAAA));
}

#[test]
fn question_cut_short_is_a_length_error() {
    assert_eq!(Question::parse(b"\x01a\x00\x00\x01\x00", 0), Err(Error::Length));
    assert_eq!(Question::parse(b"\x01a\x00", 0), Err(Error::Length));
    assert!(Question::parse(b"\x01a\x00\x00\x01\x00\x01", 0).is_ok());
}

#[test]
fn question_with_a_bad_name_is_malformed() {
    assert_eq!(Question::parse(b"\x05a\x00\x00\x01\x00\x01", 0), Err(Error::MalformedName));
    assert_eq!(Question::parse(&[0xc0, 0, 0, 1, 0, 1], 0), Err(Error::MalformedName));
    assert_eq!(Question::parse(&[], 0), Err(Error::MalformedName));
    assert_eq!(Question::parse(&[0], 3), Err(Error::MalformedName));
}
