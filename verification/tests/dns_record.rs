use glow::dns::class::Class;
use glow::dns::error::Error;
use glow::dns::record::RData;
use glow::dns::record::ResourceRecord;
use glow::dns::traits::EncodeRData;
use glow::dns::types::Type;

fn record(name: &[u8], r_type: u16, class: u16, ttl: u32, rdata: &[u8]) -> Vec<u8> {
    let mut raw = name.to_vec();
    raw.extend_from_slice(&r_type.to_be_bytes());
    raw.extend_from_slice(&class.to_be_bytes());
    raw.extend_from_slice(&ttl.to_be_bytes());
    raw.extend_from_slice(&(rdata.len() as u16).to_be_bytes());
    raw.extend_from_slice(rdata);
    raw
}

#[test]
fn a_record_is_read() {
    let raw = record(b"\x07example\x03com\x00", 1, 1, 300, &[93, 184, 216, 34]);
    let (answer, used) = ResourceRecord::parse(&raw, 0).unwrap();
    assert_eq!(used, raw.len());
    assert_eq!(used, 27);
    assert_eq!(
        answer,
        ResourceRecord {
            name: "example.com.".to_string(),
            r_type: Type::A,
            class: Class::IN,
            ttl: 300,
            rd_length: 4,
            r_data: RData::A([93, 184, 216, 34]),
        }
    );
}

#[test]
fn aaaa_record_pairs_its_bytes_into_groups() {
    let data = [0x26, 0x06, 0x47, 0x00, 0x00, 0x20, 0, 0, 0, 0, 0, 0, 0xac, 0x43, 0x45, 0xa9];
    let raw = record(b"\x01a\x00", 28, 1, 0x01020304, &data);
    let (answer, used) = ResourceRecord::parse(&raw, 0).unwrap();
    assert_eq!(used, 3 + 10 + 16);
    assert_eq!(answer.r_type, Type::AAAA);
    assert_eq!(answer.ttl, 0x01020304);
    assert_eq!(answer.rd_length, 16);
    assert_eq!(answer.r_data, RData::AAAA([0x2606, 0x4700, 0x20, 0, 0, 0, 0xac43, 0x45a9]));
}

#[test]
fn time_to_live_is_read_big_endian() {
    for ttl in [0u32, 1, 255, 256, 65535, 65536, 0x7fffffff, u32::MAX] {
        let raw = record(b"\x00", 1, 1, ttl, &[1, 2, 3, 4]);
        assert_eq!(ResourceRecord::parse(&raw, 0).unwrap().0.ttl, ttl);
    }
}

#[test]
fn other_types_are_read_as_unknown_and_their_data_is_skipped() {
    let mut raw = record(b"\x01a\x00", 5, 1, 60, b"\x01b\x00");
    raw.extend_from_slice(&record(b"\xc0\x00", 1, 1, 60, &[10, 0, 0, 1]));
    let (first, first_used) = ResourceRecord::parse(&raw, 0).unwrap();
    assert_eq!(first.r_type, Type::CNAME);
    assert_eq!(first.r_data, RData::Unknown);
    assert_eq!(first.rd_length, 3);
    assert_eq!(first_used, 3 + 10 + 3);
    let (second, second_used) = ResourceRecord::parse(&raw, first_used).unwrap();
    assert_eq!(second.name, "a.");
    assert_eq!(second.r_data, RData::A([10, 0, 0, 1]));
    assert_eq!(second_used, 2 + 10 + 4);
    assert_eq!(first_used + second_used, raw.len());
}

#[test]
fn unknown_type_codes_are_read_as_unknown() {
    let raw = record(b"\x00", 99, 7, 0, &[1, 2, 3, 4, 5]);
    let (answer, used) = ResourceRecord::parse(&raw, 0).unwrap();
    assert_eq!(answer.r_type, Type::Unknown(99));
    assert_eq!(answer.class, Class::Unknown(7));
    assert_eq!(answer.r_data, RData::Unknown);
    assert_eq!(used, 1 + 10 + 5);
    let raw = record(b"\x00", 16, 1, 0, &[]);
    let (answer, used) = ResourceRecord::parse(&raw, 0).unwrap();
    assert_eq!(answer.r_type, Type::TXT);
    assert_eq!(answer.r_data, RData::Unknown);
    assert_eq!(used, 11);
}

#[test]
fn record_cut_short_is_a_length_error() {
    let raw = record(b"\x01a\x00", 1, 1, 60, &[1, 2, 3, 4]);
    for cut in 3..raw.len() {
        assert_eq!(ResourceRecord::parse(&raw[..cut], 0), Err(Error::Length));
    }
    for cut in 0..3 {
        assert_eq!(ResourceRecord::parse(&raw[..cut], 0), Err(Error::MalformedName));
    }
    assert!(ResourceRecord::parse(&raw, 0).is_ok());
    let raw = record(b"\x00", 5, 1, 60, &[1, 2, 3]);
    assert_eq!(ResourceRecord::parse(&raw[..raw.len() - 1], 0), Err(Error::Length));
}

#[test]
fn address_of_the_wrong_length_is_malformed() {
    let raw = record(b"\x00", 1, 1, 60, &[1, 2, 3]);
    assert_eq!(ResourceRecord::parse(&raw, 0), Err(Error::MalformedMessage));
    let raw = record(b"\x00", 1, 1, 60, &[1, 2, 3, 4, 5]);
    assert_eq!(ResourceRecord::parse(&raw, 0), Err(Error::MalformedMessage));
    let raw = record(b"\x00", 28, 1, 60, &[0; 4]);
    assert_eq!(ResourceRecord::parse(&raw, 0), Err(Error::MalformedMessage));
    let raw = record(b"\x00", 28, 1, 60, &[0; 17]);
    assert_eq!(ResourceRecord::parse(&raw, 0), Err(Error::MalformedMessage));
}

#[test]
fn data_is_decoded_by_type() {
    let raw = [9, 1, 2, 3, 4, 9];
    assert_eq!(RData::decode(Type::A, &raw, 1, 4), Ok(RData::A([1, 2, 3, 4])));
    assert_eq!(RData::decode(Type::A, &raw, 1, 3), Err(Error::MalformedMessage));
    assert_eq!(RData::decode(Type::A, &raw, 3, 4), Err(Error::Length));
    assert_eq!(RData::decode(Type::A, &raw, 7, 0), Err(Error::Length));
    assert_eq!(RData::decode(Type::NS, &raw, 0, 6), Ok(RData::Unknown));
    assert_eq!(RData::decode(Type::NS, &raw, 0, 7), Err(Error::Length));
    assert_eq!(RData::decode(Type::AAAA, &raw, 0, 6), Err(Error::MalformedMessage));
    let raw: Vec<u8> = (0..16).collect();
    assert_eq!(
        RData::decode(Type::AAAA, &raw, 0, 16),
        Ok(RData::AAAA([0x0001, 0x0203, 0x0405, 0x0607, 0x0809, 0x0a0b, 0x0c0d, 0x0e0f]))
    );
}

#[test]
fn data_is_encoded_as_it_stands_on_the_wire() {
    assert_eq!(&RData::A([93, 184, 216, 34]).encode()[..], &[93, 184, 216, 34]);
    let groups = [0x2606, 0x4700, 0x20, 0, 0, 0, 0xac43, 0x45a9];
    assert_eq!(
        &RData::AAAA(groups).encode()[..],
        &[0x26, 0x06, 0x47, 0x00, 0x00, 0x20, 0, 0, 0, 0, 0, 0, 0xac, 0x43, 0x45, 0xa9]
    );
    assert!(RData::Unknown.encode().is_empty());
    assert_eq!(&EncodeRData::encode(&RData::A([1, 2, 3, 4]))[..], &[1, 2, 3, 4]);
}

#[test]
fn encoded_address_is_decoded_again() {
    let data = RData::A([192, 0, 2, 1]);
    assert_eq!(RData::decode(Type::A, &data.encode(), 0, 4), Ok(data));
    let data = RData::AAAA([0x2001, 0xdb8, 0, 0, 0, 0, 0, 1]);
    assert_eq!(RData::decode(Type::AAAA, &data.encode(), 0, 16), Ok(data));
}
