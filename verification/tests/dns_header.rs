use glow::dns::error::Error;
use glow::dns::header::FlagOpCode;
use glow::dns::header::FlagRCode;
use glow::dns::header::Header;
use glow::dns::header::HeaderFlag;
use glow::dns::header::HeaderFlagBuilder;
use glow::dns::header::DEFAULT_QUERY_FLAG;

#[test]
fn header_is_written_big_endian() {
    let header = Header::new(0x1234, 0x0100, 1, 2, 3, 0x0405);
    let raw = header.to_raw();
    assert_eq!(&raw[..], &[0x12, 0x34, 0x01, 0x00, 0, 1, 0, 2, 0, 3, 4, 5]);
    let raw: bytes::BytesMut = header.into();
    assert_eq!(&raw[..], &[0x12, 0x34, 0x01, 0x00, 0, 1, 0, 2, 0, 3, 4, 5]);
}

#[test]
fn header_round_trip() {
    let headers = [
        Header::new(0, 0, 0, 0, 0, 0),
        Header::new(0xffff, 0xffff, 0xffff, 0xffff, 0xffff, 0xffff),
        Header::new(0xbeef, 0x8183, 1, 0, 1, 0),
        Header::new(1, 2, 3, 4, 5, 6),
    ];
    for header in headers {
        let raw = header.to_raw();
        assert_eq!(raw.len(), 12);
        assert_eq!(Header::from(&raw[..]), Ok(header));
        assert_eq!(Header::from_vec(raw.to_vec()), Some(header));
    }
}

#[test]
fn header_is_read_from_the_first_twelve_bytes() {
    let raw = [0xab, 0xcd, 0x81, 0x80, 0, 1, 0, 2, 0, 0, 0, 0, 0xff, 0xff];
    let header = Header::from(&raw).unwrap();
    assert_eq!(header, Header::new(0xabcd, 0x8180, 1, 2, 0, 0));
    assert_eq!(header.id, 0xabcd);
    assert_eq!(header.qd_count, 1);
    assert_eq!(header.an_count, 2);
}

#[test]
fn short_header_is_a_length_error() {
    assert_eq!(Header::from(&[]), Err(Error::Length));
    assert_eq!(Header::from(&[0; 11]), Err(Error::Length));
    assert_eq!(Header::from_vec(vec![0; 11]), None);
    assert_eq!(Header::from_vec(Vec::new()), None);
    assert!(Header::from(&[0; 12]).is_ok());
    assert!(Header::from_vec(vec![0; 12]).is_some());
}

#[test]
fn flags_decode_of_the_default_query() {
    let flags = HeaderFlag::from(0b0000000100000000);
    assert_eq!(
        flags,
        HeaderFlag {
            is_response: false,
            opcode: FlagOpCode::Query,
            authoritative_answer: false,
            truncated: false,
            recursion_desired: true,
            recursion_available: false,
            rcode: FlagRCode::NoError,
        }
    );
    assert_eq!(flags, HeaderFlag::default());
    assert_eq!(DEFAULT_QUERY_FLAG, 0b0000000100000000);
}

#[test]
fn flags_decode_reads_every_field() {
    let flags = HeaderFlag::from(0b1_0010_1_1_0_1_000_0011);
    assert_eq!(
        flags,
        HeaderFlag {
            is_response: true,
            opcode: FlagOpCode::Status,
            authoritative_answer: true,
            truncated: true,
            recursion_desired: false,
            recursion_available: true,
            rcode: FlagRCode::NameError,
        }
    );
    let flags = HeaderFlag::from(0xffff);
    assert_eq!(flags.opcode, FlagOpCode::Reserved(15));
    assert_eq!(flags.rcode, FlagRCode::Reserved(15));
    let flags = HeaderFlag::from(0b0_0000_0_0_0_0_111_0000);
    assert_eq!(flags, HeaderFlag { recursion_desired: false, ..HeaderFlag::default() });
}

#[test]
fn header_knows_query_from_response() {
    let query = Header::new(1, 0x0100, 1, 0, 0, 0);
    assert!(query.is_query());
    assert!(!query.is_response());
    assert!(!query.flag().is_response);
    let response = Header::new(1, 0x8180, 1, 1, 0, 0);
    assert!(!response.is_query());
    assert!(response.is_response());
    assert!(response.flag().is_response);
    assert!(response.flag().recursion_available);
}

#[test]
fn default_header_is_an_empty_query() {
    let header = Header::default();
    assert_eq!(header.flag, DEFAULT_QUERY_FLAG);
    assert_eq!(header.qd_count, 0);
    assert_eq!(header.an_count, 0);
    assert_eq!(header.ns_count, 0);
    assert_eq!(header.ar_count, 0);
    assert_eq!(header.flag(), HeaderFlag::default());
}

#[test]
fn default_headers_draw_their_ids() {
    let first = Header::default().id;
    let mut differs = false;
    for _ in 0..64 {
        if Header::default().id != first {
            differs = true;
        }
    }
    assert!(differs);
}

#[test]
fn builder_starts_at_zero() {
    assert_eq!(HeaderFlagBuilder::new().build(), 0);
}

#[test]
fn builder_sets_single_bits() {
    assert_eq!(HeaderFlagBuilder::new().qr_response().build(), 0x8000);
    assert_eq!(HeaderFlagBuilder::new().aa_on().build(), 0x0400);
    assert_eq!(HeaderFlagBuilder::new().tc_on().build(), 0x0200);
    assert_eq!(HeaderFlagBuilder::new().rd_on().build(), 0x0100);
    assert_eq!(HeaderFlagBuilder::new().ra_on().build(), 0x0080);
    assert_eq!(HeaderFlagBuilder::new().qr_response().qr_query().build(), 0);
    assert_eq!(HeaderFlagBuilder::new().rd_on().build(), DEFAULT_QUERY_FLAG);
}

#[test]
fn builder_writes_opcodes() {
    assert_eq!(HeaderFlagBuilder::new().op_standard_query().build(), 0x0000);
    assert_eq!(HeaderFlagBuilder::new().op_inverse_query().build(), 0x0800);
    assert_eq!(HeaderFlagBuilder::new().op_status_request().build(), 0x1000);
    assert_eq!(HeaderFlagBuilder::new().op_reversed().build(), 0x7800);
    assert_eq!(HeaderFlagBuilder::new().op_reversed().op_inverse_query().build(), 0x0800);
    assert_eq!(HeaderFlagBuilder::new().op_reversed().op_standard_query().build(), 0);
}

#[test]
fn builder_writes_response_codes() {
    assert_eq!(HeaderFlagBuilder::new().rcode_no_error().build(), 0);
    assert_eq!(HeaderFlagBuilder::new().rcode_format_error().build(), 1);
    assert_eq!(HeaderFlagBuilder::new().rcode_server_failure().build(), 2);
    assert_eq!(HeaderFlagBuilder::new().rcode_name_error().build(), 3);
    assert_eq!(HeaderFlagBuilder::new().rcode_not_implemented().build(), 4);
    assert_eq!(HeaderFlagBuilder::new().rcode_refused().build(), 5);
    assert_eq!(HeaderFlagBuilder::new().rcode_reversed().build(), 6);
    assert_eq!(HeaderFlagBuilder::new().rcode_refused().rcode_server_failure().build(), 2);
}

#[test]
fn builder_clears_the_reserved_bits() {
    let mut builder = HeaderFlagBuilder { flag: 0xffff };
    assert_eq!(builder.zf().build(), 0xff8f);
    assert_eq!(builder.flag, 0xff8f);
}

#[test]
fn builder_chains_and_is_read_back() {
    let mut builder = HeaderFlagBuilder::new();
    let word = builder
        .qr_response()
        .op_status_request()
        .aa_on()
        .rd_on()
        .ra_on()
        .zf()
        .rcode_name_error()
        .build();
    assert_eq!(word, 0x9583);
    assert_eq!(builder.build(), 0x9583);
    assert_eq!(
        HeaderFlag::from(word),
        HeaderFlag {
            is_response: true,
            opcode: FlagOpCode::Status,
            authoritative_answer: true,
            truncated: false,
            recursion_desired: true,
            recursion_available: true,
            rcode: FlagRCode::NameError,
        }
    );
}
