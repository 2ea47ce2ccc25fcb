//! The fixed 12-byte header of a DNS message and its flags word.
//!
//! The header is six 16-bit fields, each written most significant byte
//! first: the transaction id, the flags, and the numbers of entries in the
//! four sections. The flags word, read from its most significant bit, is
//! `QR(1) OPCODE(4) AA(1) TC(1) RD(1) RA(1) Z(3) RCODE(4)`.

use crate::binary::bit_of;
use crate::binary::bits_of;
use crate::binary::get_bit;
use crate::binary::get_bits;
use crate::binary::lemma_four_bits;
use crate::binary::merged;
use crate::binary::set_bit;
use crate::binary::u8_merge;
use crate::binary::with_bit;
use crate::binary::with_bits;
use crate::dns::buffer::be16;
use crate::dns::buffer::buf_bytes;
use crate::dns::buffer::put_u16;
use crate::dns::buffer::with_capacity;
use crate::dns::error::Error;
use bytes::BytesMut;
use vstd::prelude::*;
use vstd::std_specs::convert::FromSpecImpl;

verus! {

/// The length of a header on the wire.
pub const HEADER_LEN: usize = 12;

/// The flags of a query that asks for recursion: all bits clear but RD.
pub const DEFAULT_QUERY_FLAG: u16 = 0x0100;

/// The kind of query, a four-bit field that the reply copies.
#[derive(Clone, Copy, Debug, PartialEq, Eq, Structural)]
pub enum FlagOpCode {
    /// 0 a standard query
    Query,
    /// 1 an inverse query
    IQuery,
    /// 2 a server status request
    Status,
    /// 3 to 15, reserved; the code is kept as it was read
    Reserved(u16),
}

impl FlagOpCode {
    /// The kind of query that a code stands for.
    pub open spec fn of_code(code: u16) -> FlagOpCode {
        if code == 0 {
            FlagOpCode::Query
        } else if code == 1 {
            FlagOpCode::IQuery
        } else if code == 2 {
            FlagOpCode::Status
        } else {
            FlagOpCode::Reserved(code)
        }
    }
}

impl From<u16> for FlagOpCode {
    fn from(code: u16) -> (r: FlagOpCode) {
        match code {
            0 => FlagOpCode::Query,
            1 => FlagOpCode::IQuery,
            2 => FlagOpCode::Status,
            _ => FlagOpCode::Reserved(code),
        }
    }
}

impl FromSpecImpl<u16> for FlagOpCode {
    open spec fn obeys_from_spec() -> bool {
        true
    }

    open spec fn from_spec(code: u16) -> FlagOpCode {
        FlagOpCode::of_code(code)
    }
}

/// The response code, a four-bit field set by the resolver.
#[derive(Clone, Copy, Debug, PartialEq, Eq, Structural)]
pub enum FlagRCode {
    /// 0 no error condition
    NoError,
    /// 1 the resolver was unable to interpret the query
    FormatError,
    /// 2 the resolver was unable to process the query
    ServerFailure,
    /// 3 the queried name does not exist
    NameError,
    /// 4 the resolver does not support this kind of query
    NotImplemented,
    /// 5 the resolver refuses to answer
    Refused,
    /// 6 to 15, reserved; the code is kept as it was read
    Reserved(u16),
}

impl FlagRCode {
    /// The response code that a number stands for.
    pub open spec fn of_code(code: u16) -> FlagRCode {
        if code == 0 {
            FlagRCode::NoError
        } else if code == 1 {
            FlagRCode::FormatError
        } else if code == 2 {
            FlagRCode::ServerFailure
        } else if code == 3 {
            FlagRCode::NameError
        } else if code == 4 {
            FlagRCode::NotImplemented
        } else if code == 5 {
            FlagRCode::Refused
        } else {
            FlagRCode::Reserved(code)
        }
    }

    /// The name of a response code.
    pub open spec fn spec_name(self) -> Seq<char> {
        match self {
            FlagRCode::NoError => "NoError"@,
            FlagRCode::FormatError => "FormatError"@,
            FlagRCode::ServerFailure => "ServerFailure"@,
            FlagRCode::NameError => "NameError"@,
            FlagRCode::NotImplemented => "NotImplemented"@,
            FlagRCode::Refused => "Refused"@,
            FlagRCode::Reserved(_) => "Reserved"@,
        }
    }

    /// The failure that a response code reports: none for `NoError`, and
    /// `Unknown` for a reserved code.
    pub open spec fn spec_error(self) -> Option<Error> {
        match self {
            FlagRCode::NoError => None,
            FlagRCode::FormatError => Some(Error::FormatError),
            FlagRCode::ServerFailure => Some(Error::ServerFailure),
            FlagRCode::NameError => Some(Error::NameError),
            FlagRCode::NotImplemented => Some(Error::NotImplemented),
            FlagRCode::Refused => Some(Error::Refused),
            FlagRCode::Reserved(_) => Some(Error::Unknown),
        }
    }

    /// The failure that this response code reports, if it reports one.
    pub fn error(&self) -> (r: Option<Error>)
        ensures
            r == self.spec_error(),
    {
        match self {
            FlagRCode::NoError => None,
            FlagRCode::FormatError => Some(Error::FormatError),
            FlagRCode::ServerFailure => Some(Error::ServerFailure),
            FlagRCode::NameError => Some(Error::NameError),
            FlagRCode::NotImplemented => Some(Error::NotImplemented),
            FlagRCode::Refused => Some(Error::Refused),
            FlagRCode::Reserved(_) => Some(Error::Unknown),
        }
    }
}

impl From<u16> for FlagRCode {
    fn from(code: u16) -> (r: FlagRCode) {
        match code {
            0 => FlagRCode::NoError,
            1 => FlagRCode::FormatError,
            2 => FlagRCode::ServerFailure,
            3 => FlagRCode::NameError,
            4 => FlagRCode::NotImplemented,
            5 => FlagRCode::Refused,
            _ => FlagRCode::Reserved(code),
        }
    }
}

impl FromSpecImpl<u16> for FlagRCode {
    open spec fn obeys_from_spec() -> bool {
        true
    }

    open spec fn from_spec(code: u16) -> FlagRCode {
        FlagRCode::of_code(code)
    }
}

impl From<FlagRCode> for String {
    fn from(code: FlagRCode) -> (r: String)
        ensures
            r@ == code.spec_name(),
    {
        match code {
            FlagRCode::NoError => "NoError".to_owned(),
            FlagRCode::FormatError => "FormatError".to_owned(),
            FlagRCode::ServerFailure => "ServerFailure".to_owned(),
            FlagRCode::NameError => "NameError".to_owned(),
            FlagRCode::NotImplemented => "NotImplemented".to_owned(),
            FlagRCode::Refused => "Refused".to_owned(),
            FlagRCode::Reserved(_) => "Reserved".to_owned(),
        }
    }
}

impl FromSpecImpl<FlagRCode> for String {
    open spec fn obeys_from_spec() -> bool {
        false
    }

    open spec fn from_spec(code: FlagRCode) -> String {
        arbitrary()
    }
}

/// The flags word of a header, field by field.
#[derive(Clone, Copy, Debug, PartialEq, Eq, Structural)]
pub struct HeaderFlag {
    /// Whether the message is a response (1) or a query (0).
    pub is_response: bool,
    pub opcode: FlagOpCode,
    /// Whether the responding server is an authority for the name asked for.
    pub authoritative_answer: bool,
    /// Whether the message was cut short to fit the channel.
    pub truncated: bool,
    /// Whether the resolver is asked to pursue the query recursively.
    pub recursion_desired: bool,
    /// Whether the resolver offers recursion.
    pub recursion_available: bool,
    pub rcode: FlagRCode,
}

impl HeaderFlag {
    /// The flags that a flags word holds. The three reserved bits are not
    /// read.
    pub open spec fn of_word(flag: u16) -> HeaderFlag {
        HeaderFlag {
            is_response: bit_of(flag, 0) == 1,
            opcode: FlagOpCode::of_code(bits_of(flag, 1, 4)),
            authoritative_answer: bit_of(flag, 5) == 1,
            truncated: bit_of(flag, 6) == 1,
            recursion_desired: bit_of(flag, 7) == 1,
            recursion_available: bit_of(flag, 8) == 1,
            rcode: FlagRCode::of_code(bits_of(flag, 12, 4)),
        }
    }

    /// The flags of a query that asks for recursion.
    pub open spec fn query() -> HeaderFlag {
        HeaderFlag {
            is_response: false,
            opcode: FlagOpCode::Query,
            authoritative_answer: false,
            truncated: false,
            recursion_desired: true,
            recursion_available: false,
            rcode: FlagRCode::NoError,
        }
    }

    /// The default flags word holds the flags of a query that asks for
    /// recursion.
    pub proof fn lemma_default_query_flag()
        ensures
            HeaderFlag::of_word(DEFAULT_QUERY_FLAG) == HeaderFlag::query(),
    {
        assert(bit_of(0x0100u16, 0) == 0 && bits_of(0x0100u16, 1, 4) == 0 && bit_of(0x0100u16, 5)
            == 0 && bit_of(0x0100u16, 6) == 0 && bit_of(0x0100u16, 7) == 1 && bit_of(0x0100u16, 8)
            == 0 && bits_of(0x0100u16, 12, 4) == 0) by (bit_vector);
    }
}

impl From<u16> for HeaderFlag {
    fn from(flag: u16) -> (r: HeaderFlag) {
        HeaderFlag {
            is_response: get_bit(flag, 0) == 1,
            opcode: FlagOpCode::from(get_bits(flag, 1, 4)),
            authoritative_answer: get_bit(flag, 5) == 1,
            truncated: get_bit(flag, 6) == 1,
            recursion_desired: get_bit(flag, 7) == 1,
            recursion_available: get_bit(flag, 8) == 1,
            rcode: FlagRCode::from(get_bits(flag, 12, 4)),
        }
    }
}

impl FromSpecImpl<u16> for HeaderFlag {
    open spec fn obeys_from_spec() -> bool {
        true
    }

    open spec fn from_spec(flag: u16) -> HeaderFlag {
        HeaderFlag::of_word(flag)
    }
}

impl Default for HeaderFlag {
    fn default() -> (r: HeaderFlag)
        ensures
            r == HeaderFlag::query(),
    {
        HeaderFlag {
            is_response: false,
            opcode: FlagOpCode::Query,
            authoritative_answer: false,
            truncated: false,
            recursion_desired: true,
            recursion_available: false,
            rcode: FlagRCode::NoError,
        }
    }
}

/// Builds a flags word field by field, starting from all bits clear.
#[derive(Clone, Copy, Debug, PartialEq, Eq, Structural)]
pub struct HeaderFlagBuilder {
    /// The flags word as built so far.
    pub flag: u16,
}

impl HeaderFlagBuilder {
    /// A builder whose flags word has all bits clear.
    pub fn new() -> (builder: HeaderFlagBuilder)
        ensures
            builder.flag == 0,
    {
        HeaderFlagBuilder { flag: 0 }
    }

    /// The flags word as built so far.
    pub fn build(&self) -> (flag: u16)
        ensures
            flag == self.flag,
    {
        self.flag
    }

    /// Writes the four bits from `offset` on, most significant first.
    fn set_four(&mut self, offset: u8, b3: bool, b2: bool, b1: bool, b0: bool)
        requires
            offset <= 12,
        ensures
            final(self).flag == with_bits(
                old(self).flag,
                offset,
                4,
                ((if b3 { 8u16 } else { 0u16 }) + (if b2 { 4u16 } else { 0u16 }) + (if b1 {
                    2u16
                } else {
                    0u16
                }) + (if b0 { 1u16 } else { 0u16 })) as u16,
            ),
    {
        proof {
            lemma_four_bits(self.flag, offset, b3, b2, b1, b0);
        }
        self.flag = set_bit(self.flag, offset, b3);
        self.flag = set_bit(self.flag, offset + 1, b2);
        self.flag = set_bit(self.flag, offset + 2, b1);
        self.flag = set_bit(self.flag, offset + 3, b0);
    }

    /// Marks the message as a query: clears the QR bit.
    pub fn qr_query(&mut self) -> (builder: &mut HeaderFlagBuilder)
        ensures
            builder.flag == with_bit(old(self).flag, 0, false),
            *final(self) == *final(builder),
    {
        self.flag = set_bit(self.flag, 0, false);
        self
    }

    /// Marks the message as a response: sets the QR bit.
    pub fn qr_response(&mut self) -> (builder: &mut HeaderFlagBuilder)
        ensures
            builder.flag == with_bit(old(self).flag, 0, true),
            *final(self) == *final(builder),
    {
        self.flag = set_bit(self.flag, 0, true);
        self
    }

    /// Sets the AA bit: the responding server is an authority for the name.
    pub fn aa_on(&mut self) -> (builder: &mut HeaderFlagBuilder)
        ensures
            builder.flag == with_bit(old(self).flag, 5, true),
            *final(self) == *final(builder),
    {
        self.flag = set_bit(self.flag, 5, true);
        self
    }

    /// Sets the TC bit: the message was cut short.
    pub fn tc_on(&mut self) -> (builder: &mut HeaderFlagBuilder)
        ensures
            builder.flag == with_bit(old(self).flag, 6, true),
            *final(self) == *final(builder),
    {
        self.flag = set_bit(self.flag, 6, true);
        self
    }

    /// Sets the RD bit: the resolver is asked to recurse.
    pub fn rd_on(&mut self) -> (builder: &mut HeaderFlagBuilder)
        ensures
            builder.flag == with_bit(old(self).flag, 7, true),
            *final(self) == *final(builder),
    {
        self.flag = set_bit(self.flag, 7, true);
        self
    }

    /// Sets the RA bit: the resolver offers recursion.
    pub fn ra_on(&mut self) -> (builder: &mut HeaderFlagBuilder)
        ensures
            builder.flag == with_bit(old(self).flag, 8, true),
            *final(self) == *final(builder),
    {
        self.flag = set_bit(self.flag, 8, true);
        self
    }

    /// Writes opcode 0, a standard query.
    pub fn op_standard_query(&mut self) -> (builder: &mut HeaderFlagBuilder)
        ensures
            builder.flag == with_bits(old(self).flag, 1, 4, 0),
            *final(self) == *final(builder),
    {
        self.set_four(1, false, false, false, false);
        self
    }

    /// Writes opcode 1, an inverse query.
    pub fn op_inverse_query(&mut self) -> (builder: &mut HeaderFlagBuilder)
        ensures
            builder.flag == with_bits(old(self).flag, 1, 4, 1),
            *final(self) == *final(builder),
    {
        self.set_four(1, false, false, false, true);
        self
    }

    /// Writes opcode 2, a server status request.
    pub fn op_status_request(&mut self) -> (builder: &mut HeaderFlagBuilder)
        ensures
            builder.flag == with_bits(old(self).flag, 1, 4, 2),
            *final(self) == *final(builder),
    {
        self.set_four(1, false, false, true, false);
        self
    }

    /// Writes opcode 15, one of the reserved codes.
    pub fn op_reversed(&mut self) -> (builder: &mut HeaderFlagBuilder)
        ensures
            builder.flag == with_bits(old(self).flag, 1, 4, 15),
            *final(self) == *final(builder),
    {
        self.set_four(1, true, true, true, true);
        self
    }

    /// Writes response code 0, no error.
    pub fn rcode_no_error(&mut self) -> (builder: &mut HeaderFlagBuilder)
        ensures
            builder.flag == with_bits(old(self).flag, 12, 4, 0),
            *final(self) == *final(builder),
    {
        self.set_four(12, false, false, false, false);
        self
    }

    /// Writes response code 1, format error.
    pub fn rcode_format_error(&mut self) -> (builder: &mut HeaderFlagBuilder)
        ensures
            builder.flag == with_bits(old(self).flag, 12, 4, 1),
            *final(self) == *final(builder),
    {
        self.set_four(12, false, false, false, true);
        self
    }

    /// Writes response code 2, server failure.
    pub fn rcode_server_failure(&mut self) -> (builder: &mut HeaderFlagBuilder)
        ensures
            builder.flag == with_bits(old(self).flag, 12, 4, 2),
            *final(self) == *final(builder),
    {
        self.set_four(12, false, false, true, false);
        self
    }

    /// Writes response code 3, name error.
    pub fn rcode_name_error(&mut self) -> (builder: &mut HeaderFlagBuilder)
        ensures
            builder.flag == with_bits(old(self).flag, 12, 4, 3),
            *final(self) == *final(builder),
    {
        self.set_four(12, false, false, true, true);
        self
    }

    /// Writes response code 4, not implemented.
    pub fn rcode_not_implemented(&mut self) -> (builder: &mut HeaderFlagBuilder)
        ensures
            builder.flag == with_bits(old(self).flag, 12, 4, 4),
            *final(self) == *final(builder),
    {
        self.set_four(12, false, true, false, false);
        self
    }

    /// Writes response code 5, refused.
    pub fn rcode_refused(&mut self) -> (builder: &mut HeaderFlagBuilder)
        ensures
            builder.flag == with_bits(old(self).flag, 12, 4, 5),
            *final(self) == *final(builder),
    {
        self.set_four(12, false, true, false, true);
        self
    }

    /// Writes response code 6, one of the reserved codes.
    pub fn rcode_reversed(&mut self) -> (builder: &mut HeaderFlagBuilder)
        ensures
            builder.flag == with_bits(old(self).flag, 12, 4, 6),
            *final(self) == *final(builder),
    {
        self.set_four(12, false, true, true, false);
        self
    }

    /// Clears the three reserved bits, which must be zero in every message.
    pub fn zf(&mut self) -> (builder: &mut HeaderFlagBuilder)
        ensures
            builder.flag == with_bits(old(self).flag, 9, 3, 0),
            *final(self) == *final(builder),
    {
        let ghost before = self.flag;
        assert(with_bit(with_bit(with_bit(before, 9, false), 10, false), 11, false) == with_bits(
            before,
            9,
            3,
            0,
        )) by (bit_vector);
        self.flag = set_bit(self.flag, 9, false);
        self.flag = set_bit(self.flag, 10, false);
        self.flag = set_bit(self.flag, 11, false);
        self
    }
}

/// The header of a DNS message.
#[derive(Clone, Copy, Debug, PartialEq, Eq, Structural)]
pub struct Header {
    /// The identifier that the sender of a query picks and the reply copies.
    pub id: u16,
    /// The flags word, as it stands on the wire.
    pub flag: u16,
    /// The number of entries in the question section.
    pub qd_count: u16,
    /// The number of resource records in the answer section.
    pub an_count: u16,
    /// The number of name server records in the authority section.
    pub ns_count: u16,
    /// The number of resource records in the additional section.
    pub ar_count: u16,
}

/// A header on the wire: its six fields, each most significant byte first.
pub open spec fn header_wire(header: Header) -> Seq<u8> {
    be16(header.id) + be16(header.flag) + be16(header.qd_count) + be16(header.an_count) + be16(
        header.ns_count,
    ) + be16(header.ar_count)
}

/// What reading a header from the start of `buf` gives: the six fields, or
/// `Length` where `buf` has fewer than 12 bytes.
pub open spec fn header_at(buf: Seq<u8>) -> Result<Header, Error> {
    if buf.len() < HEADER_LEN {
        Err(Error::Length)
    } else {
        Ok(
            Header {
                id: merged(buf[0], buf[1]),
                flag: merged(buf[2], buf[3]),
                qd_count: merged(buf[4], buf[5]),
                an_count: merged(buf[6], buf[7]),
                ns_count: merged(buf[8], buf[9]),
                ar_count: merged(buf[10], buf[11]),
            },
        )
    }
}

/// A header that is written and read again is the header that it was,
/// whatever follows it in the buffer.
pub proof fn lemma_header_round_trip(header: Header, rest: Seq<u8>)
    ensures
        header_wire(header).len() == HEADER_LEN,
        header_at(header_wire(header) + rest) == Ok::<Header, Error>(header),
{
    let buf = header_wire(header) + rest;
    assert(buf.len() >= HEADER_LEN);
    assert(buf[0] == be16(header.id)[0] && buf[1] == be16(header.id)[1]);
    assert(buf[2] == be16(header.flag)[0] && buf[3] == be16(header.flag)[1]);
    assert(buf[4] == be16(header.qd_count)[0] && buf[5] == be16(header.qd_count)[1]);
    assert(buf[6] == be16(header.an_count)[0] && buf[7] == be16(header.an_count)[1]);
    assert(buf[8] == be16(header.ns_count)[0] && buf[9] == be16(header.ns_count)[1]);
    assert(buf[10] == be16(header.ar_count)[0] && buf[11] == be16(header.ar_count)[1]);
    lemma_merged_be16(header.id);
    lemma_merged_be16(header.flag);
    lemma_merged_be16(header.qd_count);
    lemma_merged_be16(header.an_count);
    lemma_merged_be16(header.ns_count);
    lemma_merged_be16(header.ar_count);
}

/// The two bytes of a 16-bit value, merged, are the value.
pub proof fn lemma_merged_be16(value: u16)
    ensures
        be16(value).len() == 2,
        merged(be16(value)[0], be16(value)[1]) == value,
{
}

/// `rand::random`: a 16-bit number drawn from the thread's generator.
/// Nothing is known of it. The call panics where the operating system gives
/// the generator no seed.
#[verifier::external_body]
fn random_id() -> u16 {
    rand::random()
}

impl Header {
    /// A header with the given fields.
    pub fn new(
        id: u16,
        flag: u16,
        qd_count: u16,
        an_count: u16,
        ns_count: u16,
        ar_count: u16,
    ) -> (header: Header)
        ensures
            header == (Header { id, flag, qd_count, an_count, ns_count, ar_count }),
    {
        Header { id, flag, qd_count, an_count, ns_count, ar_count }
    }

    /// The flags of this header, field by field.
    pub fn flag(&self) -> (r: HeaderFlag)
        ensures
            r == HeaderFlag::of_word(self.flag),
    {
        HeaderFlag::from(self.flag)
    }

    /// Reads a header from the first 12 bytes of `raw`.
    pub fn from(raw: &[u8]) -> (r: Result<Header, Error>)
        ensures
            r == header_at(raw@),
    {
        if raw.len() < HEADER_LEN {
            return Err(Error::Length);
        }
        Ok(
            Header {
                id: u8_merge(raw[0], raw[1]),
                flag: u8_merge(raw[2], raw[3]),
                qd_count: u8_merge(raw[4], raw[5]),
                an_count: u8_merge(raw[6], raw[7]),
                ns_count: u8_merge(raw[8], raw[9]),
                ar_count: u8_merge(raw[10], raw[11]),
            },
        )
    }

    /// Reads a header from the first 12 bytes of `raw`, if it has as many.
    pub fn from_vec(raw: Vec<u8>) -> (r: Option<Header>)
        ensures
            match r {
                Some(header) => header_at(raw@) == Ok::<Header, Error>(header),
                None => raw@.len() < HEADER_LEN,
            },
    {
        match Header::from(raw.as_slice()) {
            Ok(header) => Some(header),
            Err(_) => None,
        }
    }

    /// Writes this header to a new buffer.
    pub fn to_raw(&self) -> (buf: BytesMut)
        ensures
            buf_bytes(buf) == header_wire(*self),
    {
        let mut buf = with_capacity(HEADER_LEN);
        put_u16(&mut buf, self.id);
        put_u16(&mut buf, self.flag);
        put_u16(&mut buf, self.qd_count);
        put_u16(&mut buf, self.an_count);
        put_u16(&mut buf, self.ns_count);
        put_u16(&mut buf, self.ar_count);
        assert(buf_bytes(buf) == header_wire(*self));
        buf
    }

    /// Whether the QR bit says that the message is a query.
    pub fn is_query(&self) -> (r: bool)
        ensures
            r == !HeaderFlag::of_word(self.flag).is_response,
    {
        get_bit(self.flag, 0) == 0
    }

    /// Whether the QR bit says that the message is a response.
    pub fn is_response(&self) -> (r: bool)
        ensures
            r == HeaderFlag::of_word(self.flag).is_response,
    {
        get_bit(self.flag, 0) == 1
    }
}

impl Default for Header {
    /// The header of a new query: a random id, the default flags, and no
    /// entries in any section.
    fn default() -> (header: Header)
        ensures
            header == (Header { id: header.id, flag: DEFAULT_QUERY_FLAG, qd_count: 0, an_count: 0, ns_count: 0, ar_count: 0 }),
    {
        Header::new(random_id(), DEFAULT_QUERY_FLAG, 0, 0, 0, 0)
    }
}

impl From<Header> for BytesMut {
    fn from(header: Header) -> (buf: BytesMut)
        ensures
            buf_bytes(buf) == header_wire(header),
    {
        header.to_raw()
    }
}

impl FromSpecImpl<Header> for BytesMut {
    open spec fn obeys_from_spec() -> bool {
        false
    }

    open spec fn from_spec(header: Header) -> BytesMut {
        arbitrary()
    }
}

} // verus!
