//! Resource records of the answer section.
//!
//! A record on the wire is a name, then ten bytes of fixed fields, each most
//! significant byte first: type (2), class (2), time to live (4) and the
//! length of the data (2); then the data. The data of an A record is the four
//! octets of an IPv4 address, that of an AAAA record the eight 16-bit groups
//! of an IPv6 address; the data of every other type is skipped.

use crate::binary::merged;
use crate::binary::u8_merge;
use crate::dns::buffer::be16;
use crate::dns::buffer::buf_bytes;
use crate::dns::buffer::put_u16;
use crate::dns::buffer::put_u8;
use crate::dns::class::Class;
use crate::dns::error::Error;
use crate::dns::name::decode_name;
use crate::dns::name::read_name;
use crate::dns::traits::EncodeRData;
use crate::dns::types::Type;
use bytes::BytesMut;
use vstd::prelude::*;

verus! {

/// The number of bytes between the name of a record and its data.
pub const RECORD_FIELDS_LEN: usize = 10;

/// The data of a resource record.
#[derive(Clone, Copy, Debug, PartialEq, Eq)]
pub enum RData {
    /// An IPv4 address: its four octets.
    A([u8; 4]),
    /// An IPv6 address: its eight groups.
    AAAA([u16; 8]),
    /// The data of a type that is not modelled. Its bytes are not kept.
    Unknown,
}

/// The 32-bit value of four bytes, most significant first.
pub open spec fn merged32(b0: u8, b1: u8, b2: u8, b3: u8) -> u32 {
    (b0 as int * 0x1000000 + b1 as int * 0x10000 + b2 as int * 0x100 + b3 as int) as u32
}

/// The four octets at `pos`.
pub open spec fn octets_at(buf: Seq<u8>, pos: int) -> Seq<u8> {
    buf.subrange(pos, pos + 4)
}

/// The eight groups at `pos`, each of two bytes, most significant first.
pub open spec fn groups_at(buf: Seq<u8>, pos: int) -> Seq<u16> {
    Seq::new(8, |i: int| merged(buf[pos + 2 * i], buf[pos + 2 * i + 1]))
}

/// What the data of a record says, for the `len` bytes at `pos` and the
/// type of the record: an address for A and AAAA, `Unknown` for any other
/// type. `Length` where the buffer ends before the data does,
/// `MalformedMessage` where an address has not the length of an address.
pub open spec fn rdata_at(r_type: Type, buf: Seq<u8>, pos: int, len: int) -> Result<
    RDataView,
    Error,
> {
    if pos + len > buf.len() {
        Err(Error::Length)
    } else if r_type == Type::A {
        if len == 4 {
            Ok(RDataView::A(octets_at(buf, pos)))
        } else {
            Err(Error::MalformedMessage)
        }
    } else if r_type == Type::AAAA {
        if len == 16 {
            Ok(RDataView::AAAA(groups_at(buf, pos)))
        } else {
            Err(Error::MalformedMessage)
        }
    } else {
        Ok(RDataView::Unknown)
    }
}

/// What the data of a record holds.
pub enum RDataView {
    A(Seq<u8>),
    AAAA(Seq<u16>),
    Unknown,
}

impl View for RData {
    type V = RDataView;

    open spec fn view(&self) -> RDataView {
        match self {
            RData::A(octets) => RDataView::A(octets@),
            RData::AAAA(groups) => RDataView::AAAA(groups@),
            RData::Unknown => RDataView::Unknown,
        }
    }
}

impl RDataView {
    /// The data on the wire: the octets of an IPv4 address, the groups of an
    /// IPv6 address with the most significant byte of each first, and
    /// nothing for `Unknown`.
    pub open spec fn wire(self) -> Seq<u8> {
        match self {
            RDataView::A(octets) => octets,
            RDataView::AAAA(groups) => groups_wire(groups),
            RDataView::Unknown => Seq::<u8>::empty(),
        }
    }
}

/// Groups on the wire, one after the other, most significant byte first.
pub open spec fn groups_wire(groups: Seq<u16>) -> Seq<u8>
    decreases groups.len(),
{
    if groups.len() == 0 {
        Seq::<u8>::empty()
    } else {
        groups_wire(groups.drop_last()) + be16(groups.last())
    }
}

impl RData {
    /// Writes this data to a new buffer.
    pub fn encode(&self) -> (buf: BytesMut)
        ensures
            buf_bytes(buf) == self@.wire(),
    {
        let mut buf = crate::dns::buffer::new();
        match self {
            RData::A(octets) => {
                let mut i: usize = 0;
                while i < 4
                    invariant
                        i <= 4,
                        buf_bytes(buf) == octets@.take(i as int),
                    decreases 4 - i,
                {
                    put_u8(&mut buf, octets[i]);
                    assert(octets@.take(i as int).push(octets@[i as int]) == octets@.take(i + 1));
                    i = i + 1;
                }
                assert(octets@.take(4) == octets@);
            },
            RData::AAAA(groups) => {
                let mut i: usize = 0;
                assert(groups@.take(0) == Seq::<u16>::empty());
                while i < 8
                    invariant
                        i <= 8,
                        buf_bytes(buf) == groups_wire(groups@.take(i as int)),
                        buf_bytes(buf).len() == 2 * i,
                    decreases 8 - i,
                {
                    put_u16(&mut buf, groups[i]);
                    assert(groups@.take(i + 1).drop_last() == groups@.take(i as int));
                    i = i + 1;
                }
                assert(groups@.take(8) == groups@);
            },
            RData::Unknown => {},
        }
        buf
    }

    /// Reads the data of a record of type `r_type` from the `length` bytes
    /// at `offset`.
    pub fn decode(r_type: Type, raw: &[u8], offset: usize, length: usize) -> (r: Result<
        RData,
        Error,
    >)
        ensures
            match r {
                Ok(data) => rdata_at(r_type, raw@, offset as int, length as int) == Ok::<
                    RDataView,
                    Error,
                >(data@),
                Err(e) => rdata_at(r_type, raw@, offset as int, length as int) == Err::<
                    RDataView,
                    Error,
                >(e),
            },
    {
        let n = raw.len();
        if offset > n || length > n - offset {
            return Err(Error::Length);
        }
        match r_type {
            Type::A => {
                if length != 4 {
                    return Err(Error::MalformedMessage);
                }
                let octets = [raw[offset], raw[offset + 1], raw[offset + 2], raw[offset + 3]];
                assert(octets@ == octets_at(raw@, offset as int));
                Ok(RData::A(octets))
            },
            Type::AAAA => {
                if length != 16 {
                    return Err(Error::MalformedMessage);
                }
                let groups = [
                    u8_merge(raw[offset], raw[offset + 1]),
                    u8_merge(raw[offset + 2], raw[offset + 3]),
                    u8_merge(raw[offset + 4], raw[offset + 5]),
                    u8_merge(raw[offset + 6], raw[offset + 7]),
                    u8_merge(raw[offset + 8], raw[offset + 9]),
                    u8_merge(raw[offset + 10], raw[offset + 11]),
                    u8_merge(raw[offset + 12], raw[offset + 13]),
                    u8_merge(raw[offset + 14], raw[offset + 15]),
                ];
                assert(groups@ == groups_at(raw@, offset as int));
                Ok(RData::AAAA(groups))
            },
            _ => Ok(RData::Unknown),
        }
    }
}

impl EncodeRData for RData {
    fn encode(&self) -> (buf: BytesMut)
        ensures
            buf_bytes(buf) == self@.wire(),
    {
        RData::encode(self)
    }
}

/// One entry of the answer section.
#[derive(Debug, PartialEq, Eq)]
pub struct ResourceRecord {
    /// The name that the record is about.
    pub name: String,
    /// The type of the record, which says what its data means.
    pub r_type: Type,
    /// The class of the record.
    pub class: Class,
    /// The number of seconds for which the record may be kept.
    pub ttl: u32,
    /// The length of the data on the wire, in bytes.
    pub rd_length: u16,
    /// The data of the record.
    pub r_data: RData,
}

/// What a resource record holds.
pub struct RecordView {
    pub name: Seq<char>,
    pub r_type: Type,
    pub class: Class,
    pub ttl: u32,
    pub rd_length: u16,
    pub r_data: RDataView,
}

impl View for ResourceRecord {
    type V = RecordView;

    open spec fn view(&self) -> RecordView {
        RecordView {
            name: self.name@,
            r_type: self.r_type,
            class: self.class,
            ttl: self.ttl,
            rd_length: self.rd_length,
            r_data: self.r_data@,
        }
    }
}

/// What reading a record at `pos` gives: the record and the bytes it takes
/// up, name, fixed fields and data together. `MalformedName` where its name
/// cannot be read, `Length` where the buffer ends before the fixed fields or
/// the data do, `MalformedMessage` where an address has not the length of an
/// address.
pub open spec fn record_at(buf: Seq<u8>, pos: int) -> Result<(RecordView, int), Error> {
    match decode_name(buf, pos) {
        Err(e) => Err(e),
        Ok((name, used)) => {
            let at = pos + used;
            if at + RECORD_FIELDS_LEN > buf.len() {
                Err(Error::Length)
            } else {
                let r_type = Type::of_code(merged(buf[at], buf[at + 1]));
                let rd_length = merged(buf[at + 8], buf[at + 9]);
                match rdata_at(r_type, buf, at + RECORD_FIELDS_LEN, rd_length as int) {
                    Err(e) => Err(e),
                    Ok(r_data) => Ok(
                        (
                            RecordView {
                                name,
                                r_type,
                                class: Class::of_code(merged(buf[at + 2], buf[at + 3])),
                                ttl: merged32(buf[at + 4], buf[at + 5], buf[at + 6], buf[at + 7]),
                                rd_length,
                                r_data,
                            },
                            used + RECORD_FIELDS_LEN + rd_length,
                        ),
                    ),
                }
            }
        },
    }
}

/// A record whose type is neither A nor AAAA is read without an error where
/// its name can be read and the buffer holds its fixed fields and its data:
/// its data is `Unknown`, and it takes up its name, its fixed fields and as
/// many bytes of data as its length field says, no more.
pub proof fn lemma_other_types_read_unknown(buf: Seq<u8>, pos: int, name: Seq<char>, used: int)
    requires
        decode_name(buf, pos) == Ok::<(Seq<char>, int), Error>((name, used)),
        pos + used + RECORD_FIELDS_LEN + merged(buf[pos + used + 8], buf[pos + used + 9])
            <= buf.len(),
        merged(buf[pos + used], buf[pos + used + 1]) != 1,
        merged(buf[pos + used], buf[pos + used + 1]) != 28,
    ensures
        record_at(buf, pos) matches Ok((record, taken)) && record.r_data == RDataView::Unknown
            && record.name == name && record.r_type == Type::of_code(
            merged(buf[pos + used], buf[pos + used + 1]),
        ) && taken == used + RECORD_FIELDS_LEN + merged(buf[pos + used + 8], buf[pos + used + 9]),
{
}

impl ResourceRecord {
    /// Reads the record at `base_offset`. Gives the record and the number of
    /// bytes that it takes up there.
    pub fn parse(raw: &[u8], base_offset: usize) -> (r: Result<(ResourceRecord, usize), Error>)
        ensures
            match r {
                Ok((record, used)) => record_at(raw@, base_offset as int) == Ok::<
                    (RecordView, int),
                    Error,
                >((record@, used as int)),
                Err(e) => record_at(raw@, base_offset as int) == Err::<(RecordView, int), Error>(
                    e,
                ),
            },
            r matches Ok((_, used)) ==> 11 <= used && base_offset + used <= raw@.len(),
    {
        let n = raw.len();
        match read_name(raw, base_offset) {
            Err(e) => Err(e),
            Ok((name, size)) => {
                let offset = base_offset + size;
                if n - offset < RECORD_FIELDS_LEN {
                    return Err(Error::Length);
                }
                let r_type = Type::from(u8_merge(raw[offset], raw[offset + 1]));
                let class = Class::from(u8_merge(raw[offset + 2], raw[offset + 3]));
                let high = u8_merge(raw[offset + 4], raw[offset + 5]);
                let low = u8_merge(raw[offset + 6], raw[offset + 7]);
                let ttl: u32 = high as u32 * 0x10000 + low as u32;
                let rd_length = u8_merge(raw[offset + 8], raw[offset + 9]);
                match RData::decode(
                    r_type,
                    raw,
                    offset + RECORD_FIELDS_LEN,
                    rd_length as usize,
                ) {
                    Err(e) => Err(e),
                    Ok(r_data) => Ok(
                        (
                            ResourceRecord { name, r_type, class, ttl, rd_length, r_data },
                            size + RECORD_FIELDS_LEN + rd_length as usize,
                        ),
                    ),
                }
            },
        }
    }
}

} // verus!
