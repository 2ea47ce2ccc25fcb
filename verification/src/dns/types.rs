//! TYPE and QTYPE codes.

use vstd::prelude::*;
use vstd::std_specs::convert::FromSpecImpl;

verus! {

/// The type of a resource record.
#[allow(non_camel_case_types)]
#[derive(Clone, Copy, Debug, PartialEq, Eq, Structural)]
pub enum Type {
    /// 1 a host address
    A,
    /// 2 an authoritative name server
    NS,
    /// 3 a mail destination (obsolete: use MX)
    MD,
    /// 4 a mail forwarder (obsolete: use MX)
    MF,
    /// 5 the canonical name for an alias
    CNAME,
    /// 6 marks the start of a zone of authority
    SOA,
    /// 7 a mailbox domain name (experimental)
    MB,
    /// 8 a mail group member (experimental)
    MG,
    /// 9 a mail rename domain name (experimental)
    MR,
    /// 10 a null record (experimental)
    NULL,
    /// 11 a well known service description (not recommended)
    WKS,
    /// 12 a domain name pointer
    PTR,
    /// 13 host information
    HINFO,
    /// 14 mailbox or mail list information
    MINFO,
    /// 15 mail exchange
    MX,
    /// 16 text strings
    TXT,
    /// 17 responsible person
    RP,
    /// 18 AFS database record
    AFSDB,
    /// 19 X.25 address
    X25,
    /// 20 ISDN address
    ISDN,
    /// 21 route through
    RT,
    /// 22 network service access point
    NSAP,
    /// 23 NSAP pointer
    NSAP_PTR,
    /// 24 signature
    SIG,
    /// 25 key
    KEY,
    /// 26 pointer to X.400 mapping
    PX,
    /// 27 geographical position
    GPOS,
    /// 28 an IPv6 host address
    AAAA,
    /// 29 location
    LOC,
    /// Any other code, kept as it was read.
    Unknown(u16),
}

impl Type {
    /// The record type that a 16-bit code stands for.
    pub open spec fn of_code(raw: u16) -> Type {
        match raw {
            1 => Type::A,
            2 => Type::NS,
            3 => Type::MD,
            4 => Type::MF,
            5 => Type::CNAME,
            6 => Type::SOA,
            7 => Type::MB,
            8 => Type::MG,
            9 => Type::MR,
            10 => Type::NULL,
            11 => Type::WKS,
            12 => Type::PTR,
            13 => Type::HINFO,
            14 => Type::MINFO,
            15 => Type::MX,
            16 => Type::TXT,
            17 => Type::RP,
            18 => Type::AFSDB,
            19 => Type::X25,
            20 => Type::ISDN,
            21 => Type::RT,
            22 => Type::NSAP,
            23 => Type::NSAP_PTR,
            24 => Type::SIG,
            25 => Type::KEY,
            26 => Type::PX,
            27 => Type::GPOS,
            28 => Type::AAAA,
            29 => Type::LOC,
            _ => Type::Unknown(raw),
        }
    }

    /// The 16-bit code of a record type.
    pub open spec fn spec_value(&self) -> u16 {
        match self {
            Type::A => 1,
            Type::NS => 2,
            Type::MD => 3,
            Type::MF => 4,
            Type::CNAME => 5,
            Type::SOA => 6,
            Type::MB => 7,
            Type::MG => 8,
            Type::MR => 9,
            Type::NULL => 10,
            Type::WKS => 11,
            Type::PTR => 12,
            Type::HINFO => 13,
            Type::MINFO => 14,
            Type::MX => 15,
            Type::TXT => 16,
            Type::RP => 17,
            Type::AFSDB => 18,
            Type::X25 => 19,
            Type::ISDN => 20,
            Type::RT => 21,
            Type::NSAP => 22,
            Type::NSAP_PTR => 23,
            Type::SIG => 24,
            Type::KEY => 25,
            Type::PX => 26,
            Type::GPOS => 27,
            Type::AAAA => 28,
            Type::LOC => 29,
            Type::Unknown(raw) => *raw,
        }
    }

    /// `Unknown` holds no code that has a variant of its own.
    pub open spec fn wf(self) -> bool {
        self matches Type::Unknown(raw) ==> !(1 <= raw <= 29)
    }

    /// The 16-bit code of this record type.
    #[verifier::when_used_as_spec(spec_value)]
    pub fn value(&self) -> (r: u16)
        ensures
            r == self.spec_value(),
    {
        match self {
            Type::A => 1,
            Type::NS => 2,
            Type::MD => 3,
            Type::MF => 4,
            Type::CNAME => 5,
            Type::SOA => 6,
            Type::MB => 7,
            Type::MG => 8,
            Type::MR => 9,
            Type::NULL => 10,
            Type::WKS => 11,
            Type::PTR => 12,
            Type::HINFO => 13,
            Type::MINFO => 14,
            Type::MX => 15,
            Type::TXT => 16,
            Type::RP => 17,
            Type::AFSDB => 18,
            Type::X25 => 19,
            Type::ISDN => 20,
            Type::RT => 21,
            Type::NSAP => 22,
            Type::NSAP_PTR => 23,
            Type::SIG => 24,
            Type::KEY => 25,
            Type::PX => 26,
            Type::GPOS => 27,
            Type::AAAA => 28,
            Type::LOC => 29,
            Type::Unknown(raw) => *raw,
        }
    }

    /// Every code is the code of the type it stands for, and that type is
    /// well-formed.
    pub proof fn lemma_code_round_trip(raw: u16)
        ensures
            Type::of_code(raw).spec_value() == raw,
            Type::of_code(raw).wf(),
    {
    }

    /// A well-formed type is the type that its code stands for.
    pub proof fn lemma_type_round_trip(r_type: Type)
        requires
            r_type.wf(),
        ensures
            Type::of_code(r_type.spec_value()) == r_type,
    {
    }
}

impl From<u16> for Type {
    fn from(raw: u16) -> (r: Type) {
        match raw {
            1 => Type::A,
            2 => Type::NS,
            3 => Type::MD,
            4 => Type::MF,
            5 => Type::CNAME,
            6 => Type::SOA,
            7 => Type::MB,
            8 => Type::MG,
            9 => Type::MR,
            10 => Type::NULL,
            11 => Type::WKS,
            12 => Type::PTR,
            13 => Type::HINFO,
            14 => Type::MINFO,
            15 => Type::MX,
            16 => Type::TXT,
            17 => Type::RP,
            18 => Type::AFSDB,
            19 => Type::X25,
            20 => Type::ISDN,
            21 => Type::RT,
            22 => Type::NSAP,
            23 => Type::NSAP_PTR,
            24 => Type::SIG,
            25 => Type::KEY,
            26 => Type::PX,
            27 => Type::GPOS,
            28 => Type::AAAA,
            29 => Type::LOC,
            _ => Type::Unknown(raw),
        }
    }
}

impl FromSpecImpl<u16> for Type {
    open spec fn obeys_from_spec() -> bool {
        true
    }

    open spec fn from_spec(raw: u16) -> Type {
        Type::of_code(raw)
    }
}

/// The type asked for in a question: a record type, or one of the codes that
/// match several.
#[derive(Clone, Copy, Debug, PartialEq, Eq, Structural)]
pub enum QType {
    Type(Type),
    /// 252 a request for a transfer of an entire zone
    AXFR,
    /// 253 a request for mailbox-related records (MB, MG or MR)
    MAILB,
    /// 254 a request for mail agent records (obsolete: see MX)
    MAILA,
    /// 255 a request for all records
    ANY,
}

impl QType {
    /// The question type that a 16-bit code stands for.
    pub open spec fn of_code(raw: u16) -> QType {
        match raw {
            252 => QType::AXFR,
            253 => QType::MAILB,
            254 => QType::MAILA,
            255 => QType::ANY,
            _ => QType::Type(Type::of_code(raw)),
        }
    }

    /// The 16-bit code of a question type.
    pub open spec fn spec_value(&self) -> u16 {
        match self {
            QType::Type(r_type) => r_type.spec_value(),
            QType::AXFR => 252,
            QType::MAILB => 253,
            QType::MAILA => 254,
            QType::ANY => 255,
        }
    }

    /// The type inside is well-formed and holds none of the codes 252 to 255.
    pub open spec fn wf(self) -> bool {
        self matches QType::Type(r_type) ==> r_type.wf() && !(252 <= r_type.spec_value() <= 255)
    }

    /// The 16-bit code of this question type.
    #[verifier::when_used_as_spec(spec_value)]
    pub fn value(&self) -> (r: u16)
        ensures
            r == self.spec_value(),
    {
        match self {
            QType::Type(r_type) => r_type.value(),
            QType::AXFR => 252,
            QType::MAILB => 253,
            QType::MAILA => 254,
            QType::ANY => 255,
        }
    }

    /// Every code is the code of the question type it stands for, and that
    /// question type is well-formed.
    pub proof fn lemma_code_round_trip(raw: u16)
        ensures
            QType::of_code(raw).spec_value() == raw,
            QType::of_code(raw).wf(),
    {
    }

    /// A well-formed question type is the one that its code stands for.
    pub proof fn lemma_type_round_trip(q_type: QType)
        requires
            q_type.wf(),
        ensures
            QType::of_code(q_type.spec_value()) == q_type,
    {
    }
}

impl From<u16> for QType {
    fn from(raw: u16) -> (r: QType) {
        match raw {
            252 => QType::AXFR,
            253 => QType::MAILB,
            254 => QType::MAILA,
            255 => QType::ANY,
            _ => QType::Type(Type::from(raw)),
        }
    }
}

impl FromSpecImpl<u16> for QType {
    open spec fn obeys_from_spec() -> bool {
        true
    }

    open spec fn from_spec(raw: u16) -> QType {
        QType::of_code(raw)
    }
}

} // verus!
