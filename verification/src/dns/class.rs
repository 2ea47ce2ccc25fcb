//! CLASS and QCLASS codes.

use vstd::prelude::*;
use vstd::std_specs::convert::FromSpecImpl;

verus! {

/// The class of a resource record.
#[derive(Clone, Copy, Debug, PartialEq, Eq, Structural)]
pub enum Class {
    /// 1 the Internet
    IN,
    /// 2 the CSNET class (obsolete)
    CS,
    /// 3 the CHAOS class
    CH,
    /// 4 Hesiod
    HS,
    /// Any other code, kept as it was read.
    Unknown(u16),
}

impl Class {
    /// The class that a 16-bit code stands for.
    pub open spec fn of_code(raw: u16) -> Class {
        if raw == 1 {
            Class::IN
        } else if raw == 2 {
            Class::CS
        } else if raw == 3 {
            Class::CH
        } else if raw == 4 {
            Class::HS
        } else {
            Class::Unknown(raw)
        }
    }

    /// The 16-bit code of a class.
    pub open spec fn spec_value(&self) -> u16 {
        match self {
            Class::IN => 1,
            Class::CS => 2,
            Class::CH => 3,
            Class::HS => 4,
            Class::Unknown(raw) => *raw,
        }
    }

    /// `Unknown` holds no code that has a variant of its own.
    pub open spec fn wf(self) -> bool {
        self matches Class::Unknown(raw) ==> !(1 <= raw <= 4)
    }

    /// The 16-bit code of this class.
    #[verifier::when_used_as_spec(spec_value)]
    pub fn value(&self) -> (r: u16)
        ensures
            r == self.spec_value(),
    {
        match self {
            Class::IN => 1,
            Class::CS => 2,
            Class::CH => 3,
            Class::HS => 4,
            Class::Unknown(raw) => *raw,
        }
    }

    /// Every code is the code of the class it stands for, and that class is
    /// well-formed.
    pub proof fn lemma_code_round_trip(raw: u16)
        ensures
            Class::of_code(raw).spec_value() == raw,
            Class::of_code(raw).wf(),
    {
    }

    /// A well-formed class is the class that its code stands for.
    pub proof fn lemma_class_round_trip(class: Class)
        requires
            class.wf(),
        ensures
            Class::of_code(class.spec_value()) == class,
    {
    }
}

impl From<u16> for Class {
    fn from(raw: u16) -> (r: Class) {
        match raw {
            1 => Class::IN,
            2 => Class::CS,
            3 => Class::CH,
            4 => Class::HS,
            _ => Class::Unknown(raw),
        }
    }
}

impl FromSpecImpl<u16> for Class {
    open spec fn obeys_from_spec() -> bool {
        true
    }

    open spec fn from_spec(raw: u16) -> Class {
        Class::of_code(raw)
    }
}

impl From<Class> for u16 {
    fn from(class: Class) -> (r: u16) {
        class.value()
    }
}

impl FromSpecImpl<Class> for u16 {
    open spec fn obeys_from_spec() -> bool {
        true
    }

    open spec fn from_spec(class: Class) -> u16 {
        class.spec_value()
    }
}

/// The class asked for in a question: a class, or any class.
#[derive(Clone, Copy, Debug, PartialEq, Eq, Structural)]
pub enum QClass {
    Class(Class),
    /// 255 any class
    ANY,
}

impl QClass {
    /// The question class that a 16-bit code stands for.
    pub open spec fn of_code(raw: u16) -> QClass {
        if raw == 255 {
            QClass::ANY
        } else {
            QClass::Class(Class::of_code(raw))
        }
    }

    /// The 16-bit code of a question class.
    pub open spec fn spec_value(&self) -> u16 {
        match self {
            QClass::Class(class) => class.spec_value(),
            QClass::ANY => 255,
        }
    }

    /// The class inside is well-formed and does not hold the code of `ANY`.
    pub open spec fn wf(self) -> bool {
        self matches QClass::Class(class) ==> class.wf() && class.spec_value() != 255
    }

    /// The 16-bit code of this question class.
    #[verifier::when_used_as_spec(spec_value)]
    pub fn value(&self) -> (r: u16)
        ensures
            r == self.spec_value(),
    {
        match self {
            QClass::Class(class) => class.value(),
            QClass::ANY => 255,
        }
    }

    /// Every code is the code of the question class it stands for, and that
    /// question class is well-formed.
    pub proof fn lemma_code_round_trip(raw: u16)
        ensures
            QClass::of_code(raw).spec_value() == raw,
            QClass::of_code(raw).wf(),
    {
    }

    /// A well-formed question class is the one that its code stands for.
    pub proof fn lemma_class_round_trip(class: QClass)
        requires
            class.wf(),
        ensures
            QClass::of_code(class.spec_value()) == class,
    {
    }
}

impl From<u16> for QClass {
    fn from(raw: u16) -> (r: QClass) {
        match raw {
            255 => QClass::ANY,
            _ => QClass::Class(Class::from(raw)),
        }
    }
}

impl FromSpecImpl<u16> for QClass {
    open spec fn obeys_from_spec() -> bool {
        true
    }

    open spec fn from_spec(raw: u16) -> QClass {
        QClass::of_code(raw)
    }
}

impl From<QClass> for u16 {
    fn from(class: QClass) -> (r: u16) {
        class.value()
    }
}

impl FromSpecImpl<QClass> for u16 {
    open spec fn obeys_from_spec() -> bool {
        true
    }

    open spec fn from_spec(class: QClass) -> u16 {
        class.spec_value()
    }
}

} // verus!
