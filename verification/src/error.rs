use vstd::prelude::*;

use crate::text::push_str;

verus! {

/// The "kind" of an [`Error`].
#[derive(Clone, Copy, Debug, Hash, PartialEq, Eq, Structural)]
pub enum Kind {
    /// An [`Error`] resulting from an operation on a prefix-length.
    PrefixLength,
    /// An [`Error`] resulting from an invalid range of prefix-lengths.
    PrefixLengthRange,
    /// An [`Error`] resulting from a parser failure.
    ParserError,
    /// An [`Error`] resulting from an attempt to convert between incompatible
    /// address families.
    AfiMismatch,
}

impl Kind {
    /// The human readable description of the error kind.
    pub fn description(&self) -> (r: &'static str)
        ensures
            r@ == spec_kind_description(*self),
    {
        match self {
            Kind::PrefixLength => "prefix-length out of bounds",
            Kind::PrefixLengthRange => "invalid prefix-length range",
            Kind::ParserError => "parser error",
            Kind::AfiMismatch => "address family mis-match",
        }
    }

    /// The human readable description of the error kind, as a `String`.
    pub fn to_string(&self) -> (r: String)
        ensures
            r@ == spec_kind_description(*self),
    {
        let mut s = String::new();
        push_str(&mut s, self.description());
        assert(s@ =~= spec_kind_description(*self));
        s
    }
}

/// The description of each error kind.
pub open spec fn spec_kind_description(k: Kind) -> Seq<char> {
    match k {
        Kind::PrefixLength => "prefix-length out of bounds"@,
        Kind::PrefixLengthRange => "invalid prefix-length range"@,
        Kind::ParserError => "parser error"@,
        Kind::AfiMismatch => "address family mis-match"@,
    }
}

/// An error describing a failed operation on an IP object.
#[derive(Clone, Copy, Debug)]
pub struct Error {
    kind: Kind,
    msg: Option<&'static str>,
}

impl Error {
    /// The kind of the error, as seen by contracts.
    pub closed spec fn spec_kind(&self) -> Kind {
        self.kind
    }

    /// The message attached to the error, as seen by contracts.
    pub closed spec fn spec_msg(&self) -> Option<&'static str> {
        self.msg
    }

    /// Construct an error of the given kind.
    pub fn new(kind: Kind, msg: Option<&'static str>) -> (r: Self)
        ensures
            r.spec_kind() == kind,
            r.spec_msg() == msg,
    {
        Error { kind, msg }
    }

    /// Construct an error of the given kind, without a message.
    pub fn of_kind(kind: Kind) -> (r: Self)
        ensures
            r.spec_kind() == kind,
            r.spec_msg() is None,
    {
        Error { kind, msg: None }
    }

    /// Returns the [`Kind`] of error.
    pub fn kind(&self) -> (r: Kind)
        ensures
            r == self.spec_kind(),
    {
        self.kind
    }

    /// Returns the message attached to the error, if any.
    pub fn message(&self) -> (r: Option<&'static str>)
        ensures
            r == self.spec_msg(),
    {
        self.msg
    }

    /// The text of the error: the description of its kind, followed by ": "
    /// and the message where there is one.
    pub fn to_string(&self) -> (r: String)
        ensures
            r@ == (match self.spec_msg() {
                Some(m) => spec_kind_description(self.spec_kind()) + seq![':', ' '] + m@,
                None => spec_kind_description(self.spec_kind()),
            }),
    {
        proof {
            reveal_strlit(": ");
        }
        let mut s = String::new();
        push_str(&mut s, self.kind.description());
        match self.msg {
            Some(m) => {
                push_str(&mut s, ": ");
                push_str(&mut s, m);
            },
            None => {},
        }
        assert(s@ =~= (match self.spec_msg() {
            Some(m) => spec_kind_description(self.spec_kind()) + seq![':', ' '] + m@,
            None => spec_kind_description(self.spec_kind()),
        }));
        s
    }

    /// Returns the underlying source error, if it exists.
    ///
    /// Errors of this crate never wrap another error.
    pub fn source(&self) -> (r: Option<&'static str>)
        ensures
            r is None,
    {
        None
    }
}

} // verus!
