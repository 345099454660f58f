//! Names of substream protocols.

use std::borrow::Cow;
use vstd::prelude::*;

verus! {

/// The name of a sub-protocol or message channel. Two names are the same
/// protocol exactly when they hold the same text, however it is stored.
#[derive(Debug, PartialEq, Eq)]
pub struct ProtocolName(Cow<'static, str>);

impl View for ProtocolName {
    type V = Seq<char>;

    closed spec fn view(&self) -> Seq<char> {
        self.0@
    }
}

impl ProtocolName {
    /// The protocol that the static text names.
    pub fn from_static(name: &'static str) -> (protocol: ProtocolName)
        ensures
            protocol@ == name@,
    {
        ProtocolName(Cow::Borrowed(name))
    }

    /// The protocol that the owned text names.
    pub fn from_owned(name: String) -> (protocol: ProtocolName)
        ensures
            protocol@ == name@,
    {
        ProtocolName(Cow::Owned(name))
    }

    /// The name's text.
    pub fn as_str(&self) -> (text: &str)
        ensures
            text@ == self@,
    {
        match &self.0 {
            Cow::Borrowed(text) => text,
            Cow::Owned(text) => text.as_str(),
        }
    }

    /// Whether both name the same protocol.
    pub fn same_protocol(&self, other: &ProtocolName) -> (same: bool)
        ensures
            same == (self@ == other@),
    {
        self.as_str().to_owned() == other.as_str().to_owned()
    }
}

impl Clone for ProtocolName {
    fn clone(&self) -> (protocol: ProtocolName)
        ensures
            protocol@ == self@,
    {
        match &self.0 {
            Cow::Borrowed(text) => ProtocolName(Cow::Borrowed(text)),
            Cow::Owned(text) => ProtocolName(Cow::Owned(text.clone())),
        }
    }
}

impl AsRef<str> for ProtocolName {
    fn as_ref(&self) -> (text: &str)
        ensures
            text@ == self@,
    {
        self.as_str()
    }
}

impl From<&'static str> for ProtocolName {
    fn from(value: &'static str) -> (protocol: ProtocolName)
        ensures
            protocol@ == value@,
    {
        ProtocolName(Cow::Borrowed(value))
    }
}

impl vstd::std_specs::convert::FromSpecImpl<&'static str> for ProtocolName {
    open spec fn obeys_from_spec() -> bool {
        true
    }

    closed spec fn from_spec(value: &'static str) -> ProtocolName {
        ProtocolName(Cow::Borrowed(value))
    }
}

} // verus!
