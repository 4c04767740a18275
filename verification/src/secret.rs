//! Credentials, held so that they are not printed by accident.

use crate::error::Error;
use crate::text::{blank, bytes_of, followed_by, is_blank, utf8_text};
use vstd::prelude::*;
use vstd::utf8::*;

verus! {

/// A credential.
///
/// It has a label that may be shown and a value that may not. Neither way of writing it down
/// carries the value, only [`Secret::expose`] and [`Secret::expose_str`] do.
pub struct Secret {
    bytes: Vec<u8>,
    label: &'static str,
}

/// What a [`Secret`] holds.
#[verifier::ext_equal]
pub struct Credential {
    pub bytes: Seq<u8>,
    pub label: Seq<char>,
}

impl View for Secret {
    type V = Credential;

    closed spec fn view(&self) -> Credential {
        Credential { bytes: self.bytes@, label: self.label@ }
    }
}

/// How a credential is written in a report: its label and nothing else.
pub open spec fn redacted(label: Seq<char>) -> Seq<char> {
    "["@ + label + " redacted]"@
}

/// How a credential is written for a programmer: its label and nothing else.
pub open spec fn labelled(label: Seq<char>) -> Seq<char> {
    "Secret("@ + label + ")"@
}

impl Secret {
    /// A credential with this label and this value.
    pub fn new(label: &'static str, value: &str) -> (secret: Secret)
        ensures
            secret@ == (Credential { bytes: encode_utf8(value@), label: label@ }),
    {
        Secret { bytes: bytes_of(value), label }
    }

    /// A credential from the value of an environment variable, as the environment gave it.
    ///
    /// A variable that is not set, not text or blank is an authentication problem that names
    /// the variable.
    pub fn from_variable(label: &'static str, variable: &str, value: Option<&str>) -> (secret:
        Result<Secret, Error>)
        ensures
            match secret {
                Ok(secret) => value is Some && !is_blank(value->0@) && secret@ == (Credential {
                    bytes: encode_utf8(value->0@),
                    label: label@,
                }),
                Err(why) => (value is None || is_blank(value->0@)) && why.deep_view()
                    == crate::error::Failure::Auth(variable@ + " is not set"@),
            },
    {
        if let Some(value) = value {
            if !blank(value) {
                return Ok(Secret::new(label, value));
            }
        }
        Err(Error::Auth(followed_by(variable, " is not set")))
    }

    /// The value.
    pub fn expose(&self) -> (bytes: &Vec<u8>)
        ensures
            bytes@ == self@.bytes,
    {
        &self.bytes
    }

    /// The value as text, where it is text.
    pub fn expose_str(&self) -> (text: Option<String>)
        ensures
            text is Some <==> valid_utf8(self@.bytes),
            text matches Some(text) ==> encode_utf8(text@) == self@.bytes,
    {
        utf8_text(&self.bytes)
    }

    /// The label.
    pub fn label(&self) -> (label: &'static str)
        ensures
            label@ == self@.label,
    {
        self.label
    }

    /// Whether there is no value.
    pub fn is_empty(&self) -> (yes: bool)
        ensures
            yes == (self@.bytes.len() == 0),
    {
        self.bytes.len() == 0
    }

    /// The credential in a report, without its value.
    pub fn to_string(&self) -> (line: String)
        ensures
            line@ == redacted(self@.label),
    {
        followed_by("[", self.label).concat(" redacted]")
    }

    /// The credential for a programmer, without its value.
    pub fn to_debug(&self) -> (line: String)
        ensures
            line@ == labelled(self@.label),
    {
        followed_by("Secret(", self.label).concat(")")
    }

    /// Overwrites the value with zeros.
    ///
    /// It does not defeat a memory dump taken while the process is alive, and it does shorten
    /// the window.
    pub fn wipe(&mut self)
        ensures
            final(self)@.label == old(self)@.label,
            final(self)@.bytes == Seq::new(old(self)@.bytes.len(), |i: int| 0u8),
        opens_invariants none
        no_unwind
    {
        fill(&mut self.bytes, 0);
    }
}

/// Calls `fill` of a slice, which puts one value in every place.
#[verifier::external_body]
fn fill(bytes: &mut Vec<u8>, value: u8)
    ensures
        final(bytes)@ == Seq::new(old(bytes)@.len(), |i: int| value),
    opens_invariants none
    no_unwind
{
    bytes.fill(value);
}

impl Drop for Secret {
    /// Overwritten rather than just freed.
    fn drop(&mut self)
        opens_invariants none
        no_unwind
    {
        self.wipe();
    }
}

/// Two credentials with one label are written down the same, whatever their values are.
pub proof fn what_is_written_does_not_depend_on_the_value(a: Credential, b: Credential)
    requires
        a.label == b.label,
    ensures
        redacted(a.label) == redacted(b.label),
        labelled(a.label) == labelled(b.label),
{
}

/// What is written of a credential is its label in a fixed frame.
pub proof fn what_is_written_is_the_label(label: Seq<char>)
    ensures
        redacted(label) == "["@ + label + " redacted]"@,
        labelled(label) == "Secret("@ + label + ")"@,
{
}

} // verus!
