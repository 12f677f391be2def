//! One segment of a domain name.

use vstd::prelude::*;
use vstd::string::*;
use vstd::utf8::*;
use crate::text::{dot, find_dot, lemma_encode_dot, DOT};
use crate::segments::lemma_first_sep;

verus! {

/// A text that cannot stand as a label: it holds the separator or is longer
/// than 255 octets.
#[derive(Debug, Clone, Copy, PartialEq, Eq, Structural)]
pub struct LabelParsingError;

/// A text is accepted as a label where it holds no separator and its
/// encoding has at most 255 octets.
pub open spec fn valid_label_text(t: Seq<char>) -> bool {
    !t.contains(dot()) && encode_utf8(t).len() <= 255
}

/// The wire form of a label with the given octets: one length octet, then
/// the octets themselves.
pub open spec fn label_wire(bytes: Seq<u8>) -> Seq<u8> {
    seq![bytes.len() as u8] + bytes
}

/// A single segment of a domain name together with its length in octets.
#[derive(Debug, PartialEq, Eq)]
pub struct Label {
    length: u8,
    value: String,
}

impl View for Label {
    type V = Seq<u8>;

    /// The octets of the label, without the length octet.
    open spec fn view(&self) -> Seq<u8> {
        encode_utf8(self.text())
    }
}

impl Label {
    /// The text the label was made from.
    pub closed spec fn text(&self) -> Seq<char> {
        self.value@
    }

    /// The stored length octet.
    pub closed spec fn stored_len(&self) -> u8 {
        self.length
    }

    /// The text is an accepted one and the stored length is the number of
    /// octets of its encoding.
    pub open spec fn wf(&self) -> bool {
        &&& valid_label_text(self.text())
        &&& self.stored_len() == self@.len()
    }

    #[verifier::type_invariant]
    spec fn inv(&self) -> bool {
        self.wf()
    }

    /// Parses one label. Nothing is normalised: the text is kept as given.
    pub fn from_str(s: &str) -> (r: Result<Label, LabelParsingError>)
        ensures
            r is Ok <==> valid_label_text(s@),
            r matches Ok(l) ==> l.text() == s@ && l.wf(),
            r matches Err(e) ==> e == LabelParsingError,
    {
        let bytes = s.as_bytes();
        let n = bytes.len();
        proof {
            lemma_encode_dot(s@);
            lemma_first_sep(bytes@, DOT);
        }
        if find_dot(bytes) < n || n > 255 {
            Err(LabelParsingError)
        } else {
            Ok(Label { length: n as u8, value: s.to_owned() })
        }
    }

    /// The length octet followed by the octets of the label.
    pub fn to_bytes(&self) -> (r: Vec<u8>)
        ensures
            r@ == label_wire(self@),
            r@.len() == 1 + self@.len(),
            self.wf(),
    {
        proof {
            use_type_invariant(self);
        }
        let mut r = Vec::new();
        r.push(self.length);
        r.extend_from_slice(self.value.as_str().as_bytes());
        r
    }

    /// Number of octets of the label.
    pub fn length(&self) -> (r: u8)
        ensures
            r == self@.len(),
            self.wf(),
    {
        proof {
            use_type_invariant(self);
        }
        self.length
    }

    /// The text of the label.
    pub fn value(&self) -> (r: &str)
        ensures
            r@ == self.text(),
            self.wf(),
    {
        proof {
            use_type_invariant(self);
        }
        self.value.as_str()
    }
}

/// A text without the separator whose encoding has at most 255 octets is
/// accepted, and the wire form of a label made from it is the number of
/// octets of the text followed by those octets.
pub proof fn lemma_label_of_text(l: Label, t: Seq<char>)
    requires
        !t.contains(dot()),
        encode_utf8(t).len() <= 255,
        l.wf(),
        l.text() == t,
    ensures
        valid_label_text(t),
        label_wire(l@) == seq![encode_utf8(t).len() as u8] + encode_utf8(t),
        label_wire(l@).len() == 1 + encode_utf8(t).len(),
        label_wire(l@)[0] == l.stored_len(),
{
}

/// A text that holds the separator is never accepted as a label.
pub proof fn lemma_dot_rejected(t: Seq<char>)
    requires
        t.contains(dot()),
    ensures
        !valid_label_text(t),
{
}

/// The octets of an accepted text are free of the separator octet, and
/// a text is accepted exactly where its encoding is free of that octet and
/// has at most 255 octets.
pub proof fn lemma_label_octets(t: Seq<char>)
    ensures
        valid_label_text(t) <==> !encode_utf8(t).contains(DOT) && encode_utf8(t).len() <= 255,
{
    lemma_encode_dot(t);
}

impl Clone for Label {
    fn clone(&self) -> (r: Self)
        ensures
            r == *self,
    {
        proof {
            use_type_invariant(self);
        }
        Label { length: self.length, value: self.value.clone() }
    }
}

impl Default for Label {
    /// The empty label.
    fn default() -> (r: Self)
        ensures
            r.text() == Seq::<char>::empty(),
            r.wf(),
    {
        let value = String::new();
        assert(encode_utf8(value@) =~= Seq::<u8>::empty());
        Label { length: 0, value }
    }
}

} // verus!
