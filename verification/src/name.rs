//! Domain names: an ordered list of labels.

use vstd::prelude::*;
use vstd::string::*;
use vstd::utf8::*;
use crate::label::{label_wire, valid_label_text, Label, LabelParsingError};
use crate::segments::{
    first_sep,
    join,
    split,
    lemma_first_sep,
    lemma_join_split,
    lemma_split_pieces,
};
use crate::text::{
    dot,
    encode_each,
    find_dot,
    lemma_dot_boundary,
    lemma_encode_cut,
    lemma_encode_injective,
    lemma_split_encode,
    DOT,
};

verus! {

/// The uncompressed wire form of a name whose labels hold the given octets:
/// every label in its wire form, in order, then one zero octet.
pub open spec fn name_wire(labels: Seq<Seq<u8>>) -> Seq<u8>
    decreases labels.len(),
{
    if labels.len() == 0 {
        seq![0u8]
    } else {
        label_wire(labels[0]) + name_wire(labels.drop_first())
    }
}

/// Number of octets in all the labels together.
pub open spec fn total_len(labels: Seq<Seq<u8>>) -> nat
    decreases labels.len(),
{
    if labels.len() == 0 {
        0
    } else {
        labels[0].len() + total_len(labels.drop_first())
    }
}

/// Every text of the list is accepted as a label.
pub open spec fn all_valid(texts: Seq<Seq<char>>) -> bool {
    forall|i: int| 0 <= i < texts.len() ==> valid_label_text(#[trigger] texts[i])
}

/// A domain name. The name with no label is the root.
#[derive(Debug, PartialEq, Eq)]
pub struct CName(Vec<Label>);

impl View for CName {
    type V = Seq<Seq<u8>>;

    /// The octets of each label, in order.
    open spec fn view(&self) -> Seq<Seq<u8>> {
        encode_each(self.texts())
    }
}

impl CName {
    /// The labels of the name, in order.
    pub closed spec fn labels(&self) -> Seq<Label> {
        self.0@
    }

    /// The text of each label, in order.
    pub open spec fn texts(&self) -> Seq<Seq<char>> {
        Seq::new(self.labels().len(), |i: int| self.labels()[i].text())
    }

    /// Every label of the name is well formed.
    pub open spec fn wf(&self) -> bool {
        forall|i: int| 0 <= i < self.labels().len() ==> (#[trigger] self.labels()[i]).wf()
    }

    #[verifier::type_invariant]
    spec fn inv(&self) -> bool {
        self.wf()
    }

    /// Parses a name written with `.` between its labels. The labels are the
    /// pieces between the separators, empty ones included, so the empty text
    /// gives one empty label. Fails where a piece is not accepted as a label.
    pub fn from_str(s: &str) -> (r: Result<CName, LabelParsingError>)
        ensures
            r is Ok <==> all_valid(split(s@, dot())),
            r matches Ok(n) ==> n.texts() == split(s@, dot()) && n.wf(),
            r matches Err(e) ==> e == LabelParsingError,
    {
        let mut labels: Vec<Label> = Vec::new();
        let mut rest: &str = s;
        loop
            invariant
                split(s@, dot()) == Seq::new(labels@.len(), |i: int| labels@[i].text()) + split(
                    rest@,
                    dot(),
                ),
                forall|i: int| 0 <= i < labels@.len() ==> (#[trigger] labels@[i]).wf(),
            decreases rest@.len(),
        {
            let ghost done = Seq::new(labels@.len(), |i: int| labels@[i].text());
            let ghost t = rest@;
            let ghost kc = first_sep(t, dot()) as int;
            let bytes = rest.as_bytes();
            let k = find_dot(bytes);
            proof {
                lemma_encode_cut(t);
                lemma_first_sep(t, dot());
            }
            if k >= bytes.len() {
                assert(split(t, dot()) =~= seq![t]);
                match Label::from_str(rest) {
                    Ok(l) => {
                        labels.push(l);
                        let name = CName(labels);
                        assert(name.texts() =~= split(s@, dot()));
                        assert(all_valid(split(s@, dot())));
                        return Ok(name);
                    },
                    Err(e) => {
                        assert(split(s@, dot())[done.len() as int] == t);
                        return Err(e);
                    },
                }
            }
            proof {
                encode_utf8_valid_utf8(t);
                lemma_first_sep(bytes@, DOT);
                lemma_dot_boundary(bytes@, k as int);
            }
            let (head, tail) = rest.split_at(k);
            proof {
                encode_utf8_valid_utf8(tail@);
            }
            let (_, next) = tail.split_at(1);
            proof {
                assert(head.spec_bytes() =~= bytes@.take(k as int));
                assert(next.spec_bytes() =~= bytes@.skip(k + 1));
                lemma_encode_injective(head@, t.take(kc));
                lemma_encode_injective(next@, t.skip(kc + 1));
                assert(split(t, dot()) =~= seq![head@] + split(next@, dot()));
            }
            match Label::from_str(head) {
                Ok(l) => {
                    labels.push(l);
                },
                Err(e) => {
                    assert(split(s@, dot())[done.len() as int] == head@);
                    return Err(e);
                },
            }
            proof {
                assert(Seq::new(labels@.len(), |i: int| labels@[i].text()) =~= done + seq![head@]);
                assert(split(s@, dot()) =~= done + seq![head@] + split(next@, dot()));
            }
            rest = next;
        }
    }

    /// The uncompressed wire form of the name.
    pub fn to_bytes(&self) -> (r: Vec<u8>)
        ensures
            r@ == name_wire(self@),
            self.wf(),
    {
        proof {
            use_type_invariant(self);
        }
        let mut r: Vec<u8> = Vec::new();
        let n = self.0.len();
        let mut i: usize = 0;
        assert(self@.skip(0) =~= self@);
        assert(r@ + name_wire(self@) =~= name_wire(self@));
        while i < n
            invariant
                i <= n,
                n == self.0@.len(),
                name_wire(self@) == r@ + name_wire(self@.skip(i as int)),
            decreases n - i,
        {
            let mut b = self.0[i].to_bytes();
            proof {
                let tail = self@.skip(i as int);
                assert(tail[0] == self.0@[i as int]@);
                assert(tail.drop_first() =~= self@.skip(i + 1));
            }
            r.append(&mut b);
            i += 1;
        }
        r.push(0);
        r
    }

    /// The name as text: the texts of the labels with `.` between them.
    pub fn to_string(&self) -> (r: String)
        ensures
            r@ == join(self.texts(), dot()),
    {
        let mut out = String::new();
        let n = self.0.len();
        let mut i: usize = 0;
        assert(self.texts().skip(0) =~= self.texts());
        assert(out@ + join(self.texts(), dot()) =~= join(self.texts(), dot()));
        while i < n
            invariant
                i <= n,
                n == self.0@.len(),
                join(self.texts(), dot()) == out@ + join(self.texts().skip(i as int), dot()),
            decreases n - i,
        {
            proof {
                let tail = self.texts().skip(i as int);
                assert(tail[0] == self.0@[i as int].text());
                assert(tail.drop_first() =~= self.texts().skip(i + 1));
                reveal_strlit(".");
                assert("."@ =~= seq![dot()]);
            }
            out.append(self.0[i].value());
            if i + 1 < n {
                out.append(".");
            }
            i += 1;
        }
        out
    }

    /// Number of labels.
    pub fn len(&self) -> (r: usize)
        ensures
            r == self@.len(),
    {
        self.0.len()
    }

    /// The label at position `i`.
    pub fn label(&self, i: usize) -> (r: &Label)
        requires
            i < self@.len(),
        ensures
            *r == self.labels()[i as int],
            r.wf(),
    {
        proof {
            use_type_invariant(self);
        }
        &self.0[i]
    }
}

/// The wire form of a name has one octet for each label, the octets of the
/// labels, and the final zero octet; the root is the single octet zero.
pub proof fn lemma_name_wire_len(labels: Seq<Seq<u8>>)
    ensures
        name_wire(labels).len() == 1 + labels.len() + total_len(labels),
        labels.len() == 0 ==> name_wire(labels) == seq![0u8],
        name_wire(labels).last() == 0,
    decreases labels.len(),
{
    if labels.len() > 0 {
        lemma_name_wire_len(labels.drop_first());
    }
}

/// A name parsed from a text is written back as that text, and the octets of
/// its labels are the pieces of the encoded text between separator octets.
pub proof fn lemma_parsed_name(n: CName, t: Seq<char>)
    requires
        n.texts() == split(t, dot()),
    ensures
        join(n.texts(), dot()) == t,
        n@ == split(encode_utf8(t), DOT),
        n@.len() >= 1,
{
    lemma_join_split(t, dot());
    lemma_split_encode(t);
    lemma_split_pieces(t, dot());
}

/// A text whose pieces are all accepted parses to a name, and a text with
/// a piece longer than 255 octets does not: the pieces hold no separator,
/// so only their length can be refused.
pub proof fn lemma_name_accepted(t: Seq<char>)
    ensures
        all_valid(split(t, dot())) <==> forall|i: int|
            0 <= i < split(t, dot()).len() ==> encode_utf8(#[trigger] split(t, dot())[i]).len()
                <= 255,
{
    lemma_split_pieces(t, dot());
}

impl Default for CName {
    /// The root name, which has no label.
    fn default() -> (r: Self)
        ensures
            r.labels().len() == 0,
            r.wf(),
    {
        CName(Vec::new())
    }
}

} // verus!
