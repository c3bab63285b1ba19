//! The outbound query message.

use crate::buffer::{be16, buffer_with_capacity, le16, put_u16_be, put_u16_le, put_u8, written};
use crate::flags::{pack_flags, Flags};
use crate::ident::random_id;
use crate::name::{
    encode_name, labels_len, labels_view, lemma_encode_labels_len, put_name, split_labels,
    split_name,
};
use bytes::BytesMut;
use vstd::prelude::*;

verus! {

/// The most questions that the 16-bit question count of a header can state.
pub const MAX_QUESTIONS: usize = 65535;

/// A DNS query: the header fields and the names that are asked about.
/// Every question asks for the host address of its name, in the Internet class.
pub struct DNSRequest {
    /// Transaction identifier.
    pub id: u16,
    /// Query (`false`) or response (`true`).
    pub qr: bool,
    /// Kind of query, four bits wide.
    pub opcode: u8,
    /// Authoritative answer.
    pub aa: bool,
    /// Truncation.
    pub tc: bool,
    /// Recursion desired.
    pub rd: bool,
    /// Recursion available.
    pub ra: bool,
    /// Reserved field, three bits wide.
    pub z: u8,
    /// Response code, four bits wide.
    pub rcode: u8,
    /// Number of answer records.
    pub ancount: u16,
    /// Number of authority records.
    pub nscount: u16,
    /// Number of additional records.
    pub arcount: u16,
    /// The names asked about, oldest first, each as its list of labels.
    pub names: Vec<Vec<String>>,
}

/// One question on the wire: the name, then the query type (host address)
/// and the query class (Internet), two octets each, high octet first.
pub open spec fn encode_question(labels: Seq<Seq<char>>) -> Seq<u8> {
    encode_name(labels) + seq![0u8, 1u8, 0u8, 1u8]
}

/// The question section on the wire: the questions one after the other.
pub open spec fn encode_questions(questions: Seq<Seq<Seq<char>>>) -> Seq<u8>
    decreases questions.len(),
{
    if questions.len() == 0 {
        Seq::<u8>::empty()
    } else {
        encode_questions(questions.drop_last()) + encode_question(questions.last())
    }
}

/// The twelve octets of a header: the identifier with its low octet first,
/// the two flag octets, then the four counts with their high octet first.
pub open spec fn encode_header(
    id: u16,
    flags: Flags,
    qdcount: u16,
    ancount: u16,
    nscount: u16,
    arcount: u16,
) -> Seq<u8> {
    le16(id) + seq![flags.octet1() as u8, flags.octet2() as u8] + be16(qdcount) + be16(ancount)
        + be16(nscount) + be16(arcount)
}

impl DNSRequest {
    /// The questions added so far, oldest first, each as its list of labels.
    pub open spec fn questions(self) -> Seq<Seq<Seq<char>>> {
        self.names@.map_values(|labels: Vec<String>| labels_view(labels@))
    }

    /// The flag fields of the header.
    pub open spec fn flags(self) -> Flags {
        Flags {
            qr: self.qr,
            opcode: self.opcode,
            aa: self.aa,
            tc: self.tc,
            rd: self.rd,
            ra: self.ra,
            z: self.z,
            rcode: self.rcode,
        }
    }

    /// The message can be put on the wire: the flag fields fit their widths
    /// and the number of questions fits the 16-bit count.
    pub open spec fn wf(self) -> bool {
        &&& self.flags().wf()
        &&& self.questions().len() <= MAX_QUESTIONS
    }

    /// The header fields of `self` and `other` agree.
    pub open spec fn same_header(self, other: DNSRequest) -> bool {
        &&& self.id == other.id
        &&& self.flags() == other.flags()
        &&& self.ancount == other.ancount
        &&& self.nscount == other.nscount
        &&& self.arcount == other.arcount
    }

    /// A plain query without questions: recursion is desired, every other
    /// flag and count is zero.
    pub open spec fn is_fresh(self) -> bool {
        &&& self.flags() == (Flags {
            qr: false,
            opcode: 0,
            aa: false,
            tc: false,
            rd: true,
            ra: false,
            z: 0,
            rcode: 0,
        })
        &&& self.ancount == 0
        &&& self.nscount == 0
        &&& self.arcount == 0
        &&& self.questions() == Seq::<Seq<Seq<char>>>::empty()
    }

    /// The whole message on the wire: the header, with the number of
    /// questions as its question count, then the question section.
    pub open spec fn wire(self) -> Seq<u8> {
        encode_header(
            self.id,
            self.flags(),
            self.questions().len() as u16,
            self.ancount,
            self.nscount,
            self.arcount,
        ) + encode_questions(self.questions())
    }

    /// A fresh query under the given transaction identifier.
    pub fn with_id(id: u16) -> (request: DNSRequest)
        ensures
            request.id == id,
            request.is_fresh(),
            request.wf(),
    {
        let request = DNSRequest {
            id,
            qr: false,
            opcode: 0,
            aa: false,
            tc: false,
            rd: true,
            ra: false,
            z: 0,
            rcode: 0,
            ancount: 0,
            nscount: 0,
            arcount: 0,
            names: Vec::new(),
        };
        assert(request.questions() =~= Seq::<Seq<Seq<char>>>::empty());
        request
    }

    /// A fresh query under a transaction identifier drawn at random.
    pub fn new() -> (request: DNSRequest)
        ensures
            request.is_fresh(),
            request.wf(),
    {
        DNSRequest::with_id(random_id())
    }

    /// Whether the message can be put on the wire.
    pub fn fits_the_wire(&self) -> (fits: bool)
        ensures
            fits == self.wf(),
    {
        self.header_flags().fits_the_wire() && self.names.len() <= MAX_QUESTIONS
    }

    /// The flag fields of the header, as one value.
    pub fn header_flags(&self) -> (flags: Flags)
        ensures
            flags == self.flags(),
    {
        Flags {
            qr: self.qr,
            opcode: self.opcode,
            aa: self.aa,
            tc: self.tc,
            rd: self.rd,
            ra: self.ra,
            z: self.z,
            rcode: self.rcode,
        }
    }

    /// Adds a question about `name`, split into labels at its dots. The
    /// name is taken as it is: neither its characters nor the lengths of
    /// its labels are checked.
    pub fn add_question(&mut self, name: &str)
        ensures
            final(self).questions() == old(self).questions().push(split_labels(name@)),
            final(self).questions().len() == old(self).questions().len() + 1,
            final(self).same_header(*old(self)),
    {
        let labels: Vec<String> = split_name(name);
        proof {
            assert(self.names@.push(labels).map_values(|l: Vec<String>| labels_view(l@))
                =~= self.questions().push(labels_view(labels@)));
        }
        self.names.push(labels);
    }

    /// The number of questions added so far, which is the question count
    /// of the header.
    pub fn qdcount(&self) -> (count: u16)
        requires
            self.questions().len() <= MAX_QUESTIONS,
        ensures
            count == self.questions().len(),
    {
        self.names.len() as u16
    }

    /// Puts the message on the wire.
    pub fn to_buffer(&self) -> (buf: BytesMut)
        requires
            self.wf(),
        ensures
            written(buf) == self.wire(),
    {
        let mut buf: BytesMut = buffer_with_capacity(1024);
        put_u16_le(&mut buf, self.id);
        let octets: (u8, u8) = pack_flags(&self.header_flags());
        put_u8(&mut buf, octets.0);
        put_u8(&mut buf, octets.1);
        put_u16_be(&mut buf, self.qdcount());
        put_u16_be(&mut buf, self.ancount);
        put_u16_be(&mut buf, self.nscount);
        put_u16_be(&mut buf, self.arcount);
        let ghost header = encode_header(
            self.id,
            self.flags(),
            self.questions().len() as u16,
            self.ancount,
            self.nscount,
            self.arcount,
        );
        assert(written(buf) =~= header);
        let mut i: usize = 0;
        assert(self.questions().take(0) =~= Seq::<Seq<Seq<char>>>::empty());
        assert(written(buf) =~= header + encode_questions(self.questions().take(0)));
        while i < self.names.len()
            invariant
                i <= self.names.len(),
                written(buf) == header + encode_questions(self.questions().take(i as int)),
            decreases self.names.len() - i,
        {
            put_name(&mut buf, &self.names[i]);
            put_u8(&mut buf, 0);
            put_u8(&mut buf, 1);
            put_u8(&mut buf, 0);
            put_u8(&mut buf, 1);
            proof {
                let all = self.questions();
                assert(all.take(i + 1).drop_last() =~= all.take(i as int));
                assert(all.take(i + 1).last() == labels_view(self.names[i as int]@));
                assert(written(buf) =~= header + encode_questions(all.take(i + 1)));
            }
            i = i + 1;
        }
        assert(self.questions().take(self.names.len() as int) =~= self.questions());
        buf
    }
}

/// A message without questions is its header alone: twelve octets, of
/// which the two of the question count are zero.
pub proof fn lemma_wire_without_questions(request: DNSRequest)
    requires
        request.questions().len() == 0,
    ensures
        request.wire().len() == 12,
        request.wire()[4] == 0,
        request.wire()[5] == 0,
        request.wire().subrange(6, 12) == be16(request.ancount) + be16(request.nscount) + be16(
            request.arcount,
        ),
        request.ancount == 0 && request.nscount == 0 && request.arcount == 0 ==> forall|i: int|
            6 <= i < 12 ==> request.wire()[i] == 0,
{
    assert(request.wire().subrange(6, 12) =~= be16(request.ancount) + be16(request.nscount) + be16(
        request.arcount,
    ));
}

/// The length of a question section: each question takes one octet for
/// each label and each character of its name, and five more.
pub open spec fn questions_len(questions: Seq<Seq<Seq<char>>>) -> nat
    decreases questions.len(),
{
    if questions.len() == 0 {
        0
    } else {
        questions_len(questions.drop_last()) + labels_len(questions.last()) + 5
    }
}

/// A question section takes as many octets as `questions_len` says.
pub proof fn lemma_encode_questions_len(questions: Seq<Seq<Seq<char>>>)
    ensures
        encode_questions(questions).len() == questions_len(questions),
    decreases questions.len(),
{
    if questions.len() > 0 {
        lemma_encode_questions_len(questions.drop_last());
        lemma_encode_labels_len(questions.last());
    }
}

/// A message is twelve octets of header and then its question section,
/// whose length is the sum over the questions of the length of the labels
/// plus five.
pub proof fn lemma_wire_len(request: DNSRequest)
    ensures
        request.wire().len() == 12 + questions_len(request.questions()),
{
    lemma_encode_questions_len(request.questions());
}

} // verus!
