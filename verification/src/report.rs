//! Human-readable descriptions of a query and of a reply header.

use crate::bits::{binary_digits, get_bits};
use crate::flags::Flags;
use crate::name::labels_view;
use crate::request::{DNSRequest, MAX_QUESTIONS};
use crate::response::DNSResponse;
use crate::text::{bool_text, decimal, put_bool, put_decimal};
use vstd::prelude::*;
use vstd::string::*;
use vstd::utf8::encode_utf8;

verus! {

/// One line of a description: the field's name, a colon and a tab, the
/// value, a line break.
pub open spec fn field(name: Seq<char>, value: Seq<char>) -> Seq<char> {
    name + ":\t"@ + value + "\n"@
}

/// The first part of a description: the opening line, the identifier in
/// decimal, each flag as a word, and `opcode`, `z` and `rcode` as four,
/// three and four binary digits.
pub open spec fn describe_flags(id: u16, flags: Flags) -> Seq<char> {
    "--- Begin of packet ---\n"@ + field("id"@, decimal(id as nat)) + field(
        "qr"@,
        bool_text(flags.qr),
    ) + field("opcode"@, binary_digits(flags.opcode as nat, 4)) + field("aa"@, bool_text(flags.aa))
        + field("tc"@, bool_text(flags.tc)) + field("rd"@, bool_text(flags.rd)) + field(
        "ra"@,
        bool_text(flags.ra),
    ) + field("z"@, binary_digits(flags.z as nat, 3)) + field(
        "rcode"@,
        binary_digits(flags.rcode as nat, 4),
    ) + "--\n"@
}

/// The counts of answer, authority and additional records, each as
/// sixteen binary digits.
pub open spec fn describe_counts(ancount: u16, nscount: u16, arcount: u16) -> Seq<char> {
    field("ancount"@, binary_digits(ancount as nat, 16)) + field(
        "nscount"@,
        binary_digits(nscount as nat, 16),
    ) + field("arcount"@, binary_digits(arcount as nat, 16)) + "--\n"@
}

/// One label of a name: the length of its UTF-8 form in decimal, then
/// the label itself.
pub open spec fn describe_label(label: Seq<char>) -> Seq<char> {
    "(len: "@ + decimal(encode_utf8(label).len()) + ")\t"@ + label + "\n"@
}

/// The labels of a name, one line each.
pub open spec fn describe_labels(labels: Seq<Seq<char>>) -> Seq<char>
    decreases labels.len(),
{
    if labels.len() == 0 {
        Seq::<char>::empty()
    } else {
        describe_labels(labels.drop_last()) + describe_label(labels.last())
    }
}

/// The names of a query: for each a heading with its number, counted
/// from one, then its labels.
pub open spec fn describe_names(names: Seq<Seq<Seq<char>>>) -> Seq<char>
    decreases names.len(),
{
    if names.len() == 0 {
        Seq::<char>::empty()
    } else {
        describe_names(names.drop_last()) + ("name #"@ + decimal(names.len()) + ":\n"@)
            + describe_labels(names.last())
    }
}

/// The description of a query.
pub open spec fn describe_request(request: DNSRequest) -> Seq<char> {
    describe_flags(request.id, request.flags()) + field(
        "qdcount"@,
        binary_digits(request.questions().len(), 16),
    ) + describe_counts(request.ancount, request.nscount, request.arcount) + describe_names(
        request.questions(),
    ) + "--- End of packet ---\n"@
}

/// The description of a reply header.
pub open spec fn describe_response(response: DNSResponse) -> Seq<char> {
    describe_flags(response.id, response.flags()) + describe_counts(
        response.ancount,
        response.nscount,
        response.arcount,
    ) + "--- End of packet ---\n"@
}

fn put_bool_field(text: &mut String, name: &str, value: bool)
    ensures
        final(text)@ == old(text)@ + field(name@, bool_text(value)),
{
    let ghost before = text@;
    text.append(name);
    text.append(":\t");
    put_bool(text, value);
    text.append("\n");
    assert(text@ =~= before + field(name@, bool_text(value)));
}

fn put_bits_field(text: &mut String, name: &str, value: u16, width: usize)
    requires
        1 <= width <= 16,
    ensures
        final(text)@ == old(text)@ + field(name@, binary_digits(value as nat, width as nat)),
{
    let ghost before = text@;
    text.append(name);
    text.append(":\t");
    let bits: String = get_bits(value, width);
    text.append(bits.as_str());
    text.append("\n");
    assert(text@ =~= before + field(name@, binary_digits(value as nat, width as nat)));
}

fn put_decimal_field(text: &mut String, name: &str, value: usize)
    ensures
        final(text)@ == old(text)@ + field(name@, decimal(value as nat)),
{
    let ghost before = text@;
    text.append(name);
    text.append(":\t");
    put_decimal(text, value);
    text.append("\n");
    assert(text@ =~= before + field(name@, decimal(value as nat)));
}

fn flags_text(id: u16, flags: &Flags) -> (text: String)
    ensures
        text@ == describe_flags(id, *flags),
{
    let mut text: String = String::new();
    text.append("--- Begin of packet ---\n");
    assert(text@ =~= "--- Begin of packet ---\n"@);
    put_decimal_field(&mut text, "id", id as usize);
    put_bool_field(&mut text, "qr", flags.qr);
    put_bits_field(&mut text, "opcode", flags.opcode as u16, 4);
    put_bool_field(&mut text, "aa", flags.aa);
    put_bool_field(&mut text, "tc", flags.tc);
    put_bool_field(&mut text, "rd", flags.rd);
    put_bool_field(&mut text, "ra", flags.ra);
    put_bits_field(&mut text, "z", flags.z as u16, 3);
    put_bits_field(&mut text, "rcode", flags.rcode as u16, 4);
    text.append("--\n");
    text
}

fn counts_text(ancount: u16, nscount: u16, arcount: u16) -> (text: String)
    ensures
        text@ == describe_counts(ancount, nscount, arcount),
{
    let mut text: String = String::new();
    put_bits_field(&mut text, "ancount", ancount, 16);
    assert(text@ =~= field("ancount"@, binary_digits(ancount as nat, 16)));
    put_bits_field(&mut text, "nscount", nscount, 16);
    put_bits_field(&mut text, "arcount", arcount, 16);
    text.append("--\n");
    text
}

fn put_labels(text: &mut String, labels: &Vec<String>)
    ensures
        final(text)@ == old(text)@ + describe_labels(labels_view(labels@)),
{
    let ghost before = text@;
    let ghost all = labels_view(labels@);
    let mut i: usize = 0;
    assert(all.take(0) =~= Seq::<Seq<char>>::empty());
    assert(text@ =~= before + describe_labels(all.take(0)));
    while i < labels.len()
        invariant
            i <= labels.len(),
            all == labels_view(labels@),
            text@ == before + describe_labels(all.take(i as int)),
        decreases labels.len() - i,
    {
        let ghost so_far = text@;
        let label: &str = labels[i].as_str();
        text.append("(len: ");
        put_decimal(text, label.as_bytes().len());
        text.append(")\t");
        text.append(label);
        text.append("\n");
        proof {
            assert(text@ =~= so_far + describe_label(label@));
            assert(all.take(i + 1).drop_last() =~= all.take(i as int));
            assert(all.take(i + 1).last() == label@);
            assert(text@ =~= before + describe_labels(all.take(i + 1)));
        }
        i = i + 1;
    }
    assert(all.take(labels.len() as int) =~= all);
}

impl DNSRequest {
    /// Describes the query for a reader: the header fields line by line,
    /// then each name with its labels.
    pub fn describe(&self) -> (text: String)
        requires
            self.questions().len() <= MAX_QUESTIONS,
        ensures
            text@ == describe_request(*self),
    {
        let mut text: String = flags_text(self.id, &self.header_flags());
        put_bits_field(&mut text, "qdcount", self.qdcount(), 16);
        text.append(counts_text(self.ancount, self.nscount, self.arcount).as_str());
        let ghost head = text@;
        let ghost all = self.questions();
        let mut i: usize = 0;
        assert(all.take(0) =~= Seq::<Seq<Seq<char>>>::empty());
        assert(text@ =~= head + describe_names(all.take(0)));
        while i < self.names.len()
            invariant
                i <= self.names.len(),
                all == self.questions(),
                text@ == head + describe_names(all.take(i as int)),
            decreases self.names.len() - i,
        {
            let ghost so_far = text@;
            text.append("name #");
            put_decimal(&mut text, i + 1);
            text.append(":\n");
            put_labels(&mut text, &self.names[i]);
            proof {
                assert(all.take(i + 1).drop_last() =~= all.take(i as int));
                assert(all.take(i + 1).last() == labels_view(self.names[i as int]@));
                assert(text@ =~= head + describe_names(all.take(i + 1)));
            }
            i = i + 1;
        }
        assert(all.take(self.names.len() as int) =~= all);
        text.append("--- End of packet ---\n");
        text
    }
}

impl DNSResponse {
    /// Describes the header for a reader, field by field.
    pub fn describe(&self) -> (text: String)
        ensures
            text@ == describe_response(*self),
    {
        let mut text: String = flags_text(self.id, &self.header_flags());
        text.append(counts_text(self.ancount, self.nscount, self.arcount).as_str());
        text.append("--- End of packet ---\n");
        text
    }
}

} // verus!
