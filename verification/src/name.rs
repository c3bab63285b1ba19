//! Domain names: how a dotted name falls into labels, and how the labels
//! are laid out on the wire.

use crate::buffer::{put_u8, written};
use bytes::BytesMut;
use vstd::prelude::*;
use vstd::string::*;
use vstd::utf8::{encode_utf8, is_ascii_chars, is_ascii_chars_encode_utf8};

verus! {

/// The labels of a dotted name, in order. A name without a dot is one
/// label; each dot ends a label and begins the next, so a name that ends
/// in a dot has an empty last label, and the empty name has one empty label.
pub open spec fn split_labels(name: Seq<char>) -> Seq<Seq<char>>
    decreases name.len(),
{
    if name.len() == 0 {
        seq![Seq::<char>::empty()]
    } else {
        let before = split_labels(name.drop_last());
        if name.last() == '.' {
            before.push(Seq::<char>::empty())
        } else {
            before.drop_last().push(before.last().push(name.last()))
        }
    }
}

/// The octet that stands for a character: its code point, cut to eight bits.
pub open spec fn char_octet(c: char) -> u8 {
    ((c as u32) % 256) as u8
}

/// The length octet of a label: the length of its UTF-8 form, cut to eight bits.
pub open spec fn length_octet(label: Seq<char>) -> u8 {
    (encode_utf8(label).len() % 256) as u8
}

/// A label on the wire: its length octet, then one octet for each character.
pub open spec fn encode_label(label: Seq<char>) -> Seq<u8> {
    seq![length_octet(label)] + label.map_values(|c: char| char_octet(c))
}

/// The labels on the wire, one after the other.
pub open spec fn encode_labels(labels: Seq<Seq<char>>) -> Seq<u8>
    decreases labels.len(),
{
    if labels.len() == 0 {
        Seq::<u8>::empty()
    } else {
        encode_labels(labels.drop_last()) + encode_label(labels.last())
    }
}

/// A name on the wire: its labels, then the zero octet that ends it.
pub open spec fn encode_name(labels: Seq<Seq<char>>) -> Seq<u8> {
    encode_labels(labels).push(0u8)
}

/// The length of the labels of a name on the wire: one octet for each
/// label and one for each of its characters.
pub open spec fn labels_len(labels: Seq<Seq<char>>) -> nat
    decreases labels.len(),
{
    if labels.len() == 0 {
        0
    } else {
        labels_len(labels.drop_last()) + 1 + labels.last().len()
    }
}

/// The labels of a name take as many octets as `labels_len` says.
pub proof fn lemma_encode_labels_len(labels: Seq<Seq<char>>)
    ensures
        encode_labels(labels).len() == labels_len(labels),
    decreases labels.len(),
{
    if labels.len() > 0 {
        lemma_encode_labels_len(labels.drop_last());
    }
}

/// The labels put together again, with a dot between each two.
pub open spec fn join_labels(labels: Seq<Seq<char>>) -> Seq<char>
    decreases labels.len(),
{
    if labels.len() == 0 {
        Seq::<char>::empty()
    } else if labels.len() == 1 {
        labels[0]
    } else {
        join_labels(labels.drop_last()).push('.') + labels.last()
    }
}

/// Splitting loses nothing: a name has at least one label, no label
/// holds a dot, and the labels joined by dots are the name again.
pub proof fn lemma_split_labels(name: Seq<char>)
    ensures
        split_labels(name).len() >= 1,
        forall|j: int, k: int|
            0 <= j < split_labels(name).len() && 0 <= k < split_labels(name)[j].len()
                ==> split_labels(name)[j][k] != '.',
        join_labels(split_labels(name)) == name,
    decreases name.len(),
{
    if name.len() == 0 {
        assert(join_labels(split_labels(name)) =~= name);
    } else {
        let shorter = name.drop_last();
        let before = split_labels(shorter);
        lemma_split_labels(shorter);
        if name.last() == '.' {
            let labels = before.push(Seq::<char>::empty());
            assert(labels.drop_last() =~= before);
            assert(join_labels(labels) =~= shorter.push('.'));
            assert(shorter.push('.') =~= name);
        } else {
            let grown = before.last().push(name.last());
            let labels = before.drop_last().push(grown);
            assert(labels.drop_last() =~= before.drop_last());
            assert(join_labels(labels) =~= join_labels(before).push(name.last()));
            assert(shorter.push(name.last()) =~= name);
        }
    }
}

/// The labels of a name take one octet more than the name has
/// characters: a length octet for the first label, and for each further
/// label a length octet where the name has a dot.
pub proof fn lemma_split_labels_len(name: Seq<char>)
    ensures
        labels_len(split_labels(name)) == name.len() + 1,
    decreases name.len(),
{
    if name.len() == 0 {
        let labels = split_labels(name);
        assert(labels.drop_last() =~= Seq::<Seq<char>>::empty());
        assert(labels_len(labels.drop_last()) == 0);
    } else {
        let before = split_labels(name.drop_last());
        lemma_split_labels(name.drop_last());
        lemma_split_labels_len(name.drop_last());
        if name.last() == '.' {
            let labels = before.push(Seq::<char>::empty());
            assert(labels.drop_last() =~= before);
            assert(labels_len(labels) == labels_len(before) + 1);
        } else {
            let grown = before.last().push(name.last());
            let labels = before.drop_last().push(grown);
            assert(labels.drop_last() =~= before.drop_last());
            assert(labels_len(labels) == labels_len(before.drop_last()) + 1 + grown.len());
            assert(labels_len(before) == labels_len(before.drop_last()) + 1 + before.last().len());
        }
    }
}

/// What a list of labels holds, as plain sequences.
pub open spec fn labels_view(labels: Seq<String>) -> Seq<Seq<char>> {
    labels.map_values(|l: String| l@)
}

/// Splits a dotted name into its labels.
pub fn split_name(name: &str) -> (labels: Vec<String>)
    ensures
        labels_view(labels@) == split_labels(name@),
{
    let n: usize = name.unicode_len();
    let mut labels: Vec<String> = Vec::new();
    let mut start: usize = 0;
    let mut i: usize = 0;
    assert(name@.take(0) =~= Seq::<char>::empty());
    assert(name@.subrange(0, 0) =~= Seq::<char>::empty());
    assert(labels_view(labels@).push(name@.subrange(0, 0)) =~= split_labels(name@.take(0)));
    while i < n
        invariant
            n == name@.len(),
            start <= i <= n,
            split_labels(name@.take(i as int)) == labels_view(labels@).push(
                name@.subrange(start as int, i as int),
            ),
        decreases n - i,
    {
        let c: char = name.get_char(i);
        proof {
            assert(name@.take(i + 1).drop_last() =~= name@.take(i as int));
            assert(name@.take(i + 1).last() == c);
        }
        if c == '.' {
            let label: String = String::from_str(name.substring_char(start, i));
            proof {
                assert(labels_view(labels@.push(label)) =~= labels_view(labels@).push(label@));
                assert(name@.subrange(i + 1, i + 1) =~= Seq::<char>::empty());
            }
            labels.push(label);
            start = i + 1;
        } else {
            proof {
                let before = labels_view(labels@).push(name@.subrange(start as int, i as int));
                assert(before.drop_last() =~= labels_view(labels@));
                assert(name@.subrange(start as int, i as int).push(c) =~= name@.subrange(
                    start as int,
                    i + 1,
                ));
            }
        }
        i = i + 1;
    }
    let label: String = String::from_str(name.substring_char(start, n));
    proof {
        assert(name@.take(n as int) =~= name@);
        assert(labels_view(labels@.push(label)) =~= labels_view(labels@).push(label@));
    }
    labels.push(label);
    labels
}

/// The longest label that the wire format has room for.
pub const MAX_LABEL_LEN: usize = 63;

/// The longest name on the wire, its length octets and closing zero included.
pub const MAX_NAME_LEN: usize = 255;

/// Why a name does not fit the wire format.
#[derive(Clone, Copy, Debug, PartialEq, Eq, Structural)]
pub enum NameError {
    /// The name holds a character outside ASCII.
    InvalidCharacter,
    /// A label is longer than `MAX_LABEL_LEN`.
    LabelTooLong,
    /// The name takes more than `MAX_NAME_LEN` octets on the wire.
    NameTooLong,
}

/// No label is longer than the wire format has room for.
pub open spec fn labels_fit(labels: Seq<Seq<char>>) -> bool {
    forall|j: int| 0 <= j < labels.len() ==> (#[trigger] labels[j]).len() <= MAX_LABEL_LEN
}

/// Whether a name fits the wire format, and if not, why: a character
/// outside ASCII is reported first, then a label that is too long, then
/// a name that is too long as a whole.
pub open spec fn check_name(name: Seq<char>) -> Result<(), NameError> {
    if !is_ascii_chars(name) {
        Err(NameError::InvalidCharacter)
    } else if !labels_fit(split_labels(name)) {
        Err(NameError::LabelTooLong)
    } else if encode_name(split_labels(name)).len() > MAX_NAME_LEN {
        Err(NameError::NameTooLong)
    } else {
        Ok(())
    }
}

/// Checks that a name fits the wire format. Adding a question does not
/// ask for this: a caller who wants only such names on the wire checks
/// them first.
pub fn validate_name(name: &str) -> (result: Result<(), NameError>)
    ensures
        result == check_name(name@),
{
    if !name.is_ascii() {
        return Err(NameError::InvalidCharacter);
    }
    let n: usize = name.unicode_len();
    let mut fits: bool = true;
    let mut run: usize = 0;
    let mut i: usize = 0;
    assert(name@.take(0) =~= Seq::<char>::empty());
    while i < n
        invariant
            n == name@.len(),
            run <= i <= n,
            split_labels(name@.take(i as int)).len() >= 1,
            run == split_labels(name@.take(i as int)).last().len(),
            fits == labels_fit(split_labels(name@.take(i as int))),
        decreases n - i,
    {
        let c: char = name.get_char(i);
        proof {
            let before = split_labels(name@.take(i as int));
            let after = split_labels(name@.take(i + 1));
            assert(name@.take(i + 1).drop_last() =~= name@.take(i as int));
            assert(name@.take(i + 1).last() == c);
            lemma_split_labels(name@.take(i + 1));
            if c == '.' {
                assert(after == before.push(Seq::<char>::empty()));
                assert(forall|j: int| 0 <= j < before.len() ==> after[j] == before[j]);
                assert(labels_fit(after) == labels_fit(before));
            } else {
                let grown = before.last().push(c);
                assert(after == before.drop_last().push(grown));
                assert(forall|j: int| 0 <= j < before.len() - 1 ==> after[j] == before[j]);
                assert(after[before.len() - 1] == grown);
                if fits && run + 1 <= MAX_LABEL_LEN {
                    assert(labels_fit(after));
                } else if !fits {
                    let j = choose|j: int| 0 <= j < before.len() && before[j].len() > MAX_LABEL_LEN;
                    if j < before.len() - 1 {
                        assert(after[j].len() > MAX_LABEL_LEN);
                    }
                    assert(!labels_fit(after));
                } else {
                    assert(!labels_fit(after));
                }
            }
        }
        if c == '.' {
            run = 0;
        } else {
            run = run + 1;
            if run > MAX_LABEL_LEN {
                fits = false;
            }
        }
        i = i + 1;
    }
    proof {
        assert(name@.take(n as int) =~= name@);
        lemma_split_labels_len(name@);
        lemma_encode_labels_len(split_labels(name@));
    }
    if !fits {
        Err(NameError::LabelTooLong)
    } else if n > MAX_NAME_LEN - 2 {
        Err(NameError::NameTooLong)
    } else {
        Ok(())
    }
}

/// The labels of a name made of ASCII characters are made of ASCII
/// characters.
pub proof fn lemma_labels_are_ascii(name: Seq<char>)
    requires
        is_ascii_chars(name),
    ensures
        forall|j: int|
            0 <= j < split_labels(name).len() ==> is_ascii_chars(#[trigger] split_labels(name)[j]),
    decreases name.len(),
{
    if name.len() > 0 {
        let shorter = name.drop_last();
        let before = split_labels(shorter);
        let after = split_labels(name);
        assert forall|i: int| 0 <= i < shorter.len() implies '\0' <= #[trigger] shorter[i]
            <= '\u{7f}' by {
            assert(shorter[i] == name[i]);
        }
        lemma_labels_are_ascii(shorter);
        lemma_split_labels(shorter);
        assert forall|j: int| 0 <= j < after.len() implies is_ascii_chars(#[trigger] after[j]) by {
            if name.last() == '.' {
                if j < before.len() {
                    assert(after[j] == before[j]);
                }
            } else if j < before.len() - 1 {
                assert(after[j] == before[j]);
            } else {
                let grown = before.last().push(name.last());
                assert(after[j] == grown);
                assert(is_ascii_chars(before[before.len() - 1]));
                assert forall|k: int| 0 <= k < grown.len() implies '\0' <= #[trigger] grown[k]
                    <= '\u{7f}' by {
                    if k < grown.len() - 1 {
                        assert(grown[k] == before.last()[k]);
                    } else {
                        assert(grown[k] == name[name.len() - 1]);
                    }
                }
            }
        }
    }
}

/// A name that passes the check goes onto the wire unharmed: the length
/// octet of each label is the number of its characters, and each
/// character is written as its own code.
pub proof fn lemma_checked_name_on_wire(name: Seq<char>)
    requires
        check_name(name) is Ok,
    ensures
        forall|j: int|
            0 <= j < split_labels(name).len() ==> length_octet(#[trigger] split_labels(name)[j])
                == split_labels(name)[j].len(),
        forall|j: int, k: int|
            0 <= j < split_labels(name).len() && 0 <= k < split_labels(name)[j].len()
                ==> char_octet(#[trigger] split_labels(name)[j][k]) as u32 == split_labels(
                name,
            )[j][k] as u32,
{
    let labels = split_labels(name);
    lemma_labels_are_ascii(name);
    assert forall|j: int| 0 <= j < labels.len() implies length_octet(#[trigger] labels[j])
        == labels[j].len() by {
        assert(is_ascii_chars(labels[j]));
        is_ascii_chars_encode_utf8(labels[j]);
        assert(labels[j].len() <= MAX_LABEL_LEN);
    }
    assert forall|j: int, k: int|
        0 <= j < labels.len() && 0 <= k < labels[j].len() implies char_octet(
        #[trigger] labels[j][k],
    ) as u32 == labels[j][k] as u32 by {
        assert(is_ascii_chars(labels[j]));
        assert(labels[j][k] <= '\u{7f}');
    }
}

/// Appends the wire form of one label to `buf`.
pub fn put_label(buf: &mut BytesMut, label: &str)
    ensures
        written(*final(buf)) == written(*old(buf)) + encode_label(label@),
{
    let bytes: &[u8] = label.as_bytes();
    let length: usize = bytes.len();
    put_u8(buf, (length % 256) as u8);
    let n: usize = label.unicode_len();
    let mut i: usize = 0;
    assert(label@.take(0) =~= Seq::<char>::empty());
    assert(written(*buf) =~= written(*old(buf)) + encode_label(label@.take(0)).update(
        0,
        length_octet(label@),
    ));
    while i < n
        invariant
            n == label@.len(),
            i <= n,
            written(*buf) == written(*old(buf)) + (seq![length_octet(label@)] + label@.take(
                i as int,
            ).map_values(|c: char| char_octet(c))),
        decreases n - i,
    {
        let c: char = label.get_char(i);
        let code: u32 = c as u32;
        put_u8(buf, (code % 256) as u8);
        proof {
            assert(label@.take(i + 1) =~= label@.take(i as int).push(c));
            assert(label@.take(i + 1).map_values(|c: char| char_octet(c)) =~= label@.take(
                i as int,
            ).map_values(|c: char| char_octet(c)).push(char_octet(c)));
            assert(written(*buf) =~= written(*old(buf)) + (seq![length_octet(label@)] + label@.take(
                i + 1,
            ).map_values(|c: char| char_octet(c))));
        }
        i = i + 1;
    }
    assert(label@.take(n as int) =~= label@);
}

/// Appends the wire form of a name to `buf`: each label, then a zero octet.
pub fn put_name(buf: &mut BytesMut, labels: &Vec<String>)
    ensures
        written(*final(buf)) == written(*old(buf)) + encode_name(labels_view(labels@)),
{
    let mut i: usize = 0;
    assert(labels_view(labels@).take(0) =~= Seq::<Seq<char>>::empty());
    assert(written(*buf) =~= written(*old(buf)) + encode_labels(labels_view(labels@).take(0)));
    while i < labels.len()
        invariant
            i <= labels.len(),
            written(*buf) == written(*old(buf)) + encode_labels(
                labels_view(labels@).take(i as int),
            ),
        decreases labels.len() - i,
    {
        let ghost before = written(*buf);
        put_label(buf, labels[i].as_str());
        proof {
            let all = labels_view(labels@);
            assert(all.take(i + 1).drop_last() =~= all.take(i as int));
            assert(all.take(i + 1).last() == labels[i as int]@);
            assert(written(*buf) =~= written(*old(buf)) + encode_labels(all.take(i + 1)));
        }
        i = i + 1;
    }
    assert(labels_view(labels@).take(labels.len() as int) =~= labels_view(labels@));
    put_u8(buf, 0);
    assert(written(*buf) =~= written(*old(buf)) + encode_name(labels_view(labels@)));
}

} // verus!
