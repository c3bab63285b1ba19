//! A hexadecimal dump of a message, for diagnostics.

use crate::text::{digit_char, put_digit};
use vstd::prelude::*;
use vstd::string::*;

verus! {

/// What the dump shows for the byte at `index`: its two hexadecimal
/// digits; after every second byte a space; after every sixteenth byte a
/// line break as well.
pub open spec fn dump_byte(index: int, byte: u8) -> Seq<char> {
    let digits = seq![digit_char(byte as int / 16), digit_char(byte as int % 16)];
    if index % 2 == 0 {
        digits
    } else if index % 16 != 15 {
        digits.push(' ')
    } else {
        digits.push(' ').push('\n')
    }
}

/// What the dump shows for a run of bytes that starts the buffer.
pub open spec fn dump_bytes(bytes: Seq<u8>) -> Seq<char>
    decreases bytes.len(),
{
    if bytes.len() == 0 {
        Seq::<char>::empty()
    } else {
        dump_bytes(bytes.drop_last()) + dump_byte(bytes.len() - 1, bytes.last())
    }
}

/// The whole dump: a heading, the bytes, and a closing line break.
pub open spec fn dump_text(bytes: Seq<u8>) -> Seq<char> {
    "Binary packet representation:\n"@ + dump_bytes(bytes) + "\n"@
}

/// Renders the bytes of a message in hexadecimal, two digits for each
/// byte, the bytes in pairs, eight pairs to a line.
pub fn dump_buffer(buf: &[u8]) -> (text: String)
    ensures
        text@ == dump_text(buf@),
{
    let mut text: String = String::new();
    text.append("Binary packet representation:\n");
    let ghost heading = text@;
    assert(heading =~= "Binary packet representation:\n"@);
    let mut i: usize = 0;
    assert(buf@.take(0) =~= Seq::<u8>::empty());
    assert(text@ =~= heading + dump_bytes(buf@.take(0)));
    while i < buf.len()
        invariant
            i <= buf.len(),
            text@ == heading + dump_bytes(buf@.take(i as int)),
        decreases buf.len() - i,
    {
        let byte: u8 = buf[i];
        let ghost before = text@;
        put_digit(&mut text, byte / 16);
        put_digit(&mut text, byte % 16);
        if i % 2 == 1 {
            text.append(" ");
            if i % 16 == 15 {
                text.append("\n");
            }
        }
        proof {
            reveal_strlit(" ");
            reveal_strlit("\n");
            assert(text@ =~= before + dump_byte(i as int, byte));
            assert(buf@.take(i + 1).drop_last() =~= buf@.take(i as int));
            assert(buf@.take(i + 1).last() == byte);
            assert(text@ =~= heading + dump_bytes(buf@.take(i + 1)));
        }
        i = i + 1;
    }
    assert(buf@.take(buf.len() as int) =~= buf@);
    text.append("\n");
    text
}

} // verus!
