//! The message with which a node delivers its part of a decryption.

use vstd::prelude::*;

use crate::bytes::{append, copy_range};
use crate::scale::{
    append_u32_le, bytes_and_rest, decode_bytes, encode_bytes, law_bytes_are_unambiguous,
    law_u32_round_trip, le_bytes, le_value, read_u32_le, scale_bytes,
};

verus! {

/// A partial decryption of a file, by the node at `index`.
#[derive(Debug)]
pub struct PartialDecryptionMessage {
    pub filename: Vec<u8>,
    pub index: u32,
    pub partial_decryption_bytes: Vec<u8>,
}

/// The fields of a message.
#[verifier::ext_equal]
pub struct MessageView {
    pub filename: Seq<u8>,
    pub index: u32,
    pub partial_decryption_bytes: Seq<u8>,
}

impl View for PartialDecryptionMessage {
    type V = MessageView;

    open spec fn view(&self) -> MessageView {
        MessageView {
            filename: self.filename@,
            index: self.index,
            partial_decryption_bytes: self.partial_decryption_bytes@,
        }
    }
}

/// The bytes of a message: its three fields, one after the other.
pub open spec fn message_scale(m: MessageView) -> Seq<u8> {
    scale_bytes(m.filename) + le_bytes(m.index as nat, 4) + scale_bytes(m.partial_decryption_bytes)
}

/// Whether the lengths of the fields can be encoded.
pub open spec fn message_fits(m: MessageView) -> bool {
    &&& m.filename.len() <= u32::MAX
    &&& m.partial_decryption_bytes.len() <= u32::MAX
}

proof fn lemma_message_prefix(m: MessageView, tail: Seq<u8>)
    ensures
        message_scale(m) + tail == scale_bytes(m.filename) + (le_bytes(m.index as nat, 4) + (
        scale_bytes(m.partial_decryption_bytes) + tail)),
        le_bytes(m.index as nat, 4).len() == 4,
        le_value(le_bytes(m.index as nat, 4)) == m.index,
{
    law_u32_round_trip(m.index);
    assert(message_scale(m) + tail =~= scale_bytes(m.filename) + (le_bytes(m.index as nat, 4) + (
    scale_bytes(m.partial_decryption_bytes) + tail)));
}

proof fn lemma_four_bytes(b: Seq<u8>)
    requires
        b.len() == 4,
    ensures
        le_bytes(le_value(b), 4) == b,
{
    reveal_with_fuel(le_value, 5);
    reveal_with_fuel(le_bytes, 5);
    assert(b.drop_first().drop_first().drop_first().first() == b[3]);
    assert(le_bytes(le_value(b), 4) =~= b);
}

/// Different messages have different bytes, whatever follows them.
pub proof fn law_messages_are_unambiguous(
    a: MessageView,
    after_a: Seq<u8>,
    b: MessageView,
    after_b: Seq<u8>,
)
    requires
        message_fits(a),
        message_fits(b),
        message_scale(a) + after_a == message_scale(b) + after_b,
    ensures
        a == b,
        after_a == after_b,
{
    lemma_message_prefix(a, after_a);
    lemma_message_prefix(b, after_b);
    let bytes_a = scale_bytes(a.partial_decryption_bytes) + after_a;
    let bytes_b = scale_bytes(b.partial_decryption_bytes) + after_b;
    let index_a = le_bytes(a.index as nat, 4);
    let index_b = le_bytes(b.index as nat, 4);
    law_bytes_are_unambiguous(a.filename, index_a + bytes_a, b.filename, index_b + bytes_b);
    assert((index_a + bytes_a).take(4) =~= index_a);
    assert((index_b + bytes_b).take(4) =~= index_b);
    assert((index_a + bytes_a).skip(4) =~= bytes_a);
    assert((index_b + bytes_b).skip(4) =~= bytes_b);
    law_bytes_are_unambiguous(
        a.partial_decryption_bytes,
        after_a,
        b.partial_decryption_bytes,
        after_b,
    );
}

impl PartialDecryptionMessage {
    /// The bytes of the message.
    pub fn encode(&self) -> (encoded: Vec<u8>)
        requires
            message_fits(self@),
        ensures
            encoded@ == message_scale(self@),
    {
        let mut encoded = encode_bytes(self.filename.as_slice());
        append_u32_le(&mut encoded, self.index);
        append(&mut encoded, encode_bytes(self.partial_decryption_bytes.as_slice()).as_slice());
        encoded
    }

    /// Reads the message that starts `data`; what follows it is ignored. The result is `None`
    /// exactly where no message starts `data`.
    pub fn decode(data: &[u8]) -> (decoded: Option<PartialDecryptionMessage>)
        ensures
            decoded matches Some(m) ==> message_fits(m@) && exists|tail: Seq<u8>|
                data@ == #[trigger] (message_scale(m@) + tail),
            forall|m: MessageView, tail: Seq<u8>|
                message_fits(m) && data@ == #[trigger] (message_scale(m) + tail) ==> (
                decoded matches Some(read) && read@ == m),
    {
        let first = decode_bytes(data);
        proof {
            assert forall|m: MessageView, tail: Seq<u8>|
                message_fits(m) && data@ == #[trigger] (message_scale(m)
                    + tail) implies bytes_and_rest(first) == Some(
                (
                    m.filename,
                    le_bytes(m.index as nat, 4) + (scale_bytes(m.partial_decryption_bytes) + tail),
                ),
            ) by {
                lemma_message_prefix(m, tail);
            }
        }
        let (filename, after_filename) = match first {
            Ok(read) => read,
            Err(_) => {
                return None;
            },
        };
        if after_filename.len() < 4 {
            proof {
                assert forall|m: MessageView, tail: Seq<u8>|
                    message_fits(m) implies data@ != #[trigger] (message_scale(m) + tail) by {
                    lemma_message_prefix(m, tail);
                }
            }
            return None;
        }
        let index = read_u32_le(after_filename.as_slice());
        let after_index = copy_range(after_filename.as_slice(), 4, after_filename.len());
        proof {
            lemma_four_bytes(after_filename@.take(4));
            assert(after_filename@ =~= le_bytes(index as nat, 4) + after_index@);
            assert forall|m: MessageView, tail: Seq<u8>|
                message_fits(m) && data@ == #[trigger] (message_scale(m) + tail) implies index
                == m.index && after_index@ == scale_bytes(m.partial_decryption_bytes) + tail by {
                lemma_message_prefix(m, tail);
                assert(after_filename@.take(4) =~= le_bytes(m.index as nat, 4));
                assert(after_index@ =~= scale_bytes(m.partial_decryption_bytes) + tail);
            }
        }
        let last = decode_bytes(after_index.as_slice());
        match last {
            Ok((partial_decryption_bytes, rest)) => {
                let message = PartialDecryptionMessage {
                    filename,
                    index,
                    partial_decryption_bytes,
                };
                proof {
                    lemma_message_prefix(message@, rest@);
                    assert(data@ == message_scale(message@) + rest@);
                    assert(message_fits(message@));
                }
                Some(message)
            },
            Err(_) => None,
        }
    }
}

/// A message is the name of the file, the index in four bytes and the partial decryption, in this
/// order, the first and the last behind their lengths; every index and all byte strings of up to
/// `u32::MAX` bytes can be sent.
pub proof fn law_layout_of_a_message(m: PartialDecryptionMessage, encoded: Seq<u8>)
    requires
        encoded == message_scale(m@),
        m.filename@.len() <= u32::MAX,
        m.partial_decryption_bytes@.len() <= u32::MAX,
    ensures
        message_fits(m@),
        ({
            let first = scale_bytes(m.filename@).len() as int;
            &&& encoded.take(first) == scale_bytes(m.filename@)
            &&& le_value(encoded.subrange(first, first + 4)) == m.index
            &&& encoded.skip(first + 4) == scale_bytes(m.partial_decryption_bytes@)
        }),
{
    law_u32_round_trip(m.index);
    let first = scale_bytes(m.filename@).len() as int;
    assert(encoded.take(first) =~= scale_bytes(m.filename@));
    assert(encoded.subrange(first, first + 4) =~= le_bytes(m.index as nat, 4));
    assert(encoded.skip(first + 4) =~= scale_bytes(m.partial_decryption_bytes@));
}

} // verus!
