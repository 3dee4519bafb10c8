//! Frames for the relay: the companion process that shows the telemetry.
//!
//! The relay takes frames with the header of the device protocol. A text
//! message goes under `Message`, as to the device; the request to stop is one
//! zero byte under `Update`; and a status is a JSON object under
//! `StatusRequest`, with the names of the readings as keys.

use vstd::prelude::*;
use crate::codec::{create_header, frame, frame_bytes, HEADER_LEN, MAX_CONTENT_LENGTH};
use crate::datatypes::{EspOperation, ProtocolError};

verus! {

/// One member of the JSON object: the name of a reading and the text of its
/// value, both as bytes.
#[derive(Debug)]
pub struct JsonEntry {
    pub name: Vec<u8>,
    pub value: Vec<u8>,
}

/// The text of one member: the name in double quotes, a colon, the value.
pub open spec fn member_text(entry: JsonEntry) -> Seq<u8> {
    seq!['"' as u8] + entry.name@ + seq!['"' as u8, ':' as u8] + entry.value@
}

/// The texts of the members, with a comma between each two.
pub open spec fn members_text(entries: Seq<JsonEntry>) -> Seq<u8>
    decreases entries.len(),
{
    if entries.len() == 0 {
        Seq::<u8>::empty()
    } else if entries.len() == 1 {
        member_text(entries[0])
    } else {
        members_text(entries.drop_last()) + seq![',' as u8] + member_text(entries.last())
    }
}

/// The JSON object that holds the entries, in their order.
pub open spec fn json_text(entries: Seq<JsonEntry>) -> Seq<u8> {
    seq!['{' as u8] + members_text(entries) + seq!['}' as u8]
}

/// The frame that tells the relay to stop.
pub fn stop_frame() -> (bytes: Vec<u8>)
    ensures
        bytes@ == frame_bytes(EspOperation::Update, seq![0u8]),
{
    let header = create_header(EspOperation::Update, 1);
    let mut bytes: Vec<u8> = Vec::with_capacity(HEADER_LEN + 1);
    bytes.extend_from_slice(header.as_slice());
    bytes.push(0);
    assert(bytes@ =~= frame_bytes(EspOperation::Update, seq![0u8]));
    bytes
}

/// Writes the entries as a JSON object.
pub fn status_json(entries: &Vec<JsonEntry>) -> (text: Vec<u8>)
    ensures
        text@ == json_text(entries@),
{
    let mut text: Vec<u8> = Vec::new();
    text.push('{' as u8);
    let mut i: usize = 0;
    proof {
        assert(entries@.take(0) =~= Seq::<JsonEntry>::empty());
        assert(text@ =~= seq!['{' as u8] + members_text(entries@.take(0)));
    }
    while i < entries.len()
        invariant
            i <= entries@.len(),
            text@ == seq!['{' as u8] + members_text(entries@.take(i as int)),
        decreases entries@.len() - i,
    {
        let ghost before = text@;
        let entry = &entries[i];
        if i != 0 {
            text.push(',' as u8);
        }
        text.push('"' as u8);
        text.extend_from_slice(entry.name.as_slice());
        text.push('"' as u8);
        text.push(':' as u8);
        text.extend_from_slice(entry.value.as_slice());
        proof {
            let next = entries@.take(i + 1);
            assert(next.drop_last() =~= entries@.take(i as int));
            assert(next.last() == *entry);
            if i == 0 {
                assert(next[0] == *entry);
                assert(members_text(entries@.take(0)) =~= Seq::<u8>::empty());
                assert(text@ =~= before + member_text(*entry));
            } else {
                assert(text@ =~= before + seq![',' as u8] + member_text(*entry));
            }
            assert(text@ =~= seq!['{' as u8] + members_text(next));
        }
        i += 1;
    }
    proof {
        assert(entries@.take(i as int) =~= entries@);
    }
    text.push('}' as u8);
    text
}

/// The frame that carries a status to the relay. A status whose text is
/// longer than a header can announce is refused.
pub fn status_frame(entries: &Vec<JsonEntry>) -> (result: Result<Vec<u8>, ProtocolError>)
    ensures
        json_text(entries@).len() <= MAX_CONTENT_LENGTH ==> result is Ok && result->Ok_0@
            == frame_bytes(EspOperation::StatusRequest, json_text(entries@)),
        json_text(entries@).len() > MAX_CONTENT_LENGTH ==> result == Err::<Vec<u8>, ProtocolError>(
            ProtocolError::PayloadTooLarge,
        ),
{
    let text = status_json(entries);
    frame(EspOperation::StatusRequest, text.as_slice())
}

} // verus!
