//! The messages on the wire.

use crate::json::{json_text, quoted, string_to_json, value_to_json};
use vstd::prelude::*;

verus! {

/// A message to the server.
pub struct MessageOut {
    pub topic: String,
    pub event: String,
    pub payload: serde_json::Value,
    pub reference: String,
}

/// A message from the server. Replies carry the reference of what they answer;
/// events carry none.
pub struct MessageIn {
    pub topic: String,
    pub event: String,
    pub payload: serde_json::Value,
    pub reference: Option<String>,
}

/// The JSON text of a message with the given payload text: an object of
/// `topic`, `event`, `payload` and `ref`, in this order and without spaces.
pub open spec fn message_text(
    topic: Seq<char>,
    event: Seq<char>,
    payload: Seq<char>,
    reference: Seq<char>,
) -> Seq<char> {
    "{\"topic\":"@ + quoted(topic) + ",\"event\":"@ + quoted(event) + ",\"payload\":"@ + payload
        + ",\"ref\":"@ + quoted(reference) + "}"@
}

impl MessageOut {
    /// The text that goes to the socket.
    pub open spec fn text(self) -> Seq<char> {
        message_text(self.topic@, self.event@, json_text(self.payload), self.reference@)
    }

    /// Writes the message as JSON. This does not fail.
    pub fn to_json(&self) -> (res: Result<String, serde_json::Error>)
        ensures
            res is Ok,
            res->Ok_0@ == self.text(),
    {
        let topic = string_to_json(self.topic.as_str())?;
        let event = string_to_json(self.event.as_str())?;
        let payload = value_to_json(&self.payload)?;
        let reference = string_to_json(self.reference.as_str())?;
        let mut text = "{\"topic\":".to_owned();
        text.append(topic.as_str());
        text.append(",\"event\":");
        text.append(event.as_str());
        text.append(",\"payload\":");
        text.append(payload.as_str());
        text.append(",\"ref\":");
        text.append(reference.as_str());
        text.append("}");
        Ok(text)
    }
}

} // verus!
