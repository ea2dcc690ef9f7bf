//! Telemetry messages and the JSON text frame a consumer receives.
use vstd::prelude::*;
use vstd::string::StringExecFns;

verus! {

/// What `serde_json::to_string` yields for a string: its quoted, escaped JSON form,
/// or nothing where serialization fails.
pub uninterp spec fn json_string_of(s: Seq<char>) -> Option<Seq<char>>;

/// Relies on `serde_json::to_string` on a `str`: the JSON string literal for `s`.
#[verifier::external_body]
fn json_string(s: &str) -> (r: Option<String>)
    ensures
        match r {
            Some(t) => json_string_of(s@) == Some(t@),
            None => json_string_of(s@) is None,
        },
{
    serde_json::to_string(s).ok()
}

/// One message sent by a device: the producer id and an opaque payload.
pub struct DeviceLog {
    pub device_id: String,
    pub message: String,
}

/// The frame `{"device_id":<d>,"message":<m>}` from already encoded fields.
pub open spec fn log_frame_from(d: Seq<char>, m: Seq<char>) -> Seq<char> {
    "{\"device_id\":"@ + d + ",\"message\":"@ + m + "}"@
}

/// The JSON frame of a message, where both fields encode.
pub open spec fn log_frame(device_id: Seq<char>, message: Seq<char>) -> Option<Seq<char>> {
    match (json_string_of(device_id), json_string_of(message)) {
        (Some(d), Some(m)) => Some(log_frame_from(d, m)),
        _ => None,
    }
}

/// Joins two encoded JSON strings into the frame of a message.
pub fn frame_from_encoded(device_id_json: &str, message_json: &str) -> (r: String)
    ensures
        r@ == log_frame_from(device_id_json@, message_json@),
{
    let mut out = String::from_str("{\"device_id\":");
    out.append(device_id_json);
    out.append(",\"message\":");
    out.append(message_json);
    out.append("}");
    out
}

impl DeviceLog {
    pub fn new(device_id: String, message: String) -> (r: DeviceLog)
        ensures
            r.device_id@ == device_id@,
            r.message@ == message@,
    {
        DeviceLog { device_id, message }
    }

    /// The text frame that carries this message to a consumer, as `serde_json`
    /// writes the struct: `{"device_id":..,"message":..}`.
    pub fn to_frame(&self) -> (r: Option<String>)
        ensures
            match r {
                Some(t) => log_frame(self.device_id@, self.message@) == Some(t@),
                None => log_frame(self.device_id@, self.message@) is None,
            },
    {
        let d = json_string(self.device_id.as_str());
        let m = json_string(self.message.as_str());
        match (d, m) {
            (Some(d), Some(m)) => Some(frame_from_encoded(d.as_str(), m.as_str())),
            _ => None,
        }
    }
}

} // verus!
