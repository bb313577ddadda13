use vstd::prelude::*;
use crate::reply::{stripped, strip_marker};

verus! {

/// Seconds a caller waits for its reply before giving up.
pub const REPLY_TIMEOUT_SECS: u64 = 10;

/// Seconds the session manager waits before reconnecting.
pub const RECONNECT_DELAY_SECS: u64 = 5;

/// Capacity of the dispatcher queue.
pub const QUEUE_CAPACITY: usize = 100;

/// One kind of request: the route segment it is served under, the command template
/// (`head`, then the caller's identity, then `tail`), and the marker that opens its replies.
pub struct Intent {
    pub route: String,
    pub head: String,
    pub tail: String,
    pub marker: String,
}

/// The command text for an intent and an identity: the identity put into the template.
pub open spec fn rendered(intent: &Intent, identity: Seq<char>) -> Seq<char> {
    intent.head@ + identity + intent.tail@
}

/// How a caller's wait ended.
pub enum Outcome {
    /// The command could not be queued (the queue is full or closed).
    NotSubmitted,
    /// The wait timed out, or the slot was dropped without an answer.
    NoAnswer,
    /// The session manager answered with this text.
    Answered(String),
}

/// The text returned when a command could not be queued.
pub open spec fn submit_failed_text() -> Seq<char> {
    "Failed to send message to IRC client"@
}

/// The text returned when no answer came within the timeout.
pub open spec fn no_response_text() -> Seq<char> {
    "Failed to receive response from tildebot"@
}

/// The text returned to a caller for each way its wait can end.
pub open spec fn gateway_result(intent: &Intent, outcome: &Outcome) -> Seq<char> {
    match outcome {
        Outcome::NotSubmitted => submit_failed_text(),
        Outcome::NoAnswer => no_response_text(),
        Outcome::Answered(text) => stripped(text@, intent.marker@),
    }
}

/// The `time` intent: `,time <identity>`, with replies tagged `[Time]` in green.
pub fn time_intent() -> (r: Intent)
    ensures
        r.route@ == "time"@,
        r.head@ == ",time "@,
        r.tail@ == ""@,
        r.marker@ == ":[\u{3}03Time\u{3}] "@,
{
    Intent {
        route: String::from_str("time"),
        head: String::from_str(",time "),
        tail: String::from_str(""),
        marker: String::from_str(":[\u{3}03Time\u{3}] "),
    }
}

/// The `weather` intent: `,weather <identity>`, with replies tagged `[Weather]` in green.
pub fn weather_intent() -> (r: Intent)
    ensures
        r.route@ == "weather"@,
        r.head@ == ",weather "@,
        r.tail@ == ""@,
        r.marker@ == ":[\u{3}03Weather\u{3}] "@,
{
    Intent {
        route: String::from_str("weather"),
        head: String::from_str(",weather "),
        tail: String::from_str(""),
        marker: String::from_str(":[\u{3}03Weather\u{3}] "),
    }
}

impl Intent {
    /// Renders the command for `identity` by putting it into the template.
    pub fn render_command(&self, identity: &str) -> (r: String)
        ensures
            r@ == rendered(self, identity@),
    {
        let mut s = self.head.clone();
        s.append(identity);
        s.append(self.tail.as_str());
        s
    }

    /// The text handed back to the caller once its wait has ended.
    pub fn result_text(&self, outcome: &Outcome) -> (r: String)
        ensures
            r@ == gateway_result(self, outcome),
    {
        match outcome {
            Outcome::NotSubmitted => String::from_str("Failed to send message to IRC client"),
            Outcome::NoAnswer => String::from_str("Failed to receive response from tildebot"),
            Outcome::Answered(text) => strip_marker(text.as_str(), self.marker.as_str()),
        }
    }
}

} // verus!
