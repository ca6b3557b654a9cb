//! The messages of the control channel: the inbound request, the two outbound
//! events, and the text frame of each outbound event.

use vstd::prelude::*;
use vstd::string::StringExecFns;
use crate::json::{json_literal, json_string};

verus! {

/// An inbound control message. The subject `stop-origin` cancels the job
/// whose origin is the payload; every other subject starts a job on it.
#[derive(Debug, Clone, PartialEq, Eq)]
pub struct ClientRequest {
    pub subject: String,
    pub payload: String,
}

/// An outbound event.
#[derive(Debug, Clone, PartialEq, Eq)]
pub enum ResponseMessage {
    /// The job on `origin` is over. It is the last event of its job.
    FinishMessage { origin: String },
    /// The page `for_url` links to `linked_url`, whose domain was not yet visited.
    ResultMessage { for_url: String, for_domain: String, linked_url: String, linked_domain: String },
}

/// An outbound event as a value of plain sequences.
pub enum Outbound {
    Finish { origin: Seq<char> },
    Result {
        for_url: Seq<char>,
        for_domain: Seq<char>,
        linked_url: Seq<char>,
        linked_domain: Seq<char>,
    },
}

impl View for ResponseMessage {
    type V = Outbound;

    open spec fn view(&self) -> Outbound {
        match self {
            ResponseMessage::FinishMessage { origin } => Outbound::Finish { origin: origin@ },
            ResponseMessage::ResultMessage { for_url, for_domain, linked_url, linked_domain } => {
                Outbound::Result {
                    for_url: for_url@,
                    for_domain: for_domain@,
                    linked_url: linked_url@,
                    linked_domain: linked_domain@,
                }
            },
        }
    }
}

/// The frame of a finish event, given the JSON literal of its origin.
pub open spec fn finish_text(origin: Seq<char>) -> Seq<char> {
    "{\"type\":\"FinishMessage\",\"origin\":"@ + origin + "}"@
}

/// The frame of a result event, given the JSON literals of its four fields.
pub open spec fn result_text(
    for_url: Seq<char>,
    for_domain: Seq<char>,
    linked_url: Seq<char>,
    linked_domain: Seq<char>,
) -> Seq<char> {
    "{\"type\":\"ResultMessage\",\"for_url\":"@ + for_url + ",\"for_domain\":"@ + for_domain
        + ",\"linked_url\":"@ + linked_url + ",\"linked_domain\":"@ + linked_domain + "}"@
}

/// The text frame of an outbound event.
pub open spec fn wire_text(message: Outbound) -> Seq<char> {
    match message {
        Outbound::Finish { origin } => finish_text(json_string(origin)),
        Outbound::Result { for_url, for_domain, linked_url, linked_domain } => result_text(
            json_string(for_url),
            json_string(for_domain),
            json_string(linked_url),
            json_string(linked_domain),
        ),
    }
}

/// Builds the frame of a finish event from the JSON literal of its origin.
pub fn finish_frame(origin: &str) -> (frame: String)
    ensures
        frame@ == finish_text(origin@),
{
    let mut frame = String::from_str("{\"type\":\"FinishMessage\",\"origin\":");
    frame.append(origin);
    frame.append("}");
    frame
}

/// Builds the frame of a result event from the JSON literals of its fields.
pub fn result_frame(for_url: &str, for_domain: &str, linked_url: &str, linked_domain: &str) -> (frame:
    String)
    ensures
        frame@ == result_text(for_url@, for_domain@, linked_url@, linked_domain@),
{
    let mut frame = String::from_str("{\"type\":\"ResultMessage\",\"for_url\":");
    frame.append(for_url);
    frame.append(",\"for_domain\":");
    frame.append(for_domain);
    frame.append(",\"linked_url\":");
    frame.append(linked_url);
    frame.append(",\"linked_domain\":");
    frame.append(linked_domain);
    frame.append("}");
    frame
}

impl ResponseMessage {
    /// The text frame that goes out for this event.
    pub fn to_wire(&self) -> (frame: String)
        ensures
            frame@ == wire_text(self@),
    {
        match self {
            ResponseMessage::FinishMessage { origin } => {
                let origin = json_literal(origin.as_str());
                finish_frame(origin.as_str())
            },
            ResponseMessage::ResultMessage { for_url, for_domain, linked_url, linked_domain } => {
                let for_url = json_literal(for_url.as_str());
                let for_domain = json_literal(for_domain.as_str());
                let linked_url = json_literal(linked_url.as_str());
                let linked_domain = json_literal(linked_domain.as_str());
                result_frame(
                    for_url.as_str(),
                    for_domain.as_str(),
                    linked_url.as_str(),
                    linked_domain.as_str(),
                )
            },
        }
    }
}

} // verus!
