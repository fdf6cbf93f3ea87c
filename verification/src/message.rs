//! The `message` tool: a message for the user on their channel. The
//! library reads the call and picks the target; the sending is the
//! caller's.

use vstd::prelude::*;

use crate::text::{has_prefix, owned, push_str};
use crate::tool::{json_str_member, json_string_member, DomainError, ToolDefinition, ToolResult};

verus! {

/// A message to send.
#[derive(Debug)]
pub struct OutboundMessage {
    /// `channel:chat_id`.
    pub target: String,
    pub text: String,
}

/// The `message` tool, with the conversation's target, if any.
#[derive(Debug)]
pub struct MessageTool {
    pub default_target: Option<String>,
}

impl MessageTool {
    pub fn new(default_target: Option<String>) -> (t: MessageTool)
        ensures
            t.default_target == default_target,
    {
        MessageTool { default_target }
    }

    pub fn definition(&self) -> (d: ToolDefinition)
        ensures
            d.name@ == "message"@,
    {
        ToolDefinition {
            name: owned("message"),
            description: owned("Send a message to the user on their channel"),
            parameters_schema: owned(
                "{\"type\":\"object\",\"properties\":{\"text\":{\"type\":\"string\",\"description\":\"The message text to send\"},\"target\":{\"type\":\"string\",\"description\":\"Optional target in 'channel:chat_id' format (defaults to current conversation)\"}},\"required\":[\"text\"]}",
            ),
        }
    }

    /// Reads a call into the message to send: its `text`, to its `target`
    /// or else the conversation's; a tool error when the call is not JSON,
    /// has no string `text`, or no target can be found.
    pub fn plan_message(&self, arguments: &str) -> (r: Result<OutboundMessage, DomainError>)
        ensures
            json_string_member(arguments@, "text"@) is None ==> (r matches Err(DomainError::Tool(m))
                && has_prefix(m@, "invalid JSON: "@)),
            json_string_member(arguments@, "text"@) == Some(None::<Seq<char>>) ==> (r matches Err(
                DomainError::Tool(m),
            ) && m@ == "missing required field: text"@),
            forall|t: Seq<char>|
                json_string_member(arguments@, "text"@) == Some(Some(t)) ==> match json_string_member(
                    arguments@,
                    "target"@,
                ) {
                    Some(Some(g)) => r matches Ok(o) && o.text@ == t && o.target@ == g,
                    Some(None) => match self.default_target {
                        Some(g) => r matches Ok(o) && o.text@ == t && o.target@ == g@,
                        None => r matches Err(DomainError::Tool(m)) && m@
                            == "no target specified and no default target set"@,
                    },
                    None => r is Err,
                },
    {
        let text = match json_str_member(arguments, "text") {
            Err(e) => {
                let mut m = owned("invalid JSON: ");
                push_str(&mut m, e.as_str());
                proof {
                    reveal_strlit("invalid JSON: ");
                }
                assert(m@.take(14) =~= "invalid JSON: "@);
                return Err(DomainError::Tool(m));
            },
            Ok(None) => {
                return Err(DomainError::Tool(owned("missing required field: text")));
            },
            Ok(Some(t)) => t,
        };
        let target = match json_str_member(arguments, "target") {
            Err(e) => {
                return Err(DomainError::Tool(e));
            },
            Ok(Some(g)) => g,
            Ok(None) => match &self.default_target {
                Some(g) => g.clone(),
                None => {
                    return Err(
                        DomainError::Tool(owned("no target specified and no default target set")),
                    );
                },
            },
        };
        Ok(OutboundMessage { target, text })
    }
}

/// The reply once the message was sent to `target`, or the failure.
pub fn message_sent(target: &str, outcome: Result<(), String>) -> (r: Result<ToolResult, DomainError>)
    ensures
        outcome is Ok ==> (r matches Ok(x) && !x.is_error && x.content@ == "Message sent to "@
            + target@ + "."@),
        outcome matches Err(e) ==> (r matches Err(DomainError::Tool(m)) && m@
            == "failed to send message: "@ + e@),
{
    match outcome {
        Ok(()) => {
            let mut m = owned("Message sent to ");
            push_str(&mut m, target);
            push_str(&mut m, ".");
            Ok(ToolResult::text(m))
        },
        Err(e) => {
            let mut m = owned("failed to send message: ");
            push_str(&mut m, e.as_str());
            Err(DomainError::Tool(m))
        },
    }
}

} // verus!
