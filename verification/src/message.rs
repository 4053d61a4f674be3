//! Transient status-line notices.
//!
//! A message carries its creation time and duration in milliseconds of the
//! controller's clock; the controller clears it once it has outlived its
//! duration, first firing the optional expiry action.

use vstd::prelude::*;

verus! {

/// Category of a notice, used only for styling.
#[derive(Clone, Copy, PartialEq, Eq, Structural, Debug)]
pub enum MessageType {
    Success,
    Info,
    Warning,
    Error,
}

/// Action to take when the message expires.
#[derive(Clone, Copy, PartialEq, Eq, Structural, Debug)]
pub enum MessageAction {
    Quit,
}

/// Duration a message stays up when none is given.
pub const DEFAULT_MESSAGE_DURATION_MS: u64 = 5000;

/// A transient notice shown in the status line.
pub struct Message {
    pub msg_text: String,
    pub msg_type: MessageType,
    pub duration_ms: u64,
    pub created_at_ms: u64,
    pub action_when_deleted: Option<MessageAction>,
}

/// The mathematical content of a [`Message`].
pub ghost struct MessageModel {
    pub text: Seq<char>,
    pub kind: MessageType,
    pub duration_ms: u64,
    pub created_at_ms: u64,
    pub action: Option<MessageAction>,
}

impl MessageModel {
    /// Whether the message has outlived its duration at time `now_ms`.
    pub open spec fn expired(self, now_ms: u64) -> bool {
        now_ms >= self.created_at_ms && now_ms - self.created_at_ms >= self.duration_ms
    }
}

impl View for Message {
    type V = MessageModel;

    open spec fn view(&self) -> MessageModel {
        MessageModel {
            text: self.msg_text@,
            kind: self.msg_type,
            duration_ms: self.duration_ms,
            created_at_ms: self.created_at_ms,
            action: self.action_when_deleted,
        }
    }
}

impl Clone for Message {
    fn clone(&self) -> (r: Self)
        ensures
            r@ == self@,
    {
        Message {
            msg_text: self.msg_text.clone(),
            msg_type: self.msg_type,
            duration_ms: self.duration_ms,
            created_at_ms: self.created_at_ms,
            action_when_deleted: self.action_when_deleted,
        }
    }
}

impl Message {
    /// A message created at `now_ms`; without an explicit duration it stays
    /// up for [`DEFAULT_MESSAGE_DURATION_MS`].
    pub fn new(
        msg_text: &str,
        msg_type: MessageType,
        duration_ms: Option<u64>,
        action: Option<MessageAction>,
        now_ms: u64,
    ) -> (m: Message)
        ensures
            m@.text == msg_text@,
            m@.kind == msg_type,
            m@.duration_ms == (match duration_ms {
                Some(d) => d,
                None => DEFAULT_MESSAGE_DURATION_MS,
            }),
            m@.created_at_ms == now_ms,
            m@.action == action,
    {
        let dur = match duration_ms {
            Some(d) => d,
            None => DEFAULT_MESSAGE_DURATION_MS,
        };
        Message {
            msg_text: msg_text.to_owned(),
            msg_type,
            duration_ms: dur,
            created_at_ms: now_ms,
            action_when_deleted: action,
        }
    }

    /// Whether the controller should clear the message at time `now_ms`.
    pub fn should_be_deleted(&self, now_ms: u64) -> (r: bool)
        ensures
            r == self@.expired(now_ms),
    {
        now_ms >= self.created_at_ms && now_ms - self.created_at_ms >= self.duration_ms
    }
}

} // verus!
