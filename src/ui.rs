//! Messages handed to the interface for display: plain text, menu titles,
//! clickable choices, pager buttons and table rows.

use vstd::prelude::*;

verus! {

/// How a message is shown.
#[derive(Debug, PartialEq, Eq)]
pub enum MessageStyle {
    Title,
    MenuTitle,
    Info,
    /// A clickable choice carrying its item code.
    Interaction(String),
    /// Pager buttons: whether going back, and forward, is possible.
    Navigation(bool, bool),
    /// A display row: label in the contents, values here.
    Table(Vec<String>),
    Help,
}

/// One message line.
#[derive(Debug)]
pub struct Message {
    pub contents: String,
    pub style: MessageStyle,
}

/// A group of messages shown together.
#[derive(Debug)]
pub struct MessageEvent {
    pub messages: Vec<Message>,
}

/// Request to clear what is shown.
#[derive(Debug, Clone, Copy, PartialEq, Eq, Structural)]
pub struct ClearMessage;

impl Message {
    pub fn new(msg: &str, style: MessageStyle) -> (r: Message)
        ensures
            r.contents@ == msg@,
            r.style == style,
    {
        Message { contents: msg.to_owned(), style }
    }
}

impl MessageEvent {
    /// A single message.
    pub fn new(msg: &str, style: MessageStyle) -> (r: MessageEvent)
        ensures
            r.messages@.len() == 1,
            r.messages@[0].contents@ == msg@,
            r.messages@[0].style == style,
    {
        let mut messages: Vec<Message> = Vec::new();
        messages.push(Message::new(msg, style));
        MessageEvent { messages }
    }

    pub fn new_multi(msgs: Vec<Message>) -> (r: MessageEvent)
        ensures
            r.messages@ == msgs@,
    {
        MessageEvent { messages: msgs }
    }

    /// A single informational message.
    pub fn info(msg: &str) -> (r: MessageEvent)
        ensures
            r.messages@.len() == 1,
            r.messages@[0].contents@ == msg@,
            r.messages@[0].style == MessageStyle::Info,
    {
        MessageEvent::new(msg, MessageStyle::Info)
    }
}

} // verus!
