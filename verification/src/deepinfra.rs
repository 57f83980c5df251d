//! Value types of the completion API's wire contract: a conversation
//! message, and the response shape whose first choice carries the
//! generated text.

use vstd::prelude::*;

use crate::error::Error;

verus! {

/// One conversation entry; the order of entries establishes context.
#[derive(Debug, Clone)]
pub struct Message {
    pub role: String,
    pub content: String,
}

/// The mathematical content of a [`Message`].
pub struct MessageView {
    pub role: Seq<char>,
    pub content: Seq<char>,
}

impl View for Message {
    type V = MessageView;

    open spec fn view(&self) -> MessageView {
        MessageView { role: self.role@, content: self.content@ }
    }
}

impl DeepView for Message {
    type V = MessageView;

    open spec fn deep_view(&self) -> MessageView {
        self.view()
    }
}

impl Message {
    /// A message with the given role and content.
    pub fn new(role: &str, content: &str) -> (r: Message)
        ensures
            r@.role == role@,
            r@.content == content@,
    {
        Message { role: role.to_owned(), content: content.to_owned() }
    }
}

/// One generated alternative of a response.
#[derive(Debug, Clone)]
pub struct Choice {
    pub message: Message,
}

/// The body of a completion response: the generated alternatives, in
/// order; a well-formed response has at least one.
#[derive(Debug, Clone)]
pub struct Response {
    pub choices: Vec<Choice>,
}

/// The text of the first generated choice. An empty list of choices is a
/// malformed response and is reported, never indexed into.
pub fn first_choice_content(resp: &Response) -> (r: Result<String, Error>)
    ensures
        resp.choices@.len() == 0 ==> r == Err::<String, Error>(Error::Deserialization),
        resp.choices@.len() > 0 ==> (r matches Ok(c) && c@ == resp.choices@[0].message.content@),
{
    if resp.choices.len() == 0 {
        Err(Error::Deserialization)
    } else {
        Ok(resp.choices[0].message.content.clone())
    }
}

} // verus!
