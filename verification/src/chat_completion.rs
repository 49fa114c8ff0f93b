//! The provider's chat completion response, modeled with plain values.

use vstd::prelude::*;
use crate::embedding::Usage;

verus! {

/// One message of a chat exchange.
#[derive(Debug, Clone, PartialEq)]
pub struct Message {
    pub role: String,
    pub content: String,
}

/// One completion choice of a chat response.
#[derive(Debug, Clone, PartialEq)]
pub struct Choice {
    pub index: i64,
    pub message: Message,
    pub finish_reason: String,
}

/// The provider's chat completion response: choices plus usage.
#[derive(Debug, Clone, PartialEq)]
pub struct ChatCompletion {
    pub id: String,
    pub object: String,
    pub created: i64,
    pub choices: Vec<Choice>,
    pub usage: Usage,
}

impl ChatCompletion {
    /// The content of the first choice; nothing when the provider returned no
    /// choices.
    pub fn first_message_content(&self) -> (r: Option<String>)
        ensures
            match r {
                Some(s) => self.choices@.len() > 0 && s@ == self.choices@[0].message.content@,
                None => self.choices@.len() == 0,
            },
    {
        if self.choices.len() == 0 {
            None
        } else {
            Some(self.choices[0].message.content.clone())
        }
    }
}

} // verus!
