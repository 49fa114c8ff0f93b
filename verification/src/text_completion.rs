//! The provider's text completion response, modeled with plain values.

use vstd::prelude::*;
use crate::embedding::Usage;

verus! {

/// One completion choice of a text response.
#[derive(Debug, Clone, PartialEq)]
pub struct Choice {
    pub text: String,
    pub index: i64,
    pub logprobs: Option<i64>,
    pub finish_reason: String,
}

/// The provider's text completion response: choices plus usage.
#[derive(Debug, Clone, PartialEq)]
pub struct TextCompletion {
    pub id: String,
    pub object: String,
    pub created: i64,
    pub model: String,
    pub choices: Vec<Choice>,
    pub usage: Usage,
}

impl TextCompletion {
    /// The text of the first choice; nothing when the provider returned no
    /// choices.
    pub fn first_text(&self) -> (r: Option<String>)
        ensures
            match r {
                Some(s) => self.choices@.len() > 0 && s@ == self.choices@[0].text@,
                None => self.choices@.len() == 0,
            },
    {
        if self.choices.len() == 0 {
            None
        } else {
            Some(self.choices[0].text.clone())
        }
    }
}

} // verus!
