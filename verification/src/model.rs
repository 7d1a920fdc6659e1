//! What the gateway to the language model computes: the prompt it sends,
//! the endpoint it posts to, and how it judges the reply's status.

use vstd::prelude::*;
use crate::text::push_str_chars;

verus! {

/// Why the model gave no answer.
#[derive(Clone, Debug)]
pub enum ModelError {
    /// The request failed, or the server answered with an error status.
    Request(String),
    /// The reply was not the expected JSON.
    MalformedResponse(String),
}

impl ModelError {
    /// The error's message.
    pub fn message(&self) -> (r: String)
        ensures
            match self {
                ModelError::Request(m) => r@ == "model request failed: "@ + m@,
                ModelError::MalformedResponse(m) => r@ == "model response was malformed: "@ + m@,
            },
    {
        let mut out = String::new();
        match self {
            ModelError::Request(m) => {
                push_str_chars(&mut out, "model request failed: ");
                push_str_chars(&mut out, m.as_str());
            },
            ModelError::MalformedResponse(m) => {
                push_str_chars(&mut out, "model response was malformed: ");
                push_str_chars(&mut out, m.as_str());
            },
        }
        out
    }
}

/// The single prompt that the model receives: the system prompt, a blank
/// line, the user's turn and the opening of the assistant's turn.
pub open spec fn combined_prompt_spec(system_prompt: Seq<char>, user_prompt: Seq<char>) -> Seq<
    char,
> {
    system_prompt + "\n\nUser: "@ + user_prompt + "\nAssistant:"@
}

/// Joins the system prompt and the user's prompt into the text sent to the model.
pub fn combined_prompt(system_prompt: &str, user_prompt: &str) -> (r: String)
    ensures
        r@ == combined_prompt_spec(system_prompt@, user_prompt@),
{
    let mut out = String::new();
    push_str_chars(&mut out, system_prompt);
    push_str_chars(&mut out, "\n\nUser: ");
    push_str_chars(&mut out, user_prompt);
    push_str_chars(&mut out, "\nAssistant:");
    out
}

/// The generation endpoint under the server's base URL.
pub fn generate_url(base_url: &str) -> (r: String)
    ensures
        r@ == base_url@ + "/api/generate"@,
{
    let mut out = String::new();
    push_str_chars(&mut out, base_url);
    push_str_chars(&mut out, "/api/generate");
    out
}

/// Judges the HTTP status of the model server's reply: a success status
/// (200 to 299) lets the reply be read; any other becomes a request error
/// that names the status.
pub fn check_status(code: u16, status_text: &str) -> (r: Result<(), ModelError>)
    ensures
        200 <= code <= 299 ==> r is Ok,
        !(200 <= code <= 299) ==> (r matches Err(ModelError::Request(m)) && m@
            == "ollama returned status "@ + status_text@),
{
    if 200 <= code && code <= 299 {
        Ok(())
    } else {
        let mut m = String::new();
        push_str_chars(&mut m, "ollama returned status ");
        push_str_chars(&mut m, status_text);
        Err(ModelError::Request(m))
    }
}

} // verus!
