//! Request construction and reply handling for the search endpoint of the
//! Modrinth API. The crate performs no I/O: it says which URL to fetch and
//! what a reply amounts to.

use crate::json::error_message;
use vstd::prelude::*;

pub mod api_calls;
pub mod json;
pub mod percent;
pub mod request;
pub mod structures;
pub mod text;
pub mod url_ext;
pub mod url_read;

verus! {

/// The address that every endpoint of the API lies under.
pub const API_BASE_URL: &'static str = "https://api.modrinth.com/v2/";

/// Why a call failed.
#[derive(Debug, Clone, PartialEq, Eq)]
pub enum CallError {
    /// A parameter could not be written as JSON.
    Serialization(String),
    /// The request could not be sent, or no reply came.
    Transport(String),
    /// The server replied with a status that does not mean success.
    Api { status: u16, body: String },
    /// The body of the reply is not what a reply of this kind looks like.
    Deserialization(String),
}

impl CallError {
    /// The failure to write a parameter as JSON, with what `error` says of it.
    pub fn serialization(error: &serde_json::Error) -> (failure: CallError)
        ensures
            failure is Serialization,
    {
        CallError::Serialization(error_message(error))
    }
}

/// The entry point to the API: its methods are the calls that can be made.
#[derive(Debug, Clone, Copy, PartialEq, Eq)]
pub struct Ferinth {}

impl Default for Ferinth {
    fn default() -> (ferinth: Ferinth)
        ensures
            ferinth == (Ferinth {}),
    {
        Ferinth {}
    }
}

} // verus!
