pub mod auth;
pub mod builder;
pub mod chartext;
pub mod client;
pub mod codec;
pub mod fields;
pub mod json;
pub mod model;
pub mod options;

use vstd::prelude::*;

verus! {

/// Error value returned by every fallible operation of this crate.
///
/// `error` carries a short category tag, `message` a human-readable
/// description, and `info` an optional raw diagnostic payload (for
/// instance the body of a response that could not be parsed).
#[derive(Debug)]
pub struct MALError {
    pub error: String,
    pub message: Option<String>,
    pub info: Option<String>,
}

/// The mathematical value of a `MALError`.
pub struct MALErrorV {
    pub error: Seq<char>,
    pub message: Option<Seq<char>>,
    pub info: Option<Seq<char>>,
}

impl View for MALError {
    type V = MALErrorV;

    open spec fn view(&self) -> MALErrorV {
        MALErrorV {
            error: self.error@,
            message: match self.message {
                Some(m) => Some(m@),
                None => None,
            },
            info: match self.info {
                Some(i) => Some(i@),
                None => None,
            },
        }
    }
}

impl MALError {
    pub fn new(msg: &str, error: &str, info: Option<String>) -> (r: MALError)
        ensures
            r.error@ == error@,
            r.message matches Some(m) && m@ == msg@,
            r.info == info,
    {
        MALError { error: error.to_owned(), message: Some(msg.to_owned()), info: info }
    }

    /// The one-line account of this error that the crate shows a user.
    pub fn describe(&self) -> (r: String)
        ensures
            r@ == "lib_mal encountered an error: "@ + self.error@,
    {
        let mut r = String::from_str("lib_mal encountered an error: ");
        r.append(self.error.as_str());
        r
    }
}

} // verus!
