//! What the service answers: a status code and a body, and the errors that
//! a request can end in.

use vstd::prelude::*;

verus! {

/// The status of a lookup that found its user.
pub const OK: u16 = 200;

/// The status of a write that was stored.
pub const NO_CONTENT: u16 = 204;

/// The status of a request that failed validation.
pub const BAD_REQUEST: u16 = 400;

/// The status of a lookup for a user that is not registered.
pub const NOT_FOUND: u16 = 404;

/// The status of a request that the service could not carry out.
pub const INTERNAL_SERVER_ERROR: u16 = 500;

/// The compact JSON text of an object with the one member `key`, a string,
/// whose value is the string `value`, as `serde_json` renders it.
pub uninterp spec fn json_object_text(key: Seq<char>, value: Seq<char>) -> Seq<char>;

/// Builds a `serde_json::Value::Object` with the one member `key`, holding
/// `serde_json::Value::String` of `value`, and renders it through the
/// `Display` impl of `serde_json::Value`, which writes compact JSON.
#[verifier::external_body]
fn json_object(key: &str, value: &str) -> (text: String)
    ensures
        text@ == json_object_text(key@, value@),
{
    let mut members = serde_json::Map::new();
    members.insert(key.to_owned(), serde_json::Value::String(value.to_owned()));
    serde_json::Value::Object(members).to_string()
}

/// The body that carries `message`: a JSON object with the one member
/// `message`.
pub open spec fn message_body(message: Seq<char>) -> Seq<char> {
    json_object_text("message"@, message)
}

/// An answer to a request.
#[derive(Clone, Debug)]
pub struct Reply {
    pub status: u16,
    pub body: String,
}

/// The mathematical model of a [`Reply`]: its status and the text of its
/// body.
pub struct ReplyView {
    pub status: u16,
    pub body: Seq<char>,
}

impl View for Reply {
    type V = ReplyView;

    open spec fn view(&self) -> ReplyView {
        ReplyView { status: self.status, body: self.body@ }
    }
}

impl Reply {
    /// An answer with the given status and no body.
    pub fn empty(status: u16) -> (reply: Reply)
        ensures
            reply@ == (ReplyView { status, body: Seq::empty() }),
    {
        Reply { status, body: String::new() }
    }

    /// An answer with the given status whose body carries `message`.
    pub fn message(status: u16, message: &str) -> (reply: Reply)
        ensures
            reply@ == (ReplyView { status, body: message_body(message@) }),
    {
        Reply { status, body: json_object("message", message) }
    }
}

/// A failure of the table of birthdays: the table could not be reached, or
/// it refused the operation.
#[derive(Clone, Copy, Debug, PartialEq, Eq, Structural)]
pub struct StoreError;

/// The ways in which a request can fail.
#[derive(Clone, Copy, Debug, PartialEq, Eq, Structural)]
pub enum ServiceError {
    /// No birthday is registered under the username.
    NotFound,
    /// The username or the date of birth of the request is not valid.
    Validation,
    /// The table of birthdays failed.
    Store,
    /// Today's date cannot be counted from: the next birthday lies after the
    /// calendar's last year.
    Clock,
}

impl ServiceError {
    /// The answer that reports this error: a lookup that found nothing says
    /// so in its body, and every other failure gives its status alone.
    pub open spec fn reply(self) -> ReplyView {
        match self {
            ServiceError::NotFound => ReplyView {
                status: NOT_FOUND,
                body: message_body("User not found"@),
            },
            ServiceError::Validation => ReplyView { status: BAD_REQUEST, body: Seq::empty() },
            ServiceError::Store => ReplyView {
                status: INTERNAL_SERVER_ERROR,
                body: Seq::empty(),
            },
            ServiceError::Clock => ReplyView {
                status: INTERNAL_SERVER_ERROR,
                body: Seq::empty(),
            },
        }
    }

    /// The answer that reports this error.
    pub fn to_reply(self) -> (reply: Reply)
        ensures
            reply@ == self.reply(),
    {
        match self {
            ServiceError::NotFound => Reply::message(NOT_FOUND, "User not found"),
            ServiceError::Validation => Reply::empty(BAD_REQUEST),
            ServiceError::Store => Reply::empty(INTERNAL_SERVER_ERROR),
            ServiceError::Clock => Reply::empty(INTERNAL_SERVER_ERROR),
        }
    }
}

} // verus!
