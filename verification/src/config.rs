//! Where the service finds its database: the settings of the connection and
//! the address made of them.

use vstd::prelude::*;
use vstd::string::StringExecFns;
use vstd::utf8::encode_utf8;

verus! {

/// Whether the byte `b` stands for itself in a percent-encoded text: the
/// ASCII letters and digits, and `-`, `.`, `_` and `~`.
pub open spec fn is_unreserved(b: u8) -> bool {
    ||| 0x30 <= b <= 0x39
    ||| 0x41 <= b <= 0x5a
    ||| 0x61 <= b <= 0x7a
    ||| b == 0x2d
    ||| b == 0x2e
    ||| b == 0x5f
    ||| b == 0x7e
}

/// The character that writes `v` as one hexadecimal digit in upper case, for
/// `v` from 0 to 15.
pub open spec fn hex_digit(v: int) -> char {
    if v < 10 {
        (0x30 + v) as char
    } else {
        (0x41 + v - 10) as char
    }
}

/// One byte, percent-encoded: itself where it is unreserved, and otherwise
/// `%` and its two hexadecimal digits.
pub open spec fn percent_encoded_byte(b: u8) -> Seq<char> {
    if is_unreserved(b) {
        seq![b as char]
    } else {
        seq!['%', hex_digit(b as int / 16), hex_digit(b as int % 16)]
    }
}

/// The bytes `bytes`, percent-encoded one after the other.
pub open spec fn percent_encoded(bytes: Seq<u8>) -> Seq<char>
    decreases bytes.len(),
{
    if bytes.len() == 0 {
        Seq::empty()
    } else {
        percent_encoded(bytes.drop_last()) + percent_encoded_byte(bytes.last())
    }
}

/// Calls `urlencoding::encode`, which percent-encodes every byte of the
/// UTF-8 form of `text` except the unreserved ones.
#[verifier::external_body]
fn percent_encode(text: &str) -> (encoded: String)
    ensures
        encoded@ == percent_encoded(encode_utf8(text@)),
{
    urlencoding::encode(text).into_owned()
}

/// The settings of the database connection.
#[derive(Clone)]
pub struct DatabaseConfig {
    pub host: String,
    pub port: String,
    pub user: String,
    pub password: String,
    pub name: String,
}

/// The address of the database `name` on the server at `host` and `port`,
/// for the account `user`; `password` is the password already
/// percent-encoded.
pub open spec fn connection_url(
    user: Seq<char>,
    password: Seq<char>,
    host: Seq<char>,
    port: Seq<char>,
    name: Seq<char>,
) -> Seq<char> {
    "postgres://"@ + user + ":"@ + password + "@"@ + host + ":"@ + port + "/"@ + name
}

impl DatabaseConfig {
    /// The address to connect to. The password stands in it percent-encoded,
    /// so that no character of it is read as a part of the address.
    pub fn url(&self) -> (url: String)
        ensures
            url@ == connection_url(
                self.user@,
                percent_encoded(encode_utf8(self.password@)),
                self.host@,
                self.port@,
                self.name@,
            ),
    {
        let password = percent_encode(self.password.as_str());
        let mut url = String::from_str("postgres://");
        url.append(self.user.as_str());
        url.append(":");
        url.append(password.as_str());
        url.append("@");
        url.append(self.host.as_str());
        url.append(":");
        url.append(self.port.as_str());
        url.append("/");
        url.append(self.name.as_str());
        url
    }
}

} // verus!
