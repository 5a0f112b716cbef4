//! The parameters with which the run connects to the database.

use vstd::prelude::*;
use crate::error::{missing, missing_field, MyError};
use crate::text_map::TextMap;

verus! {

/// What it takes to open the connection.
#[derive(Clone, Debug, PartialEq, Eq)]
pub struct ConnectionParams {
    /// The host of the database server.
    pub host: String,
    /// The TCP port of the database server.
    pub port: u16,
    /// The name of the database user.
    pub user: String,
    /// The password of the database user.
    pub password: String,
    /// The name of the database.
    pub database: String,
}

/// What a `ConnectionParams` holds.
pub struct ConnectionView {
    pub host: Seq<char>,
    pub port: u16,
    pub user: Seq<char>,
    pub password: Seq<char>,
    pub database: Seq<char>,
}

impl View for ConnectionParams {
    type V = ConnectionView;

    open spec fn view(&self) -> ConnectionView {
        ConnectionView {
            host: self.host@,
            port: self.port,
            user: self.user@,
            password: self.password@,
            database: self.database@,
        }
    }
}

/// Whether `c` is one of the digits `0` to `9`.
pub open spec fn is_digit(c: char) -> bool {
    '0' as u32 <= c as u32 <= '9' as u32
}

/// Whether `text` is made of digits only.
pub open spec fn all_digits(text: Seq<char>) -> bool {
    forall|i: int| 0 <= i < text.len() ==> is_digit(#[trigger] text[i])
}

/// The number that the digits `digits` write in base ten.
pub open spec fn digits_value(digits: Seq<char>) -> nat
    decreases digits.len(),
{
    if digits.len() == 0 {
        0
    } else {
        (digits_value(digits.drop_last()) * 10 + (digits.last() as u32 - '0' as u32)) as nat
    }
}

/// `text` without the `+` that may stand in front of a number.
pub open spec fn without_sign(text: Seq<char>) -> Seq<char> {
    if text.len() > 0 && text[0] == '+' {
        text.drop_first()
    } else {
        text
    }
}

/// The port that `text` writes: one or more digits, with or without a `+` in
/// front, whose value fits a port. `None` for any other text.
pub open spec fn port_of(text: Seq<char>) -> Option<u16> {
    let digits = without_sign(text);
    if digits.len() > 0 && all_digits(digits) && digits_value(digits) <= u16::MAX {
        Some(digits_value(digits) as u16)
    } else {
        None
    }
}

/// The message with which `str::parse::<u16>` refuses `text`.
pub uninterp spec fn port_error(text: Seq<char>) -> Seq<char>;

/// Reads `text` as a port number.
///
/// Trusted: the body calls `str::parse::<u16>` and hands back the number, or
/// the text of the parse error. As std documents it, the call accepts an
/// optional `+` followed by digits only, with a value that fits `u16`, and
/// refuses everything else, the empty text and a lone `+` included. The
/// error's text depends on `text` alone; the contract only gives it its
/// name.
#[verifier::external_body]
fn parse_port(text: &str) -> (parsed: Result<u16, String>)
    ensures
        parsed is Ok <==> port_of(text@) is Some,
        parsed matches Ok(port) ==> port_of(text@) == Some(port),
        parsed matches Err(message) ==> message@ == port_error(text@),
{
    match text.parse::<u16>() {
        Ok(port) => Ok(port),
        Err(error) => Err(error.to_string()),
    }
}

/// The error that keeps the parameters `info` from being used, looked for
/// in this order: `user`, `pass` and `port` must be there, the port must be
/// a port number, `name` and `host` must be there. `None` where nothing is
/// wrong.
pub open spec fn params_fault(info: Map<Seq<char>, Seq<char>>) -> Option<Seq<char>> {
    if !info.contains_key("user"@) {
        Some(missing_field("user"@))
    } else if !info.contains_key("pass"@) {
        Some(missing_field("pass"@))
    } else if !info.contains_key("port"@) {
        Some(missing_field("port"@))
    } else if port_of(info["port"@]) is None {
        Some(port_error(info["port"@]))
    } else if !info.contains_key("name"@) {
        Some(missing_field("name"@))
    } else if !info.contains_key("host"@) {
        Some(missing_field("host"@))
    } else {
        None
    }
}

/// The connection parameters that `info` gives, where nothing is wrong with
/// it.
pub open spec fn params_of(info: Map<Seq<char>, Seq<char>>) -> ConnectionView {
    ConnectionView {
        host: info["host"@],
        port: port_of(info["port"@])->0,
        user: info["user"@],
        password: info["pass"@],
        database: info["name"@],
    }
}

/// The connection parameters that `info` gives, or what is wrong with it.
pub open spec fn params_result(info: Map<Seq<char>, Seq<char>>) -> Result<
    ConnectionView,
    Seq<char>,
> {
    match params_fault(info) {
        Some(message) => Err(message),
        None => Ok(params_of(info)),
    }
}

/// The connection parameters that the database parameters `info` give:
/// `host`, `port`, `user`, `pass` and `name`, the port read as a number.
///
/// Fails with "Cannot find" and the name where a parameter is not there, and
/// with the message of the number parser where the port is no port number.
pub fn connection_params(info: &TextMap) -> (made: Result<ConnectionParams, MyError>)
    ensures
        match made {
            Ok(params) => params_result(info@) == Ok::<ConnectionView, Seq<char>>(params@),
            Err(error) => params_result(info@) == Err::<ConnectionView, Seq<char>>(error@),
        },
{
    let user = match info.get("user") {
        Some(user) => user,
        None => {
            return Err(missing("user"));
        },
    };
    let password = match info.get("pass") {
        Some(password) => password,
        None => {
            return Err(missing("pass"));
        },
    };
    let port_text = match info.get("port") {
        Some(port) => port,
        None => {
            return Err(missing("port"));
        },
    };
    let port = match parse_port(port_text) {
        Ok(port) => port,
        Err(message) => {
            return Err(MyError::new(message.as_str()));
        },
    };
    let database = match info.get("name") {
        Some(database) => database,
        None => {
            return Err(missing("name"));
        },
    };
    let host = match info.get("host") {
        Some(host) => host,
        None => {
            return Err(missing("host"));
        },
    };
    Ok(
        ConnectionParams {
            host: host.to_owned(),
            port,
            user: user.to_owned(),
            password: password.to_owned(),
            database: database.to_owned(),
        },
    )
}

} // verus!
