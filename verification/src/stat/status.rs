//! The states that a proxy object or a health check reports. The vocabulary
//! grows with the server's version, so a text that is not known is kept as it
//! came.

use crate::text::str_eq;
use vstd::prelude::*;

verus! {

/// The state of a frontend, backend, server or listener.
#[derive(Debug, Clone, PartialEq, Eq)]
pub enum Status {
    UP,
    DOWN,
    OPEN,
    /// Any other state, in the sender's words.
    Other(String),
}

impl Status {
    /// The state as the wire writes it.
    pub open spec fn text(&self) -> Seq<char> {
        match self {
            Status::UP => "UP"@,
            Status::DOWN => "DOWN"@,
            Status::OPEN => "OPEN"@,
            Status::Other(s) => s@,
        }
    }

    /// Whether a known state is held as its own variant, not as `Other`.
    pub open spec fn canonical(&self) -> bool {
        self matches Status::Other(s) ==> s@ != "UP"@ && s@ != "DOWN"@ && s@ != "OPEN"@
    }

    /// The state that `text` names. Every text names one.
    pub fn from_text(text: String) -> (r: Status)
        ensures
            r.text() == text@,
            r.canonical(),
    {
        if str_eq(text.as_str(), "UP") {
            Status::UP
        } else if str_eq(text.as_str(), "DOWN") {
            Status::DOWN
        } else if str_eq(text.as_str(), "OPEN") {
            Status::OPEN
        } else {
            Status::Other(text)
        }
    }

    /// The state as the wire writes it.
    pub fn as_str(&self) -> (r: &str)
        ensures
            r@ == self.text(),
    {
        match self {
            Status::UP => "UP",
            Status::DOWN => "DOWN",
            Status::OPEN => "OPEN",
            Status::Other(s) => s.as_str(),
        }
    }
}

/// The result of a server's last health check. The variants that begin with
/// `Last` stand for a result that is written with a leading `* `: the check
/// is running again and this was its last result.
#[derive(Debug, Clone, PartialEq, Eq)]
pub enum CheckStatus {
    L4TOUT,
    LastL4TOUT,
    L4CON,
    LastL4CON,
    L7OK,
    LastL7OK,
    /// Any other result, in the sender's words.
    Other(String),
}

impl CheckStatus {
    /// The result as the wire writes it.
    pub open spec fn text(&self) -> Seq<char> {
        match self {
            CheckStatus::L4TOUT => "L4TOUT"@,
            CheckStatus::LastL4TOUT => "* L4TOUT"@,
            CheckStatus::L4CON => "L4CON"@,
            CheckStatus::LastL4CON => "* L4CON"@,
            CheckStatus::L7OK => "L7OK"@,
            CheckStatus::LastL7OK => "* L7OK"@,
            CheckStatus::Other(s) => s@,
        }
    }

    /// Whether a known result is held as its own variant, not as `Other`.
    pub open spec fn canonical(&self) -> bool {
        self matches CheckStatus::Other(s) ==> {
            &&& s@ != "L4TOUT"@
            &&& s@ != "* L4TOUT"@
            &&& s@ != "L4CON"@
            &&& s@ != "* L4CON"@
            &&& s@ != "L7OK"@
            &&& s@ != "* L7OK"@
        }
    }

    /// The result that `text` names. Every text names one.
    pub fn from_text(text: String) -> (r: CheckStatus)
        ensures
            r.text() == text@,
            r.canonical(),
    {
        if str_eq(text.as_str(), "L4TOUT") {
            CheckStatus::L4TOUT
        } else if str_eq(text.as_str(), "* L4TOUT") {
            CheckStatus::LastL4TOUT
        } else if str_eq(text.as_str(), "L4CON") {
            CheckStatus::L4CON
        } else if str_eq(text.as_str(), "* L4CON") {
            CheckStatus::LastL4CON
        } else if str_eq(text.as_str(), "L7OK") {
            CheckStatus::L7OK
        } else if str_eq(text.as_str(), "* L7OK") {
            CheckStatus::LastL7OK
        } else {
            CheckStatus::Other(text)
        }
    }

    /// The result as the wire writes it.
    pub fn as_str(&self) -> (r: &str)
        ensures
            r@ == self.text(),
    {
        match self {
            CheckStatus::L4TOUT => "L4TOUT",
            CheckStatus::LastL4TOUT => "* L4TOUT",
            CheckStatus::L4CON => "L4CON",
            CheckStatus::LastL4CON => "* L4CON",
            CheckStatus::L7OK => "L7OK",
            CheckStatus::LastL7OK => "* L7OK",
            CheckStatus::Other(s) => s.as_str(),
        }
    }
}

/// The text of an optional check result.
pub open spec fn check_text(c: Option<CheckStatus>) -> Option<Seq<char>> {
    match c {
        Some(s) => Some(s.text()),
        None => None,
    }
}

} // verus!
