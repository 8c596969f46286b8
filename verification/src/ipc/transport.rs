//! Connecting to a diagnostic endpoint.
//!
//! Each connection carries exactly one command. The runtime closes it afterwards, except for
//! `CollectTracing`, where the socket continues as the nettrace stream.
use vstd::prelude::*;

verus! {

/// Why a connection could not be made.
#[derive(Debug, Clone, PartialEq, Eq)]
pub enum ConnectFault {
    /// Nobody answers: the endpoint file outlived the process that created it.
    NotListening,
    PermissionDenied,
    /// Any other failure, in the transport's own words.
    Other(String),
}

#[derive(Debug, Clone, PartialEq, Eq)]
pub struct ConnectError {
    /// The endpoint, as it is shown to a person.
    pub socket: String,
    pub source: ConnectFault,
}

impl ConnectError {
    /// The error in words.
    pub open spec fn words(self) -> Seq<char> {
        match self.source {
            ConnectFault::NotListening => "the process is no longer listening (stale socket "@
                + self.socket@ + ")"@,
            ConnectFault::PermissionDenied => "permission denied connecting to "@ + self.socket@
                + "; the process belongs to another user"@,
            ConnectFault::Other(source) => "could not connect to "@ + self.socket@ + ": "@
                + source@,
        }
    }

    /// The error in words, for a person to read.
    pub fn describe(&self) -> (s: String)
        ensures
            s@ == self.words(),
    {
        match &self.source {
            ConnectFault::NotListening => {
                let mut s = "the process is no longer listening (stale socket ".to_owned();
                s.append(self.socket.as_str());
                s.append(")");
                s
            },
            ConnectFault::PermissionDenied => {
                let mut s = "permission denied connecting to ".to_owned();
                s.append(self.socket.as_str());
                s.append("; the process belongs to another user");
                s
            },
            ConnectFault::Other(source) => {
                let mut s = "could not connect to ".to_owned();
                s.append(self.socket.as_str());
                s.append(": ");
                s.append(source.as_str());
                s
            },
        }
    }
}

} // verus!
