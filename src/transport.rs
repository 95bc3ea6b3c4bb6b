use vstd::prelude::*;
use vstd::string::StringExecFns;

verus! {

pub const SEND_FAILED: &'static str = "Send failed: ";

pub const REQUEST_FAILED: &'static str = "Request failed: ";

/// How a fetch failed, with the transport's own description.
#[derive(PartialEq, Eq, Debug)]
pub enum TransportError {
    /// The request could not be sent or no response came back.
    Send(String),
    /// A response came back but its body could not be read.
    Body(String),
}

/// The message a failed result carries for a transport failure.
pub open spec fn transport_message(e: TransportError) -> Seq<char> {
    match e {
        TransportError::Send(m) => SEND_FAILED@ + m@,
        TransportError::Body(m) => REQUEST_FAILED@ + m@,
    }
}

impl TransportError {
    /// The failure described in one line, naming which step failed.
    pub fn describe(&self) -> (r: String)
        ensures
            r@ == transport_message(*self),
            r@.len() > 0,
            r@[0] == 'S' || r@[0] == 'R',
    {
        proof {
            reveal_strlit("Send failed: ");
            reveal_strlit("Request failed: ");
        }
        match self {
            TransportError::Send(m) => {
                let mut out = String::from_str(SEND_FAILED);
                out.append(m.as_str());
                out
            },
            TransportError::Body(m) => {
                let mut out = String::from_str(REQUEST_FAILED);
                out.append(m.as_str());
                out
            },
        }
    }
}

} // verus!
