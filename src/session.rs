use vstd::prelude::*;
use vstd::string::*;
use crate::protocol::{
    encode_result, error_message, is_request_line, is_sendable, names_command, parse_request,
    request_line, response_line, ProtocolError,
};
use crate::store::{CommandResult, Request, ResultModel};

verus! {

/// What the connection loop observed.
pub enum SessionEvent {
    /// The shutdown signal fired.
    Cancelled,
    /// A text message arrived.
    Text(String),
    /// The client sent a close frame.
    Close,
    /// The stream ended.
    StreamEnd,
    /// Reading from the transport failed.
    ReadFailed,
    /// A message of a kind other than text or close arrived.
    Unsupported,
}

/// What the connection loop does next.
pub enum SessionAction {
    /// Send this request to the store actor, await its result and write
    /// the result's text back to the client.
    Forward(Request),
    /// Write this text back to the client, and go on.
    Respond(String),
    /// Warn and go on.
    Ignore,
    /// Leave the loop; when `send_close` holds, close the socket first (the
    /// session was still open), which sends or answers the close frame.
    Stop { send_close: bool },
}

/// The error that a line which is no request is answered with.
pub open spec fn protocol_error_of(s: Seq<char>) -> ProtocolError {
    if names_command(s) {
        ProtocolError::BadArguments
    } else {
        ProtocolError::UnknownCommand
    }
}

/// The decisions of one client connection.
pub struct Session {
    open: bool,
}

impl Session {
    pub closed spec fn is_open(&self) -> bool {
        self.open
    }

    /// A new, open session.
    pub fn new() -> (s: Session)
        ensures
            s.is_open(),
    {
        Session { open: true }
    }

    /// Whether the loop is to go on.
    pub fn open(&self) -> (r: bool)
        ensures
            r == self.is_open(),
    {
        self.open
    }

    /// Takes one event. A well-formed line is forwarded to the store; any
    /// other line is answered with an error and the session goes on.
    /// Cancellation, a close frame from the client, the end of the stream
    /// and transport failures all stop it, with a close frame sent on the
    /// way out so that the client's close handshake is answered.
    pub fn on_event(&mut self, ev: SessionEvent) -> (r: SessionAction)
        ensures
            !old(self).is_open() ==> !final(self).is_open() && r == (SessionAction::Stop {
                send_close: false,
            }),
            old(self).is_open() ==> match ev {
                SessionEvent::Cancelled
                | SessionEvent::ReadFailed
                | SessionEvent::Close
                | SessionEvent::StreamEnd => !final(self).is_open() && r == (SessionAction::Stop {
                    send_close: true,
                }),
                SessionEvent::Unsupported => final(self).is_open() && r is Ignore,
                SessionEvent::Text(t) => {
                    &&& final(self).is_open()
                    &&& is_request_line(t@) ==> (r matches SessionAction::Forward(req) && is_sendable(
                        req@,
                    ) && request_line(req@) == t@)
                    &&& !is_request_line(t@) ==> (r matches SessionAction::Respond(out) && out@
                        == response_line(
                        ResultModel::Failed { msg: error_message(protocol_error_of(t@)) },
                        Seq::empty(),
                    ))
                },
            },
    {
        if !self.open {
            return SessionAction::Stop { send_close: false };
        }
        match ev {
            SessionEvent::Cancelled
            | SessionEvent::ReadFailed
            | SessionEvent::Close
            | SessionEvent::StreamEnd => {
                self.open = false;
                SessionAction::Stop { send_close: true }
            },
            SessionEvent::Unsupported => SessionAction::Ignore,
            SessionEvent::Text(t) => match parse_request(t.as_str()) {
                Ok(req) => SessionAction::Forward(req),
                Err(e) => SessionAction::Respond(encode_result(&e.to_result(), "")),
            },
        }
    }
}

/// The text written back for a forwarded request on `key`: the store's
/// result, or an error when the store went away without answering.
pub fn reply_text(reply: Option<CommandResult>, key: &str) -> (out: String)
    ensures
        reply matches Some(res) ==> out@ == response_line(res@, key@),
        reply is None ==> out@ == response_line(
            ResultModel::Failed { msg: store_gone_message() },
            key@,
        ),
{
    match reply {
        Some(res) => encode_result(&res, key),
        None => {
            proof {
                reveal_strlit("store unavailable");
            }
            let res = CommandResult::Failed { msg: String::from_str("store unavailable") };
            encode_result(&res, key)
        },
    }
}

/// The message sent when the store answers nothing.
pub open spec fn store_gone_message() -> Seq<char> {
    seq!['s', 't', 'o', 'r', 'e', ' ', 'u', 'n', 'a', 'v', 'a', 'i', 'l', 'a', 'b', 'l', 'e']
}

/// The label under which a client is logged: its user agent, `Invalid` where
/// the header is not text, `Unknown` where there is none.
pub fn agent_label(header: Option<Option<&str>>) -> (out: String)
    ensures
        header matches Some(Some(h)) ==> out@ == h@,
        header matches Some(None) ==> out@ == seq!['I', 'n', 'v', 'a', 'l', 'i', 'd'],
        header is None ==> out@ == seq!['U', 'n', 'k', 'n', 'o', 'w', 'n'],
{
    match header {
        Some(Some(h)) => h.to_owned(),
        Some(None) => {
            proof {
                reveal_strlit("Invalid");
            }
            String::from_str("Invalid")
        },
        None => {
            proof {
                reveal_strlit("Unknown");
            }
            String::from_str("Unknown")
        },
    }
}

} // verus!
