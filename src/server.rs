//! The intake frontend's decisions: which operation a request asks for,
//! and the replies it gets.

use vstd::prelude::*;

use crate::packet::Packet;
use crate::submission::{defect_text, Malformed};
use crate::text::{concat, decimal, decimal_string, has_prefix, starts_with};

verus! {

/// Hostname for the server.
pub const HOST: &'static str = "localhost";

/// Port number for the server.
pub const PORT: u16 = 8000;

/// The method of a request.
#[derive(Clone, Copy, Debug, PartialEq, Eq, Structural)]
pub enum Method {
    Get,
    Post,
    Other,
}

/// What a request asks for.
pub enum Action {
    /// The welcome page.
    Default,
    /// Submit the request body as a ZIP archive.
    Submit,
    /// The status of the packet with this hash.
    Status(String),
}

/// Why a request is refused.
#[derive(Clone, Copy, Debug, PartialEq, Eq, Structural)]
pub enum RequestError {
    InvalidUrl,
    InvalidMethod,
}

impl RequestError {
    /// A description of the error.
    pub fn message(&self) -> (r: String)
        ensures
            r@ == match self {
                RequestError::InvalidUrl => "invalid URL"@,
                RequestError::InvalidMethod => "invalid method"@,
            },
    {
        match self {
            RequestError::InvalidUrl => String::from_str("invalid URL"),
            RequestError::InvalidMethod => String::from_str("invalid method"),
        }
    }
}

impl Action {
    /// Route a request by method and URL: `POST /submit`, `GET /` (or an
    /// empty URL), and `GET /status/<hash>`.
    pub fn parse(method: Method, url: &str) -> (r: Result<Action, RequestError>)
        ensures
            method == Method::Post ==> if url@ == "/submit"@ {
                r matches Ok(Action::Submit)
            } else {
                r == Err::<Action, RequestError>(RequestError::InvalidUrl)
            },
            method == Method::Get ==> if url@.len() <= 1 {
                r matches Ok(Action::Default)
            } else if has_prefix(url@, "/status/"@) {
                r matches Ok(Action::Status(h)) && h@ == url@.subrange(8, url@.len() as int)
            } else {
                r == Err::<Action, RequestError>(RequestError::InvalidUrl)
            },
            method == Method::Other ==> r == Err::<Action, RequestError>(
                RequestError::InvalidMethod,
            ),
    {
        match method {
            Method::Post => {
                if crate::text::same_text(url, "/submit") {
                    Ok(Action::Submit)
                } else {
                    Err(RequestError::InvalidUrl)
                }
            },
            Method::Get => {
                let n = url.unicode_len();
                if n <= 1 {
                    Ok(Action::Default)
                } else if starts_with(url, "/status/") {
                    proof {
                        reveal_strlit("/status/");
                    }
                    Ok(Action::Status(String::from_str(url.substring_char(8, n))))
                } else {
                    Err(RequestError::InvalidUrl)
                }
            },
            Method::Other => Err(RequestError::InvalidMethod),
        }
    }
}

/// A reply: its status code and body.
pub struct Reply {
    pub code: u16,
    pub body: String,
}

/// Produce an error reply for a bad request.
pub fn make_sanity_error(reason: &str) -> (r: Reply)
    ensures
        r.code == 400,
        r.body@ == "[error] "@ + reason@,
{
    Reply { code: 400, body: concat("[error] ", reason) }
}

/// Produce an error reply for a failure of the server itself.
pub fn make_server_error(reason: &str) -> (r: Reply)
    ensures
        r.code == 500,
        r.body@ == "[internal error] "@ + reason@,
{
    Reply { code: 500, body: concat("[internal error] ", reason) }
}

/// Produce a normal reply.
pub fn make_ok(reason: &str) -> (r: Reply)
    ensures
        r.code == 200,
        r.body@ == reason@ + "\n"@,
{
    Reply { code: 200, body: concat(reason, "\n") }
}

/// The reply to a submission that is not well-formed.
pub fn malformed_reply(m: &Malformed) -> (r: Reply)
    ensures
        r.code == 400,
        r.body@ == "[error] "@ + "package does not seem to be well-formed: "@ + defect_text(m@),
{
    let text = m.message();
    let reason = concat("package does not seem to be well-formed: ", text.as_str());
    let r = make_sanity_error(reason.as_str());
    proof {
        assert(r.body@ =~= "[error] "@ + "package does not seem to be well-formed: "@ + defect_text(
            m@,
        ));
    }
    r
}

/// The message that answers an accepted submission.
pub open spec fn submit_text(existed: bool, id: Seq<char>) -> Seq<char> {
    "the package "@ + (if existed {
        "has been submitted before"@
    } else {
        "is scheduled for analysis"@
    }) + ", you can check its status or result at http://"@ + "localhost"@ + ":"@ + decimal(
        8000,
    ) + "/status/"@ + id
}

/// The message that answers an accepted submission: whether it is new, and
/// where its status can be read.
pub fn submit_message(existed: bool, packet: &Packet) -> (r: String)
    ensures
        r@ == submit_text(existed, packet@),
{
    let head = if existed {
        "has been submitted before"
    } else {
        "is scheduled for analysis"
    };
    let a = concat("the package ", head);
    let b = concat(a.as_str(), ", you can check its status or result at http://");
    let c = concat(b.as_str(), HOST);
    let d = concat(c.as_str(), ":");
    let port = decimal_string(PORT as u128);
    let e = concat(d.as_str(), port.as_str());
    let f = concat(e.as_str(), "/status/");
    let r = concat(f.as_str(), packet.id());
    proof {
        reveal_strlit("localhost");
        assert(r@ =~= submit_text(existed, packet@));
    }
    r
}

} // verus!
