//! What the dashboard says to the server: the live-update socket's address
//! and the kill request, with the texts shown around it.

use vstd::prelude::*;
use crate::text::{decimal, push_decimal, str_eq};

verus! {

/// `"https:"` as characters.
pub open spec fn https_scheme() -> Seq<char> {
    seq!['h', 't', 't', 'p', 's', ':']
}

/// The address of the live-update socket of the page served from `host`
/// over `protocol`: secure (`wss`) exactly when the page is served over
/// `https:`, at the path `/ws`.
pub open spec fn ws_url_spec(protocol: Seq<char>, host: Seq<char>) -> Seq<char> {
    (if protocol == https_scheme() {
        seq!['w', 's', 's']
    } else {
        seq!['w', 's']
    }) + seq![':', '/', '/'] + host + seq!['/', 'w', 's']
}

/// The live-update socket's address for the page's location.
pub fn ws_url(protocol: &str, host: &str) -> (r: String)
    ensures
        r@ == ws_url_spec(protocol@, host@),
{
    proof {
        reveal_strlit("https:");
        reveal_strlit("wss");
        reveal_strlit("ws");
        reveal_strlit("://");
        reveal_strlit("/ws");
        assert("https:"@ =~= https_scheme());
    }
    let mut url = if str_eq(protocol, "https:") {
        String::from_str("wss")
    } else {
        String::from_str("ws")
    };
    url.append("://");
    url.append(host);
    url.append("/ws");
    assert(url@ =~= ws_url_spec(protocol@, host@));
    url
}

/// The question asked before killing process `pid`: `"Kill process <pid>?"`.
pub open spec fn kill_question_spec(pid: u32) -> Seq<char> {
    seq!['K', 'i', 'l', 'l', ' ', 'p', 'r', 'o', 'c', 'e', 's', 's', ' '] + decimal(pid as nat)
        + seq!['?']
}

/// The question asked before killing process `pid`.
pub fn kill_question(pid: u32) -> (r: String)
    ensures
        r@ == kill_question_spec(pid),
{
    proof {
        reveal_strlit("Kill process ");
        reveal_strlit("?");
    }
    let mut s = String::from_str("Kill process ");
    push_decimal(&mut s, pid as u128);
    s.append("?");
    assert(s@ =~= kill_question_spec(pid));
    s
}

/// The address of the kill request for process `pid` on the server at
/// `origin`: `<origin>/api/process/<pid>`.
pub open spec fn kill_url_spec(origin: Seq<char>, pid: u32) -> Seq<char> {
    origin + seq!['/', 'a', 'p', 'i', '/', 'p', 'r', 'o', 'c', 'e', 's', 's', '/'] + decimal(
        pid as nat,
    )
}

/// The address of the kill request (an HTTP `DELETE`) for process `pid`.
pub fn kill_url(origin: &str, pid: u32) -> (r: String)
    ensures
        r@ == kill_url_spec(origin@, pid),
{
    proof {
        reveal_strlit("/api/process/");
    }
    let mut s = String::from_str(origin);
    s.append("/api/process/");
    push_decimal(&mut s, pid as u128);
    assert(s@ =~= kill_url_spec(origin@, pid));
    s
}

/// How the kill request ended.
#[derive(Clone, Copy, Debug, PartialEq, Eq, Structural)]
pub enum KillReply {
    /// The server answered with this HTTP status.
    Status(u16),
    /// The request did not reach the server.
    NetworkError,
}

/// The HTTP status with which the server refuses a kill it may not perform.
pub const STATUS_FORBIDDEN: u16 = 403;

/// The alert shown after a kill request: on a refusal (`403`),
/// `"Cannot kill <pid>: permission denied"`; when the request failed,
/// `"Network error — kill request failed"`; otherwise none.
pub open spec fn kill_alert_spec(pid: u32, reply: KillReply) -> Option<Seq<char>> {
    match reply {
        KillReply::Status(status) => if status == STATUS_FORBIDDEN {
            Some(
                seq!['C', 'a', 'n', 'n', 'o', 't', ' ', 'k', 'i', 'l', 'l', ' '] + decimal(pid as nat)
                    + seq![
                    ':',
                    ' ',
                    'p',
                    'e',
                    'r',
                    'm',
                    'i',
                    's',
                    's',
                    'i',
                    'o',
                    'n',
                    ' ',
                    'd',
                    'e',
                    'n',
                    'i',
                    'e',
                    'd',
                ],
            )
        } else {
            None
        },
        KillReply::NetworkError => Some(
            seq![
                'N',
                'e',
                't',
                'w',
                'o',
                'r',
                'k',
                ' ',
                'e',
                'r',
                'r',
                'o',
                'r',
                ' ',
                '\u{2014}',
                ' ',
                'k',
                'i',
                'l',
                'l',
                ' ',
                'r',
                'e',
                'q',
                'u',
                'e',
                's',
                't',
                ' ',
                'f',
                'a',
                'i',
                'l',
                'e',
                'd',
            ],
        ),
    }
}

/// The alert to show after the kill request for process `pid` ended with
/// `reply`, if any.
pub fn kill_alert(pid: u32, reply: KillReply) -> (r: Option<String>)
    ensures
        match r {
            Some(s) => kill_alert_spec(pid, reply) == Some(s@),
            None => kill_alert_spec(pid, reply) is None,
        },
{
    match reply {
        KillReply::Status(status) => {
            if status == STATUS_FORBIDDEN {
                proof {
                    reveal_strlit("Cannot kill ");
                    reveal_strlit(": permission denied");
                }
                let mut s = String::from_str("Cannot kill ");
                push_decimal(&mut s, pid as u128);
                s.append(": permission denied");
                assert(kill_alert_spec(pid, reply) == Some(s@));
                Some(s)
            } else {
                None
            }
        },
        KillReply::NetworkError => {
            proof {
                reveal_strlit("Network error \u{2014} kill request failed");
            }
            let s = String::from_str("Network error \u{2014} kill request failed");
            assert(kill_alert_spec(pid, reply) == Some(s@));
            Some(s)
        },
    }
}

} // verus!
