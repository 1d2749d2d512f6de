//! What a request says of itself.
use vstd::prelude::*;

use crate::server::limits::{MAX_BODY_BYTES, MAX_SMALL_BODY_BYTES};
#[allow(unused_imports)]
use crate::text::{has_prefix, lemma_split_has_a_piece, lowercased, split_at_char, texts, trimmed, text_at};
use crate::text::{lowercase, same_text, split, starts_with, trim};

verus! {

/// Best-effort client address, used to throttle unauthenticated endpoints.
pub struct ClientIp(pub String);

/// The address of a client: the first one it was forwarded for where a proxy is
/// trusted to say so, and otherwise where the connection came from.
pub open spec fn address_of(
    trusted: Option<Seq<char>>,
    forwarded: Option<Seq<char>>,
    peer: Option<Seq<char>>,
) -> Seq<char> {
    let first = match forwarded {
        Some(list) => trimmed(split_at_char(list, ',')[0]),
        None => Seq::empty(),
    };
    if trusted == Some("1"@) && first.len() > 0 {
        first
    } else {
        match peer {
            Some(peer) => peer,
            None => "unknown"@,
        }
    }
}

/// The address of a client. The forwarding header is honoured only when the
/// deployment says that a proxy is in front, because it is trivially spoofable
/// when the server is exposed directly.
pub fn client_ip(trusted: Option<&str>, forwarded: Option<&str>, peer: Option<&str>) -> (ip:
    ClientIp)
    ensures
        ip.0@ == address_of(text_at(trusted), text_at(forwarded), text_at(peer)),
{
    let trust = match trusted {
        Some(flag) => same_text(flag, "1"),
        None => false,
    };
    if trust {
        if let Some(list) = forwarded {
            let pieces = split(list, ',');
            proof {
                lemma_split_has_a_piece(list@, ',');
                assert(texts(pieces@).len() == pieces@.len());
                assert(texts(pieces@)[0] == pieces@[0]@);
            }
            let first = trim(&pieces[0]);
            if !first.as_str().is_empty() {
                return ClientIp(first);
            }
        }
    }
    match peer {
        Some(peer) => ClientIp(peer.to_string()),
        None => ClientIp("unknown".to_string()),
    }
}

/// Whether the download page is shown in Spanish.
pub fn prefers_spanish(accept_language: Option<&str>) -> (yes: bool)
    ensures
        yes == (accept_language is Some && has_prefix(
            lowercased(accept_language->0@),
            "es"@,
        )),
{
    match accept_language {
        Some(languages) => starts_with(&lowercase(languages), "es"),
        None => false,
    }
}

/// How many bytes the body of a request may have: enough for a picture when it
/// sends a message, and little otherwise.
pub open spec fn body_cap(method: Seq<char>, path: Seq<char>) -> usize {
    if method == "PUT"@ && has_prefix(path, "/v1/messages/"@) {
        MAX_BODY_BYTES
    } else {
        MAX_SMALL_BODY_BYTES
    }
}

/// How many bytes the body of a request may have.
pub fn body_limit(method: &str, path: &str) -> (cap: usize)
    ensures
        cap == body_cap(method@, path@),
{
    if same_text(method, "PUT") && starts_with(path, "/v1/messages/") {
        MAX_BODY_BYTES
    } else {
        MAX_SMALL_BODY_BYTES
    }
}

/// Whether a flag of the environment is set.
pub fn is_set(flag: Option<&str>) -> (yes: bool)
    ensures
        yes == (text_at(flag) == Some("1"@)),
{
    match flag {
        Some(flag) => same_text(flag, "1"),
        None => false,
    }
}

/// The code that an answer repeats. Development convenience, refused whenever
/// mail actually works, so the flag left set by accident cannot hand out codes on
/// a real deployment.
pub fn echoed_code(flag: Option<&str>, mail_configured: bool, code: &str) -> (echo: Option<String>)
    ensures
        match echo {
            Some(text) => text_at(flag) == Some("1"@) && !mail_configured && text@ == code@,
            None => text_at(flag) != Some("1"@) || mail_configured,
        },
{
    if is_set(flag) && !mail_configured {
        Some(code.to_string())
    } else {
        None
    }
}

/// An address that was forwarded counts where a proxy is trusted to say so, and
/// then the first one, without the space around it; otherwise it is where the
/// connection came from.
pub proof fn a_forwarded_address_counts_where_it_is_trusted(
    first: Seq<char>,
    rest: Seq<char>,
    peer: Seq<char>,
    forwarded: Option<Seq<char>>,
    trusted: Option<Seq<char>>,
)
    requires
        !first.contains(','),
        trimmed(first).len() > 0,
    ensures
        address_of(Some("1"@), Some(first), Some(peer)) == trimmed(first),
        address_of(Some("1"@), Some(first.push(',') + rest), Some(peer)) == trimmed(first),
        trusted != Some("1"@) ==> address_of(trusted, forwarded, Some(peer)) == peer,
        address_of(trusted, None, Some(peer)) == peer,
        address_of(trusted, None, None) == "unknown"@,
{
    crate::text::the_last_piece_stands_behind_the_last_cut(Seq::empty(), ',', first);
    crate::text::lemma_first_piece(first, ',', rest);
}

/// A message may be large; everything else that is sent must be small.
pub proof fn only_a_message_may_be_large(path: Seq<char>, method: Seq<char>)
    ensures
        body_cap("PUT"@, "/v1/messages/"@ + path) == 15_728_640,
        method != "PUT"@ ==> body_cap(method, path) == 262_144,
        !has_prefix(path, "/v1/messages/"@) ==> body_cap(method, path) == 262_144,
{
    let whole = "/v1/messages/"@ + path;
    assert(whole.take("/v1/messages/"@.len() as int) =~= "/v1/messages/"@);
}

} // verus!
