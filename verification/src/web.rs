//! The HTTP side of the tunnel: which errors a public request gets, the
//! plain-text error replies, where a tunnelled request is forwarded, and
//! which WebSocket messages carry frames.
use vstd::prelude::*;
use vstd::string::*;

use crate::config::opt_view;
use crate::headers::{
    header_value_accepts, set_host, strip_hop_by_hop, stripped, valid_header_value, views, with_host,
    Header,
};
use crate::text::{join, owned};

verus! {

/// Why a public request could not be served.
#[derive(Debug)]
pub enum WebError {
    /// No client holds the tunnel.
    NoTunnel,
    /// The client's tunnel has closed.
    TunnelClosed,
    /// Anything else, with its description.
    Internal(String),
}

/// The status every refused public request gets: 502 Bad Gateway.
pub const BAD_GATEWAY: u16 = 502;

impl WebError {
    /// The body the public client is shown; internal details stay private.
    pub open spec fn spec_public_message(&self) -> Seq<char> {
        match self {
            WebError::NoTunnel => "no houdini client connected\n"@,
            WebError::TunnelClosed => "tunnel closed\n"@,
            WebError::Internal(_) => "tunnel error\n"@,
        }
    }

    /// The error's description, for logs.
    pub open spec fn spec_describe(&self) -> Seq<char> {
        match self {
            WebError::NoTunnel => "no houdini client connected"@,
            WebError::TunnelClosed => "tunnel transport closed"@,
            WebError::Internal(d) => "internal error: "@ + d@,
        }
    }

    /// The status code of the reply.
    pub fn status(&self) -> (r: u16)
        ensures
            r == BAD_GATEWAY,
    {
        BAD_GATEWAY
    }

    /// The body the public client is shown.
    pub fn public_message(&self) -> (r: String)
        ensures
            r@ == self.spec_public_message(),
    {
        match self {
            WebError::NoTunnel => owned("no houdini client connected\n"),
            WebError::TunnelClosed => owned("tunnel closed\n"),
            WebError::Internal(_) => owned("tunnel error\n"),
        }
    }

    /// The error's description, for logs.
    pub fn describe(&self) -> (r: String)
        ensures
            r@ == self.spec_describe(),
    {
        match self {
            WebError::NoTunnel => owned("no houdini client connected"),
            WebError::TunnelClosed => owned("tunnel transport closed"),
            WebError::Internal(d) => join("internal error: ", d.as_str()),
        }
    }
}

/// Whether a public request may use the tunnel: it needs a registered
/// client whose tunnel is still alive.
pub fn select_tunnel(registered: bool, alive: bool) -> (r: Result<(), WebError>)
    ensures
        !registered ==> r matches Err(WebError::NoTunnel),
        registered && !alive ==> r matches Err(WebError::TunnelClosed),
        registered && alive ==> r is Ok,
{
    if !registered {
        Err(WebError::NoTunnel)
    } else if !alive {
        Err(WebError::TunnelClosed)
    } else {
        Ok(())
    }
}

/// A plain-text reply.
pub struct PlainResponse {
    pub status: u16,
    pub content_type: String,
    pub body: String,
}

/// The reply the client sends a tunnelled request it could not forward:
/// the message and a newline, as UTF-8 plain text.
pub fn error_response(status: u16, msg: &str) -> (r: PlainResponse)
    ensures
        r.status == status,
        r.content_type@ == "text/plain; charset=utf-8"@,
        r.body@ == msg@ + "\n"@,
{
    PlainResponse {
        status,
        content_type: owned("text/plain; charset=utf-8"),
        body: join(msg, "\n"),
    }
}

/// `s` without trailing slashes.
pub open spec fn trim_trailing_slashes(s: Seq<char>) -> Seq<char>
    decreases s.len(),
{
    if s.len() > 0 && s.last() == '/' {
        trim_trailing_slashes(s.drop_last())
    } else {
        s
    }
}

/// The URI a tunnelled request is forwarded to: the local target without
/// its trailing slashes, then the request's path and query (`/` when it
/// has none).
pub open spec fn upstream_uri_text(target: Seq<char>, path_and_query: Option<Seq<char>>) -> Seq<
    char,
> {
    trim_trailing_slashes(target) + match path_and_query {
        Some(p) => p,
        None => "/"@,
    }
}

/// The URI text a tunnelled request is forwarded to.
pub fn upstream_uri(target: &str, path_and_query: Option<&str>) -> (r: String)
    ensures
        r@ == upstream_uri_text(
            target@,
            match path_and_query {
                Some(p) => Some(p@),
                None => None,
            },
        ),
{
    let mut end = target.unicode_len();
    assert(target@.take(end as int) =~= target@);
    while end > 0 && target.get_char(end - 1) == '/'
        invariant
            end <= target@.len(),
            trim_trailing_slashes(target@) == trim_trailing_slashes(target@.take(end as int)),
        decreases end,
    {
        assert(target@.take(end as int).drop_last() =~= target@.take(end - 1));
        end = end - 1;
    }
    let base = target.substring_char(0, end);
    assert(base@ =~= target@.take(end as int));
    match path_and_query {
        Some(p) => join(base, p),
        None => join(base, "/"),
    }
}

/// A WebSocket message, as far as the tunnel cares.
pub enum WsMessage {
    Binary(Vec<u8>),
    Close,
    /// Text, ping, pong or raw frames.
    Other,
}

/// What a received WebSocket message means to the tunnel.
pub enum WsInbound {
    /// A binary payload: one frame, `Hello` or `HelloAck`.
    Payload(Vec<u8>),
    /// The peer closed the connection.
    End,
    /// Not for the tunnel; wait for the next message.
    Skip,
}

/// Binary messages carry the tunnel's payloads, `Close` ends the
/// connection, every other message is skipped.
pub fn classify_ws(msg: WsMessage) -> (r: WsInbound)
    ensures
        msg matches WsMessage::Binary(b) ==> (r matches WsInbound::Payload(p) && p@ == b@),
        msg matches WsMessage::Close ==> r matches WsInbound::End,
        msg matches WsMessage::Other ==> r matches WsInbound::Skip,
{
    match msg {
        WsMessage::Binary(b) => WsInbound::Payload(b),
        WsMessage::Close => WsInbound::End,
        WsMessage::Other => WsInbound::Skip,
    }
}


/// What `http::Uri` makes of a text: `None` when it is not a URI, else the
/// URI's authority, if it has one.
pub uninterp spec fn uri_authority(text: Seq<char>) -> Option<Option<Seq<char>>>;

/// Parses `text` as an `http::Uri` (`str::parse`) and hands back its
/// authority's text (`Uri::authority`, `Authority::as_str`). The contract
/// ties the result to the text only through the name `uri_authority`.
#[verifier::external_body]
fn parse_uri_authority(text: &str) -> (r: Option<Option<String>>)
    ensures
        match r {
            None => uri_authority(text@) is None,
            Some(None) => uri_authority(text@) == Some(None::<Seq<char>>),
            Some(Some(a)) => uri_authority(text@) == Some(Some(a@)),
        },
{
    text.parse::<http::Uri>().ok().map(|u| u.authority().map(|a| a.as_str().to_owned()))
}

/// The `Host` a forwarded request gets: the URI's authority when it is a
/// valid header value, else none.
pub open spec fn host_of(authority: Option<Seq<char>>) -> Option<Seq<char>> {
    match authority {
        Some(a) => if valid_header_value(vstd::utf8::encode_utf8(a)) {
            Some(a)
        } else {
            None
        },
        None => None,
    }
}

/// Given the upstream URI text and what parsing it gave, the URI and the
/// `Host` to forward with, or `None` when the text is not a URI.
pub fn target_from_parse(text: String, parsed: Option<Option<String>>) -> (r: Option<
    (String, Option<String>),
>)
    ensures
        parsed is None ==> r is None,
        parsed matches Some(auth) ==> (r matches Some((u, h)) && u@ == text@ && opt_view(h)
            == host_of(opt_view(auth))),
{
    match parsed {
        None => None,
        Some(None) => Some((text, None)),
        Some(Some(a)) => {
            if header_value_accepts(a.as_str().as_bytes()) {
                Some((text, Some(a)))
            } else {
                Some((text, None))
            }
        },
    }
}

/// The view of an optional text argument.
pub open spec fn opt_str_view(s: Option<&str>) -> Option<Seq<char>> {
    match s {
        Some(p) => Some(p@),
        None => None,
    }
}

/// The URI a tunnelled request is forwarded to and the `Host` it carries:
/// `None` when the upstream text is not a URI.
pub fn rewrite_target(target: &str, path_and_query: Option<&str>) -> (r: Option<
    (String, Option<String>),
>)
    ensures
        r is None <==> uri_authority(upstream_uri_text(target@, opt_str_view(path_and_query)))
            is None,
        r matches Some((u, h)) ==> u@ == upstream_uri_text(target@, opt_str_view(path_and_query))
            && opt_view(h) == host_of(
            uri_authority(upstream_uri_text(target@, opt_str_view(path_and_query)))->0,
        ),
{
    let text = upstream_uri(target, path_and_query);
    assert(text@ == upstream_uri_text(target@, opt_str_view(path_and_query)));
    let parsed = parse_uri_authority(text.as_str());
    target_from_parse(text, parsed)
}

/// A tunnelled request after rewriting: its headers, and the URI it goes
/// to (`None` when the upstream text is not a URI, which fails the
/// request).
pub struct Rewritten {
    pub headers: Vec<Header>,
    pub uri: Option<String>,
}

/// Rewrites a tunnelled request for the local target: hop-by-hop headers
/// and those `Connection` lists are dropped, the URI becomes the target
/// followed by the request's path and query, and `Host` becomes the new
/// URI's authority when that is a valid header value. When the new text
/// is not a URI the headers are still stripped and no URI is given.
pub fn rewrite_request(headers: &Vec<Header>, target: &str, path_and_query: Option<&str>) -> (r:
    Rewritten)
    ensures
        ({
            let text = upstream_uri_text(target@, opt_str_view(path_and_query));
            &&& uri_authority(text) is None ==> r.uri is None && views(r.headers@) == stripped(
                views(headers@),
            )
            &&& uri_authority(text) matches Some(auth) ==> (r.uri matches Some(u) && u@ == text
                && views(r.headers@) == with_host(stripped(views(headers@)), host_of(auth)))
        }),
{
    let kept = strip_hop_by_hop(headers);
    match rewrite_target(target, path_and_query) {
        None => Rewritten { headers: kept, uri: None },
        Some((uri, None)) => Rewritten { headers: kept, uri: Some(uri) },
        Some((uri, Some(host))) => Rewritten { headers: set_host(kept, host.as_str()), uri: Some(uri) },
    }
}

/// Trimming keeps a prefix of the target and drops only slashes: what is
/// left does not end in `/`, and the target is what is left followed by
/// nothing but slashes. So a target without a trailing slash is kept whole.
pub proof fn lemma_trailing_slashes(s: Seq<char>)
    ensures
        ({
            let t = trim_trailing_slashes(s);
            &&& t.len() <= s.len()
            &&& t == s.take(t.len() as int)
            &&& forall|i: int| t.len() <= i < s.len() ==> #[trigger] s[i] == '/'
            &&& t.len() == 0 || t.last() != '/'
        }),
        (s.len() == 0 || s.last() != '/') ==> trim_trailing_slashes(s) == s,
    decreases s.len(),
{
    if s.len() > 0 && s.last() == '/' {
        lemma_trailing_slashes(s.drop_last());
        let t = trim_trailing_slashes(s);
        assert(s.drop_last().take(t.len() as int) =~= s.take(t.len() as int));
        assert forall|i: int| t.len() <= i < s.len() implies #[trigger] s[i] == '/' by {
            if i < s.len() - 1 {
                assert(s.drop_last()[i] == s[i]);
            }
        }
    } else {
        assert(s.take(s.len() as int) =~= s);
    }
}

/// The upstream URI is the target with its trailing slashes dropped,
/// followed by the request's path and query, or by `/` when it has none.
pub proof fn lemma_upstream_uri(target: Seq<char>, path_and_query: Option<Seq<char>>)
    ensures
        (target.len() == 0 || target.last() != '/') ==> upstream_uri_text(target, path_and_query)
            == target + match path_and_query {
            Some(p) => p,
            None => "/"@,
        },
        upstream_uri_text(target, path_and_query).len() >= trim_trailing_slashes(target).len(),
{
    lemma_trailing_slashes(target);
}

/// When the new URI has an authority that is a valid header value, the
/// rewritten request carries exactly one `host` header and it holds that
/// authority; every other header is kept in order. Without an authority,
/// or with one that is not a valid header value, the headers are left as
/// they are.
pub proof fn lemma_rewritten_host(headers: Seq<(Seq<char>, Seq<u8>)>, authority: Option<Seq<char>>)
    ensures
        authority is Some && valid_header_value(vstd::utf8::encode_utf8(authority->0)) ==> {
            let out = with_host(headers, host_of(authority));
            &&& out.last() == ("host"@, vstd::utf8::encode_utf8(authority->0))
            &&& forall|i: int| 0 <= i < out.len() - 1 ==> #[trigger] out[i].0 != "host"@
            &&& forall|i: int|
                0 <= i < headers.len() && headers[i].0 != "host"@ ==> out.contains(
                    #[trigger] headers[i],
                )
        },
        authority is None || !valid_header_value(vstd::utf8::encode_utf8(authority->0)) ==> with_host(
            headers,
            host_of(authority),
        ) == headers,
{
    if authority is Some && valid_header_value(vstd::utf8::encode_utf8(authority->0)) {
        let a = authority->0;
        let pred = |x: (Seq<char>, Seq<u8>)| x.0 != "host"@;
        let kept = headers.filter(pred);
        let out = kept.push(("host"@, vstd::utf8::encode_utf8(a)));
        assert(with_host(headers, host_of(authority)) == out);
        assert forall|i: int| 0 <= i < out.len() - 1 implies #[trigger] out[i].0 != "host"@ by {
            assert(out[i] == kept[i]);
            headers.lemma_filter_pred(pred, i);
        }
        assert forall|i: int| 0 <= i < headers.len() && headers[i].0 != "host"@ implies out.contains(
            #[trigger] headers[i],
        ) by {
            headers.lemma_filter_contains(pred, i);
            let j = choose|j: int| 0 <= j < kept.len() && kept[j] == headers[i];
            assert(out[j] == headers[i]);
        }
    }
}

/// What a public client is shown never depends on the internal details of
/// an error, and every such body ends with a newline; the log description
/// of an internal error carries its details.
pub proof fn lemma_public_messages_hide_details(e: WebError, d1: String, d2: String)
    ensures
        WebError::Internal(d1).spec_public_message() == WebError::Internal(d2).spec_public_message(),
        e.spec_public_message().len() > 0 && e.spec_public_message().last() == '\n',
        WebError::Internal(d1).spec_describe().skip(16) == d1@,
{
    reveal_strlit("no houdini client connected\n");
    reveal_strlit("tunnel closed\n");
    reveal_strlit("tunnel error\n");
    reveal_strlit("internal error: ");
    assert(WebError::Internal(d1).spec_describe().skip(16) =~= d1@);
}

} // verus!
