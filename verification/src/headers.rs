//! Header hygiene for requests that cross the tunnel: hop-by-hop headers
//! (RFC 7230 section 6.1), and the headers that `Connection` names, are
//! dropped; the server adds `x-forwarded-for`.
use vstd::prelude::*;
use vstd::string::*;

use crate::text::text_eq;

verus! {

/// One header field: its name, lower-cased as `http::HeaderName` keeps
/// it, and its value's bytes.
pub struct Header {
    pub name: String,
    pub value: Vec<u8>,
}

impl View for Header {
    type V = (Seq<char>, Seq<u8>);

    open spec fn view(&self) -> (Seq<char>, Seq<u8>) {
        (self.name@, self.value@)
    }
}

/// The views of a list of headers.
pub open spec fn views(headers: Seq<Header>) -> Seq<(Seq<char>, Seq<u8>)> {
    headers.map_values(|h: Header| h@)
}

/// The headers that only concern one hop.
pub open spec fn is_hop_by_hop(name: Seq<char>) -> bool {
    ||| name == "connection"@
    ||| name == "keep-alive"@
    ||| name == "proxy-authenticate"@
    ||| name == "proxy-authorization"@
    ||| name == "te"@
    ||| name == "trailer"@
    ||| name == "transfer-encoding"@
    ||| name == "upgrade"@
}

/// What `http::HeaderName::from_bytes` makes of a byte: upper-case letters
/// become lower-case, the other token characters stay, anything else is 0
/// (refused).
pub open spec fn header_name_byte(b: u8) -> u8 {
    if 65 <= b <= 90 {
        (b + 32) as u8
    } else if (97 <= b <= 122) || (48 <= b <= 57) || b == 33 || (35 <= b <= 39) || b == 42 || b
        == 43 || b == 45 || b == 46 || (94 <= b <= 96) || b == 124 || b == 126 {
        b
    } else {
        0
    }
}

/// The name `http::HeaderName::from_bytes` makes of `src`: refused when
/// empty, longer than 65535 bytes or holding a non-token byte, else the
/// lower-cased bytes.
pub open spec fn header_name_of(src: Seq<u8>) -> Option<Seq<char>> {
    if src.len() == 0 || src.len() > 65535 {
        None
    } else if exists|i: int| 0 <= i < src.len() && header_name_byte(#[trigger] src[i]) == 0 {
        None
    } else {
        Some(src.map_values(|b: u8| header_name_byte(b) as char))
    }
}

/// A header value byte that `http::HeaderValue` accepts.
pub open spec fn is_header_value_byte(b: u8) -> bool {
    (b >= 32 && b != 127) || b == 9
}

/// Bytes that `http::HeaderValue` accepts as a value.
pub open spec fn valid_header_value(v: Seq<u8>) -> bool {
    forall|i: int| 0 <= i < v.len() ==> is_header_value_byte(#[trigger] v[i])
}

/// A byte of a header value that `HeaderValue::to_str` accepts: visible
/// ASCII or a tab.
pub open spec fn is_visible_ascii(b: u8) -> bool {
    (32 <= b < 127) || b == 9
}

/// White space inside visible ASCII text: space and tab.
pub open spec fn is_ows(b: u8) -> bool {
    b == 32 || b == 9
}

/// `http::HeaderName::from_bytes`, handing back the name's text
/// (`HeaderName::as_str`). The contract claims what the crate's source does:
/// empty input, input longer than 65535 bytes, or any byte outside the
/// token characters is refused; otherwise the name is the input with
/// upper-case letters lowered.
#[verifier::external_body]
fn header_name_from_bytes(src: &[u8]) -> (r: Option<String>)
    ensures
        r matches Some(n) ==> header_name_of(src@) == Some(n@),
        r is None ==> header_name_of(src@) is None,
{
    http::HeaderName::from_bytes(src).ok().map(|n| n.as_str().to_owned())
}

/// Whether `http::HeaderValue::from_bytes` accepts `src`; the crate's
/// source accepts exactly the bytes that are tabs, or at least 32 and not
/// 127.
#[verifier::external_body]
pub(crate) fn header_value_accepts(src: &[u8]) -> (r: bool)
    ensures
        r == valid_header_value(src@),
{
    http::HeaderValue::from_bytes(src).is_ok()
}

/// Whether a header name is hop-by-hop.
pub fn hop_by_hop(name: &str) -> (r: bool)
    ensures
        r == is_hop_by_hop(name@),
{
    text_eq(name, "connection") || text_eq(name, "keep-alive") || text_eq(
        name,
        "proxy-authenticate",
    ) || text_eq(name, "proxy-authorization") || text_eq(name, "te") || text_eq(name, "trailer")
        || text_eq(name, "transfer-encoding") || text_eq(name, "upgrade")
}

/// The value of the first `connection` header, as `HeaderMap::get` finds it.
pub open spec fn connection_value(headers: Seq<(Seq<char>, Seq<u8>)>) -> Option<Seq<u8>>
    decreases headers.len(),
{
    if headers.len() == 0 {
        None
    } else if headers[0].0 == "connection"@ {
        Some(headers[0].1)
    } else {
        connection_value(headers.drop_first())
    }
}

/// The pieces of `s` between commas, as `str::split(',')` yields them.
pub open spec fn split_commas(s: Seq<u8>) -> Seq<Seq<u8>>
    decreases s.len(),
{
    if s.len() == 0 {
        seq![Seq::empty()]
    } else {
        let init = split_commas(s.drop_last());
        if s.last() == 44 {
            init.push(Seq::empty())
        } else if init.len() == 0 {
            seq![seq![s.last()]]
        } else {
            init.update(init.len() - 1, init.last().push(s.last()))
        }
    }
}

/// `s` without leading white space.
pub open spec fn trim_start(s: Seq<u8>) -> Seq<u8>
    decreases s.len(),
{
    if s.len() > 0 && is_ows(s[0]) {
        trim_start(s.drop_first())
    } else {
        s
    }
}

/// `s` without trailing white space.
pub open spec fn trim_end(s: Seq<u8>) -> Seq<u8>
    decreases s.len(),
{
    if s.len() > 0 && is_ows(s.last()) {
        trim_end(s.drop_last())
    } else {
        s
    }
}

/// `s` without white space at either end.
pub open spec fn trim(s: Seq<u8>) -> Seq<u8> {
    trim_end(trim_start(s))
}

/// The header names that pieces of a `Connection` value parse to, in order.
pub open spec fn named_options(pieces: Seq<Seq<u8>>) -> Seq<Seq<char>>
    decreases pieces.len(),
{
    if pieces.len() == 0 {
        Seq::empty()
    } else {
        let init = named_options(pieces.drop_last());
        match header_name_of(trim(pieces.last())) {
            Some(n) => init.push(n),
            None => init,
        }
    }
}

/// The header names that the request's `Connection` header lists: none
/// unless its first value is visible ASCII.
pub open spec fn connection_options(headers: Seq<(Seq<char>, Seq<u8>)>) -> Seq<Seq<char>> {
    match connection_value(headers) {
        Some(v) => if forall|i: int| 0 <= i < v.len() ==> is_visible_ascii(#[trigger] v[i]) {
            named_options(split_commas(v))
        } else {
            Seq::empty()
        },
        None => Seq::empty(),
    }
}

/// Whether a header survives forwarding.
pub open spec fn kept(name: Seq<char>, options: Seq<Seq<char>>) -> bool {
    !is_hop_by_hop(name) && !options.contains(name)
}

/// The headers that survive forwarding, in their order.
pub open spec fn stripped(headers: Seq<(Seq<char>, Seq<u8>)>) -> Seq<(Seq<char>, Seq<u8>)> {
    let options = connection_options(headers);
    headers.filter(|h: (Seq<char>, Seq<u8>)| kept(h.0, options))
}

/// No forwarded header is hop-by-hop or named by `Connection`, every
/// forwarded header was in the request, and any header that is neither
/// survives.
pub proof fn lemma_stripped_headers(headers: Seq<(Seq<char>, Seq<u8>)>)
    ensures
        forall|i: int|
            0 <= i < stripped(headers).len() ==> !is_hop_by_hop(#[trigger] stripped(headers)[i].0)
                && !connection_options(headers).contains(stripped(headers)[i].0)
                && headers.contains(stripped(headers)[i]),
        forall|i: int|
            0 <= i < headers.len() && kept(headers[i].0, connection_options(headers)) ==> stripped(
                headers,
            ).contains(#[trigger] headers[i]),
{
    let options = connection_options(headers);
    let pred = |h: (Seq<char>, Seq<u8>)| kept(h.0, options);
    assert(stripped(headers) == headers.filter(pred));
    assert forall|i: int| 0 <= i < stripped(headers).len() implies !is_hop_by_hop(
        #[trigger] stripped(headers)[i].0,
    ) && !options.contains(stripped(headers)[i].0) && headers.contains(stripped(headers)[i]) by {
        headers.lemma_filter_pred(pred, i);
        assert(headers.filter(pred).contains(headers.filter(pred)[i]));
        headers.lemma_filter_contains_rev(pred, headers.filter(pred)[i]);
    }
    assert forall|i: int| 0 <= i < headers.len() && kept(headers[i].0, options) implies stripped(
        headers,
    ).contains(#[trigger] headers[i]) by {
        headers.lemma_filter_contains(pred, i);
    }
}

/// The first value of the `connection` header.
fn find_connection(headers: &Vec<Header>) -> (r: Option<&Vec<u8>>)
    ensures
        match connection_value(views(headers@)) {
            Some(v) => r matches Some(x) && x@ == v,
            None => r is None,
        },
{
    let mut i: usize = 0;
    assert(views(headers@).skip(0) =~= views(headers@));
    while i < headers.len()
        invariant
            i <= headers.len(),
            connection_value(views(headers@)) == connection_value(views(headers@).skip(i as int)),
        decreases headers.len() - i,
    {
        let ghost rest = views(headers@).skip(i as int);
        if text_eq(headers[i].name.as_str(), "connection") {
            return Some(&headers[i].value);
        }
        assert(rest.drop_first() =~= views(headers@).skip(i + 1));
        i = i + 1;
    }
    assert(views(headers@).skip(i as int) =~= Seq::<(Seq<char>, Seq<u8>)>::empty());
    None
}

/// Whether every byte is visible ASCII.
fn visible_ascii(v: &Vec<u8>) -> (r: bool)
    ensures
        r == (forall|i: int| 0 <= i < v@.len() ==> is_visible_ascii(#[trigger] v@[i])),
{
    let mut i: usize = 0;
    while i < v.len()
        invariant
            i <= v.len(),
            forall|j: int| 0 <= j < i ==> is_visible_ascii(#[trigger] v@[j]),
        decreases v.len() - i,
    {
        let b = v[i];
        if !((32 <= b && b < 127) || b == 9) {
            return false;
        }
        i = i + 1;
    }
    true
}

/// The pieces of `v` between commas.
fn split_on_commas(v: &Vec<u8>) -> (r: Vec<Vec<u8>>)
    ensures
        r@.map_values(|x: Vec<u8>| x@) == split_commas(v@),
{
    let mut done: Vec<Vec<u8>> = Vec::new();
    let mut cur: Vec<u8> = Vec::new();
    let mut i: usize = 0;
    assert(v@.take(0) =~= Seq::<u8>::empty());
    assert(done@.map_values(|x: Vec<u8>| x@).push(cur@) =~= seq![Seq::<u8>::empty()]);
    while i < v.len()
        invariant
            i <= v.len(),
            split_commas(v@.take(i as int)) == done@.map_values(|x: Vec<u8>| x@).push(cur@),
        decreases v.len() - i,
    {
        let b = v[i];
        let ghost before = done@.map_values(|x: Vec<u8>| x@).push(cur@);
        assert(v@.take(i + 1).drop_last() =~= v@.take(i as int));
        if b == 44 {
            done.push(cur);
            cur = Vec::new();
            assert(done@.map_values(|x: Vec<u8>| x@).push(cur@) =~= before.push(Seq::empty()));
        } else {
            cur.push(b);
            assert(done@.map_values(|x: Vec<u8>| x@).push(cur@) =~= before.update(
                before.len() - 1,
                before.last().push(b),
            ));
        }
        i = i + 1;
    }
    assert(v@.take(v.len() as int) =~= v@);
    done.push(cur);
    done
}

/// The bytes of `s` between `lo` and `hi`.
fn copy_range(s: &Vec<u8>, lo: usize, hi: usize) -> (r: Vec<u8>)
    requires
        lo <= hi <= s.len(),
    ensures
        r@ == s@.subrange(lo as int, hi as int),
{
    let mut r: Vec<u8> = Vec::new();
    let mut i = lo;
    while i < hi
        invariant
            lo <= i <= hi,
            hi <= s.len(),
            r@ == s@.subrange(lo as int, i as int),
        decreases hi - i,
    {
        r.push(s[i]);
        i = i + 1;
    }
    r
}

/// `s` without white space at either end.
fn trim_bytes(s: &Vec<u8>) -> (r: Vec<u8>)
    ensures
        r@ == trim(s@),
{
    let mut lo: usize = 0;
    assert(s@.skip(0) =~= s@);
    while lo < s.len() && (s[lo] == 32 || s[lo] == 9)
        invariant
            lo <= s.len(),
            trim_start(s@) == trim_start(s@.skip(lo as int)),
        decreases s.len() - lo,
    {
        assert(s@.skip(lo as int).drop_first() =~= s@.skip(lo + 1));
        lo = lo + 1;
    }
    let ghost t = s@.skip(lo as int);
    assert(trim_start(s@) == t);
    let mut hi: usize = s.len();
    assert(t.take((hi - lo) as int) =~= t);
    while hi > lo && (s[hi - 1] == 32 || s[hi - 1] == 9)
        invariant
            lo <= hi <= s.len(),
            t == s@.skip(lo as int),
            trim_end(t) == trim_end(t.take((hi - lo) as int)),
        decreases hi,
    {
        assert(t.take((hi - lo) as int).drop_last() =~= t.take((hi - 1 - lo) as int));
        hi = hi - 1;
    }
    let r = copy_range(s, lo, hi);
    assert(r@ =~= t.take((hi - lo) as int));
    r
}

/// The header names a `Connection` value lists.
fn options_in(v: &Vec<u8>) -> (r: Vec<String>)
    ensures
        r@.map_values(|n: String| n@) == named_options(split_commas(v@)),
{
    let pieces = split_on_commas(v);
    let ghost ps = pieces@.map_values(|x: Vec<u8>| x@);
    let mut out: Vec<String> = Vec::new();
    let mut i: usize = 0;
    assert(ps.take(0) =~= Seq::<Seq<u8>>::empty());
    assert(out@.map_values(|n: String| n@) =~= Seq::<Seq<char>>::empty());
    while i < pieces.len()
        invariant
            i <= pieces.len(),
            ps == pieces@.map_values(|x: Vec<u8>| x@),
            out@.map_values(|n: String| n@) == named_options(ps.take(i as int)),
        decreases pieces.len() - i,
    {
        let piece = trim_bytes(&pieces[i]);
        assert(ps.take(i + 1).drop_last() =~= ps.take(i as int));
        assert(ps.take(i + 1).last() == pieces@[i as int]@);
        let ghost before = out@.map_values(|n: String| n@);
        match header_name_from_bytes(piece.as_slice()) {
            Some(name) => {
                out.push(name);
                assert(out@.map_values(|n: String| n@) =~= before.push(
                    header_name_of(trim(ps.take(i + 1).last())).unwrap(),
                ));
            },
            None => {},
        }
        i = i + 1;
    }
    assert(ps.take(pieces.len() as int) =~= ps);
    out
}

/// The header names that the `Connection` header of `headers` lists.
pub fn connection_options_of(headers: &Vec<Header>) -> (r: Vec<String>)
    ensures
        r@.map_values(|n: String| n@) == connection_options(views(headers@)),
{
    match find_connection(headers) {
        Some(v) => {
            if visible_ascii(v) {
                options_in(v)
            } else {
                let r: Vec<String> = Vec::new();
                assert(r@.map_values(|n: String| n@) =~= Seq::<Seq<char>>::empty());
                r
            }
        },
        None => {
            let r: Vec<String> = Vec::new();
            assert(r@.map_values(|n: String| n@) =~= Seq::<Seq<char>>::empty());
            r
        },
    }
}

/// Whether `name` is among `options`.
fn listed(options: &Vec<String>, name: &str) -> (r: bool)
    ensures
        r == options@.map_values(|n: String| n@).contains(name@),
{
    let ghost ov = options@.map_values(|n: String| n@);
    let mut i: usize = 0;
    while i < options.len()
        invariant
            i <= options.len(),
            ov == options@.map_values(|n: String| n@),
            forall|j: int| 0 <= j < i ==> ov[j] != name@,
        decreases options.len() - i,
    {
        if text_eq(options[i].as_str(), name) {
            assert(ov[i as int] == name@);
            return true;
        }
        i = i + 1;
    }
    false
}

/// A copy of a byte vector.
fn copy_bytes(v: &Vec<u8>) -> (r: Vec<u8>)
    ensures
        r@ == v@,
{
    let r = copy_range(v, 0, v.len());
    assert(r@ =~= v@);
    r
}

/// The headers without hop-by-hop ones and without those the
/// `Connection` header lists, in their order.
pub fn strip_hop_by_hop(headers: &Vec<Header>) -> (r: Vec<Header>)
    ensures
        views(r@) == stripped(views(headers@)),
{
    let options = connection_options_of(headers);
    let ghost opts = connection_options(views(headers@));
    let ghost pred = |h: (Seq<char>, Seq<u8>)| kept(h.0, opts);
    let ghost hv = views(headers@);
    let mut out: Vec<Header> = Vec::new();
    let mut i: usize = 0;
    assert(hv.take(0) =~= Seq::<(Seq<char>, Seq<u8>)>::empty());
    assert(views(out@) =~= Seq::<(Seq<char>, Seq<u8>)>::empty());
    while i < headers.len()
        invariant
            i <= headers.len(),
            hv == views(headers@),
            opts == options@.map_values(|n: String| n@),
            pred == (|h: (Seq<char>, Seq<u8>)| kept(h.0, opts)),
            views(out@) == hv.take(i as int).filter(pred),
        decreases headers.len() - i,
    {
        let h = &headers[i];
        assert(hv.take(i + 1).drop_last() =~= hv.take(i as int));
        assert(hv.take(i + 1).last() == h@);
        reveal_with_fuel(Seq::filter, 1);
        let ghost before = views(out@);
        let keep = !hop_by_hop(h.name.as_str()) && !listed(&options, h.name.as_str());
        assert(keep == pred(h@));
        assert(hv.take(i + 1).filter(pred) == if pred(h@) {
            hv.take(i as int).filter(pred).push(h@)
        } else {
            hv.take(i as int).filter(pred)
        });
        if keep {
            out.push(Header { name: h.name.clone(), value: copy_bytes(&h.value) });
            assert(views(out@) =~= before.push(h@));
        } else {
            assert(views(out@) =~= before);
        }
        i = i + 1;
    }
    assert(hv.take(headers.len() as int) =~= hv);
    out
}

/// The headers a public request is forwarded with: stripped of hop-by-hop
/// headers, with `x-forwarded-for: <peer>` appended when the peer's
/// address is a valid header value.
pub fn sanitize_forwarded(headers: &Vec<Header>, peer_ip: &str) -> (r: Vec<Header>)
    ensures
        valid_header_value(peer_ip.spec_bytes()) ==> views(r@) == stripped(views(headers@)).push(
            ("x-forwarded-for"@, peer_ip.spec_bytes()),
        ),
        !valid_header_value(peer_ip.spec_bytes()) ==> views(r@) == stripped(views(headers@)),
{
    let mut out = strip_hop_by_hop(headers);
    let ip = peer_ip.as_bytes();
    if header_value_accepts(ip) {
        let ghost before = views(out@);
        let mut value: Vec<u8> = Vec::new();
        let mut i: usize = 0;
        while i < ip.len()
            invariant
                i <= ip.len(),
                value@ == ip@.take(i as int),
            decreases ip.len() - i,
        {
            value.push(ip[i]);
            assert(ip@.take(i + 1) =~= ip@.take(i as int).push(ip@[i as int]));
            i = i + 1;
        }
        assert(ip@.take(ip.len() as int) =~= ip@);
        out.push(Header { name: crate::text::owned("x-forwarded-for"), value });
        assert(views(out@) =~= before.push(("x-forwarded-for"@, peer_ip.spec_bytes())));
    }
    out
}

/// The headers with every `host` header dropped and one holding `host`
/// added at the end; unchanged when there is no host. As a header map this
/// is what `HeaderMap::insert` leaves (only the order relative to other
/// names differs, which a header map does not fix).
pub open spec fn with_host(headers: Seq<(Seq<char>, Seq<u8>)>, host: Option<Seq<char>>) -> Seq<
    (Seq<char>, Seq<u8>),
> {
    match host {
        None => headers,
        Some(h) => headers.filter(|x: (Seq<char>, Seq<u8>)| x.0 != "host"@).push(
            ("host"@, vstd::utf8::encode_utf8(h)),
        ),
    }
}

/// Replaces every `host` header by one holding `host`.
pub fn set_host(headers: Vec<Header>, host: &str) -> (r: Vec<Header>)
    ensures
        views(r@) == with_host(views(headers@), Some(host@)),
{
    let ghost hv = views(headers@);
    let ghost pred = |x: (Seq<char>, Seq<u8>)| x.0 != "host"@;
    let mut out: Vec<Header> = Vec::new();
    let mut i: usize = 0;
    assert(hv.take(0) =~= Seq::<(Seq<char>, Seq<u8>)>::empty());
    assert(views(out@) =~= Seq::<(Seq<char>, Seq<u8>)>::empty());
    while i < headers.len()
        invariant
            i <= headers.len(),
            hv == views(headers@),
            pred == (|x: (Seq<char>, Seq<u8>)| x.0 != "host"@),
            views(out@) == hv.take(i as int).filter(pred),
        decreases headers.len() - i,
    {
        let h = &headers[i];
        assert(hv.take(i + 1).drop_last() =~= hv.take(i as int));
        assert(hv.take(i + 1).last() == h@);
        reveal_with_fuel(Seq::filter, 1);
        let ghost before = views(out@);
        let keep = !text_eq(h.name.as_str(), "host");
        assert(keep == pred(h@));
        if keep {
            out.push(Header { name: h.name.clone(), value: copy_bytes(&h.value) });
            assert(views(out@) =~= before.push(h@));
        } else {
            assert(views(out@) =~= before);
        }
        i = i + 1;
    }
    assert(hv.take(headers.len() as int) =~= hv);
    let ghost before = views(out@);
    let b = host.as_bytes();
    let value = copy_range_slice(b);
    out.push(Header { name: crate::text::owned("host"), value });
    assert(views(out@) =~= before.push(("host"@, vstd::utf8::encode_utf8(host@))));
    out
}

/// A copy of a byte slice.
fn copy_range_slice(b: &[u8]) -> (r: Vec<u8>)
    ensures
        r@ == b@,
{
    let mut value: Vec<u8> = Vec::new();
    let mut i: usize = 0;
    while i < b.len()
        invariant
            i <= b.len(),
            value@ == b@.take(i as int),
        decreases b.len() - i,
    {
        value.push(b[i]);
        assert(b@.take(i + 1) =~= b@.take(i as int).push(b@[i as int]));
        i = i + 1;
    }
    assert(b@.take(b.len() as int) =~= b@);
    value
}

/// Exactly the eight hop-by-hop headers of RFC 7230 section 6.1
/// (`connection`, `keep-alive`, `proxy-authenticate`,
/// `proxy-authorization`, `te`, `trailer`, `transfer-encoding`,
/// `upgrade`) and those the request's `Connection` header lists are
/// dropped; every other header, end-to-end ones such as `authorization`
/// and `host` included, is forwarded.
pub proof fn lemma_only_hop_by_hop_dropped(headers: Seq<(Seq<char>, Seq<u8>)>)
    ensures
        forall|i: int|
            0 <= i < headers.len() && !connection_options(headers).contains(headers[i].0) && !(
            headers[i].0 == "connection"@ || headers[i].0 == "keep-alive"@ || headers[i].0
                == "proxy-authenticate"@ || headers[i].0 == "proxy-authorization"@ || headers[i].0
                == "te"@ || headers[i].0 == "trailer"@ || headers[i].0 == "transfer-encoding"@
                || headers[i].0 == "upgrade"@) ==> stripped(headers).contains(#[trigger] headers[i]),
        forall|i: int|
            0 <= i < stripped(headers).len() ==> !(#[trigger] stripped(headers)[i].0
                == "connection"@ || stripped(headers)[i].0 == "keep-alive"@ || stripped(headers)[i].0
                == "proxy-authenticate"@ || stripped(headers)[i].0 == "proxy-authorization"@
                || stripped(headers)[i].0 == "te"@ || stripped(headers)[i].0 == "trailer"@
                || stripped(headers)[i].0 == "transfer-encoding"@ || stripped(headers)[i].0
                == "upgrade"@),
{
    lemma_stripped_headers(headers);
}

/// Without a `connection` header nothing beyond the eight hop-by-hop
/// headers is dropped: the list of options is empty.
pub proof fn lemma_no_connection_no_options(headers: Seq<(Seq<char>, Seq<u8>)>)
    requires
        forall|i: int| 0 <= i < headers.len() ==> #[trigger] headers[i].0 != "connection"@,
    ensures
        connection_value(headers) is None,
        connection_options(headers) == Seq::<Seq<char>>::empty(),
    decreases headers.len(),
{
    if headers.len() > 0 {
        let rest = headers.drop_first();
        assert forall|i: int| 0 <= i < rest.len() implies #[trigger] rest[i].0 != "connection"@ by {
            assert(rest[i] == headers[i + 1]);
        }
        lemma_no_connection_no_options(rest);
        assert(headers[0].0 != "connection"@);
    }
}

/// `HeaderMap::get` finds the value of the first header named `connection`.
proof fn lemma_first_connection(headers: Seq<(Seq<char>, Seq<u8>)>, i: int)
    requires
        0 <= i < headers.len(),
        headers[i].0 == "connection"@,
        forall|j: int| 0 <= j < i ==> #[trigger] headers[j].0 != "connection"@,
    ensures
        connection_value(headers) == Some(headers[i].1),
    decreases i,
{
    if i > 0 {
        let rest = headers.drop_first();
        assert forall|j: int| 0 <= j < i - 1 implies #[trigger] rest[j].0 != "connection"@ by {
            assert(rest[j] == headers[j + 1]);
        }
        assert(headers[0].0 != "connection"@);
        lemma_first_connection(rest, i - 1);
    }
}

/// A text without commas is one piece.
proof fn lemma_split_without_commas(v: Seq<u8>)
    requires
        forall|k: int| 0 <= k < v.len() ==> #[trigger] v[k] != 44,
    ensures
        split_commas(v) == seq![v],
    decreases v.len(),
{
    if v.len() > 0 {
        let init = v.drop_last();
        assert forall|k: int| 0 <= k < init.len() implies #[trigger] init[k] != 44 by {
            assert(init[k] == v[k]);
        }
        lemma_split_without_commas(init);
        assert(init.push(v.last()) =~= v);
        assert(split_commas(v) == seq![init].update(0, init.push(v.last())));
        assert(seq![init].update(0, init.push(v.last())) =~= seq![v]);
    } else {
        assert(v =~= Seq::<u8>::empty());
    }
}

/// When the first `connection` header lists a single header name, already
/// in lower case, that header is dropped and nothing else is: the name is
/// the one option, and no forwarded header carries it.
pub proof fn lemma_single_connection_option(headers: Seq<(Seq<char>, Seq<u8>)>, i: int)
    requires
        0 <= i < headers.len(),
        headers[i].0 == "connection"@,
        forall|j: int| 0 <= j < i ==> #[trigger] headers[j].0 != "connection"@,
        0 < headers[i].1.len() <= 65535,
        forall|k: int|
            0 <= k < headers[i].1.len() ==> #[trigger] headers[i].1[k] != 0 && header_name_byte(
                headers[i].1[k],
            ) == headers[i].1[k],
    ensures
        connection_options(headers) == seq![headers[i].1.map_values(|b: u8| b as char)],
        forall|j: int|
            0 <= j < stripped(headers).len() ==> #[trigger] stripped(headers)[j].0
                != headers[i].1.map_values(|b: u8| b as char),
{
    let v = headers[i].1;
    lemma_first_connection(headers, i);
    assert forall|k: int| 0 <= k < v.len() implies #[trigger] v[k] != 44 && is_visible_ascii(
        v[k],
    ) && !is_ows(v[k]) by {
        assert(header_name_byte(v[k]) == v[k]);
    }
    lemma_split_without_commas(v);
    assert(!is_ows(v[0]));
    assert(trim_start(v) == v);
    assert(!is_ows(v.last()));
    assert(trim(v) == v);
    let name = v.map_values(|b: u8| b as char);
    assert(!(exists|k: int| 0 <= k < v.len() && header_name_byte(#[trigger] v[k]) == 0));
    assert(v.map_values(|b: u8| header_name_byte(b) as char) =~= name);
    assert(header_name_of(v) == Some(name));
    assert(seq![v].drop_last() =~= Seq::<Seq<u8>>::empty());
    assert(seq![v].last() == v);
    assert(named_options(Seq::<Seq<u8>>::empty()) == Seq::<Seq<char>>::empty());
    assert(named_options(seq![v]) == Seq::<Seq<char>>::empty().push(name));
    assert(named_options(seq![v]) =~= seq![name]);
    assert(connection_options(headers) == seq![name]);
    lemma_stripped_headers(headers);
    assert forall|j: int| 0 <= j < stripped(headers).len() implies #[trigger] stripped(headers)[j].0
        != name by {
        assert(seq![name].contains(name)) by {
            assert(seq![name][0] == name);
        }
    }
}

/// Inside visible ASCII text, the white space that `str::trim` removes is
/// exactly space and tab.
pub proof fn lemma_ows_is_white_space(b: u8)
    requires
        is_visible_ascii(b),
    ensures
        crate::text::is_white_space(b as char) <==> is_ows(b),
{
}

} // verus!
