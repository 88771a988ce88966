//! What a blocking HTTPS GET sends: the URL split into host and path, the
//! scheme check, the timeouts and the request headers. The transfer itself
//! (WinHTTP) is done by the caller with these values.

use vstd::prelude::*;
use vstd::utf8::{decode_utf8, valid_utf8};
use crate::text::{chars_of, from_utf8_lossy, string_from_chars, utf8_lossy};

verus! {

/// Why a URL cannot be fetched.
#[derive(Debug, Clone, PartialEq, Eq)]
pub enum HttpError {
    /// Neither `https://` nor `http://`.
    UnsupportedScheme,
    /// Nothing between the scheme and the first `/`.
    EmptyHost,
    /// A plain `http://` URL: only HTTPS is fetched.
    NotHttps,
    /// The transfer failed; the text says where.
    Transport(String),
}

/// The user agent sent with every request.
pub const USER_AGENT: &'static str = "MusicRpc/3.0";

/// Extra request headers (CRLF-terminated lines).
pub const REQUEST_HEADERS: &'static str = "Referer: https://music.163.com/\r\nUser-Agent: Mozilla/5.0\r\n";

/// HTTPS port.
pub const HTTPS_PORT: u16 = 443;

/// Timeout of a best-effort GET, in seconds.
pub const GET_TIMEOUT_SECS: u32 = 5;

pub open spec fn https_scheme() -> Seq<char> {
    seq!['h', 't', 't', 'p', 's', ':', '/', '/']
}

pub open spec fn http_scheme() -> Seq<char> {
    seq!['h', 't', 't', 'p', ':', '/', '/']
}

pub open spec fn has_prefix(s: Seq<char>, p: Seq<char>) -> bool {
    p.len() <= s.len() && s.take(p.len() as int) == p
}

/// Length of the longest prefix of `s` without a `/`.
pub open spec fn host_len(s: Seq<char>) -> nat
    decreases s.len(),
{
    if s.len() == 0 || s[0] == '/' {
        0
    } else {
        1 + host_len(s.drop_first())
    }
}

/// `(host, path, secure)` of a URL, or why it has none: the scheme is
/// stripped, the host runs to the first `/`, the path is the rest from that
/// `/` on (just `/` when there is none), and the host must not be empty.
pub open spec fn url_parts(url: Seq<char>) -> Result<(Seq<char>, Seq<char>, bool), HttpError> {
    let (ok, rest, secure) = if has_prefix(url, https_scheme()) {
        (true, url.skip(8), true)
    } else if has_prefix(url, http_scheme()) {
        (true, url.skip(7), false)
    } else {
        (false, url, false)
    };
    if !ok {
        Err(HttpError::UnsupportedScheme)
    } else {
        let n = host_len(rest) as int;
        let host = rest.take(n);
        let path = if n < rest.len() {
            rest.skip(n)
        } else {
            seq!['/']
        };
        if host.len() == 0 {
            Err(HttpError::EmptyHost)
        } else {
            Ok((host, path, secure))
        }
    }
}

proof fn lemma_host_len_exact(s: Seq<char>, k: int)
    requires
        0 <= k <= s.len(),
        forall|i: int| 0 <= i < k ==> s[i] != '/',
        k == s.len() || s[k] == '/',
    ensures
        host_len(s) == k,
    decreases k,
{
    if k > 0 {
        let d = s.drop_first();
        assert forall|i: int| 0 <= i < k - 1 implies d[i] != '/' by {
            assert(d[i] == s[i + 1]);
        }
        if k < s.len() {
            assert(d[k - 1] == s[k]);
        }
        lemma_host_len_exact(d, k - 1);
    }
}

/// Law: a URL written as a scheme, a host without `/` and a path that is
/// empty or starts with `/` splits back into that host, that path (`/` for an
/// empty one) and whether the scheme was `https://`.
pub proof fn law_url_split_round_trip(host: Seq<char>, path: Seq<char>, secure: bool)
    requires
        host.len() > 0,
        forall|i: int| 0 <= i < host.len() ==> host[i] != '/',
        path.len() == 0 || path[0] == '/',
    ensures
        url_parts(
            (if secure {
                seq!['h', 't', 't', 'p', 's', ':', '/', '/']
            } else {
                seq!['h', 't', 't', 'p', ':', '/', '/']
            }) + host + path,
        ) == Ok::<(Seq<char>, Seq<char>, bool), HttpError>(
            (
                host,
                if path.len() == 0 {
                    seq!['/']
                } else {
                    path
                },
                secure,
            ),
        ),
{
    let scheme = if secure {
        seq!['h', 't', 't', 'p', 's', ':', '/', '/']
    } else {
        seq!['h', 't', 't', 'p', ':', '/', '/']
    };
    let url = scheme + host + path;
    let rest = host + path;
    assert(url.take(scheme.len() as int) =~= scheme);
    if !secure {
        assert(url[4] == ':');
        assert(!has_prefix(url, https_scheme()));
    }
    assert(url.skip(scheme.len() as int) =~= rest);
    assert forall|i: int| 0 <= i < host.len() implies rest[i] != '/' by {
        assert(rest[i] == host[i]);
    }
    if path.len() > 0 {
        assert(rest[host.len() as int] == '/');
    }
    lemma_host_len_exact(rest, host.len() as int);
    assert(rest.take(host.len() as int) =~= host);
    if path.len() > 0 {
        assert(rest.skip(host.len() as int) =~= path);
    }
}

fn starts_with_chars(cs: &Vec<char>, p: &Vec<char>) -> (r: bool)
    ensures
        r == has_prefix(cs@, p@),
{
    if p.len() > cs.len() {
        return false;
    }
    let mut i: usize = 0;
    while i < p.len()
        invariant
            p@.len() <= cs@.len(),
            i <= p@.len(),
            forall|k: int| 0 <= k < i ==> cs@[k] == p@[k],
        decreases p@.len() - i,
    {
        if cs[i] != p[i] {
            assert(cs@.take(p@.len() as int)[i as int] != p@[i as int]);
            return false;
        }
        i += 1;
    }
    assert(cs@.take(p@.len() as int) =~= p@);
    true
}

/// Split a URL into `(host, path, secure)`.
pub fn split_url(url: &str) -> (r: Result<(String, String, bool), HttpError>)
    ensures
        match (r, url_parts(url@)) {
            (Ok((h, p, s)), Ok((sh, sp, ss))) => h@ == sh && p@ == sp && s == ss,
            (Err(e), Err(se)) => e == se,
            _ => false,
        },
{
    let cs = chars_of(url);
    let https_p = chars_of("https://");
    let http_p = chars_of("http://");
    proof {
        reveal_strlit("https://");
        reveal_strlit("http://");
        assert(https_p@ =~= https_scheme());
        assert(http_p@ =~= http_scheme());
    }
    let (start, secure) = if starts_with_chars(&cs, &https_p) {
        (8usize, true)
    } else if starts_with_chars(&cs, &http_p) {
        (7usize, false)
    } else {
        return Err(HttpError::UnsupportedScheme);
    };
    let ghost rest = cs@.skip(start as int);
    let mut k = start;
    while k < cs.len() && cs[k] != '/'
        invariant
            start <= k <= cs@.len(),
            forall|i: int| start <= i < k ==> cs@[i] != '/',
        decreases cs@.len() - k,
    {
        k += 1;
    }
    proof {
        assert forall|i: int| 0 <= i < k - start implies rest[i] != '/' by {
            assert(rest[i] == cs@[start + i]);
        }
        if k < cs.len() {
            assert(rest[k - start] == cs@[k as int]);
        }
        lemma_host_len_exact(rest, k - start);
        assert(rest.take(k - start) =~= cs@.subrange(start as int, k as int));
        assert(rest.skip(k - start) =~= cs@.subrange(k as int, cs@.len() as int));
    }
    if k == start {
        return Err(HttpError::EmptyHost);
    }
    let host = string_from_chars(&cs, start, k);
    let path = if k < cs.len() {
        string_from_chars(&cs, k, cs.len())
    } else {
        let mut p = String::new();
        crate::text::push_char(&mut p, '/');
        p
    };
    proof {
        if k >= cs.len() {
            assert(path@ =~= seq!['/']);
        }
    }
    Ok((host, path, secure))
}

/// `u32::saturating_mul(secs, 1000)`: seconds to milliseconds, capped at `u32::MAX`.
pub fn timeout_ms(secs: u32) -> (r: u32)
    ensures
        r == (if secs * 1000 <= u32::MAX {
            secs * 1000
        } else {
            u32::MAX as int
        }),
{
    if secs > u32::MAX / 1000 {
        u32::MAX
    } else {
        secs * 1000
    }
}

/// Everything an HTTPS GET sends besides the constant headers.
pub struct HttpsRequest {
    pub host: String,
    pub path: String,
    /// Applied to name resolution, connect, send and receive alike.
    pub timeout_ms: u32,
}

/// The request for `url` with `timeout_secs`, or why there is none: the URL
/// must split (see [`split_url`]) and be `https://`.
pub fn https_request(url: &str, timeout_secs: u32) -> (r: Result<HttpsRequest, HttpError>)
    ensures
        match url_parts(url@) {
            Err(e) => r == Err::<HttpsRequest, HttpError>(e),
            Ok((h, p, secure)) => if !secure {
                r == Err::<HttpsRequest, HttpError>(HttpError::NotHttps)
            } else {
                r matches Ok(req) && req.host@ == h && req.path@ == p && req.timeout_ms
                    == timeout_ms_spec(timeout_secs)
            },
        },
{
    match split_url(url) {
        Err(e) => Err(e),
        Ok((host, path, secure)) => {
            if !secure {
                Err(HttpError::NotHttps)
            } else {
                Ok(HttpsRequest { host, path, timeout_ms: timeout_ms(timeout_secs) })
            }
        },
    }
}

pub open spec fn timeout_ms_spec(secs: u32) -> u32 {
    if secs * 1000 <= u32::MAX {
        (secs * 1000) as u32
    } else {
        u32::MAX
    }
}

/// Best-effort GET: the body of a successful response, decoded as UTF-8
/// (invalid sequences replaced), `None` on any failure (NetEase metadata is
/// optional).
pub fn https_get_ok(response: Result<Vec<u8>, HttpError>) -> (r: Option<String>)
    ensures
        match response {
            Ok(body) => r matches Some(text) && text@ == utf8_lossy(body@) && (valid_utf8(body@)
                ==> text@ == decode_utf8(body@)),
            Err(_) => r is None,
        },
{
    match response {
        Ok(body) => Some(from_utf8_lossy(body.as_slice())),
        Err(_) => None,
    }
}

} // verus!
