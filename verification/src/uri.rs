//! The application engine's endpoint type: a URI held as plain parts —
//! scheme, authority (host and optional port) and path-with-query — with
//! its grammar, a verified parser from the configuration string form
//! `scheme://host[:port][/path][?query]`, and the authority's string form
//! used for the `Host` header.
//!
//! The grammar is the fragment of the URI syntax this proxy routes on: a
//! scheme of letters, digits, `+`, `-` or `.` starting with a letter; a
//! host that is either a name of letters, digits, `-`, `.` or `_`, or an
//! IPv6 address in brackets; an optional decimal port; and an optional
//! path-and-query of printable characters that starts at the first `/` or
//! `?` after the authority. A bracketed host keeps its brackets in the
//! authority's string form, as the `Host` header carries them. Userinfo
//! (`user@host`), percent-escapes in the host, and zone suffixes (`%`) in
//! a bracketed address are not part of the grammar and are rejected.
use crate::addr::parse_ipv6;
use crate::addr::spec_parse_ipv6;
use crate::endpoint::Endpoint;
use crate::text::digits_value;
use crate::text::find_char;
use crate::text::find_first;
use crate::text::is_digit;
use crate::text::is_port;
use crate::text::lemma_find_char_bounds;
use crate::text::parse_port;
use vstd::prelude::*;
use vstd::string::StrSliceExecFns;
use vstd::string::StringExecFns;

verus! {

/// A URI authority: the host and, when written, the port.
pub struct Authority {
    pub host: String,
    pub port: Option<u16>,
}

/// The mathematical value of an [`Authority`].
#[verifier::ext_equal]
pub struct AuthorityView {
    pub host: Seq<char>,
    pub port: Option<u16>,
}

/// A URI as the proxy reads it: scheme and authority when present, and the
/// path together with the query, empty when absent.
pub struct Uri {
    pub scheme: Option<String>,
    pub authority: Option<Authority>,
    pub path_and_query: String,
}

/// The mathematical value of a [`Uri`].
#[verifier::ext_equal]
pub struct UriView {
    pub scheme: Option<Seq<char>>,
    pub authority: Option<AuthorityView>,
    pub path_and_query: Seq<char>,
}

impl View for Authority {
    type V = AuthorityView;

    open spec fn view(&self) -> AuthorityView {
        AuthorityView { host: self.host@, port: self.port }
    }
}

impl DeepView for Authority {
    type V = AuthorityView;

    open spec fn deep_view(&self) -> AuthorityView {
        self@
    }
}

impl View for Uri {
    type V = UriView;

    open spec fn view(&self) -> UriView {
        UriView {
            scheme: match self.scheme {
                Some(s) => Some(s@),
                None => None,
            },
            authority: match self.authority {
                Some(a) => Some(a@),
                None => None,
            },
            path_and_query: self.path_and_query@,
        }
    }
}

impl DeepView for Uri {
    type V = UriView;

    open spec fn deep_view(&self) -> UriView {
        self@
    }
}

impl Endpoint for Uri {
    fn duplicate(&self) -> (r: Self) {
        let scheme = match &self.scheme {
            Some(s) => Some(s.clone()),
            None => None,
        };
        let authority = match &self.authority {
            Some(a) => Some(Authority { host: a.host.clone(), port: a.port }),
            None => None,
        };
        let path_and_query = self.path_and_query.clone();
        let r = Uri { scheme, authority, path_and_query };
        proof {
            assert(r.deep_view() =~= self.deep_view());
        }
        r
    }
}

/// Whether `c` is an ASCII letter.
pub open spec fn is_alpha(c: char) -> bool {
    ('a' as u32 <= c as u32 && c as u32 <= 'z' as u32) || ('A' as u32 <= c as u32 && c as u32
        <= 'Z' as u32)
}

/// Whether `c` may appear in a scheme.
pub open spec fn is_scheme_char(c: char) -> bool {
    is_alpha(c) || is_digit(c) || c == '+' || c == '-' || c == '.'
}

/// Whether `s` is a valid scheme: non-empty, led by a letter.
pub open spec fn is_scheme(s: Seq<char>) -> bool {
    &&& s.len() >= 1
    &&& is_alpha(s[0])
    &&& forall|i: int| 0 <= i < s.len() ==> is_scheme_char(#[trigger] s[i])
}

/// Whether `c` may appear in a host name.
pub open spec fn is_host_char(c: char) -> bool {
    is_alpha(c) || is_digit(c) || c == '-' || c == '.' || c == '_'
}

/// Whether `s` is a valid host: one or more host characters.
pub open spec fn is_host(s: Seq<char>) -> bool {
    &&& s.len() >= 1
    &&& forall|i: int| 0 <= i < s.len() ==> is_host_char(#[trigger] s[i])
}

/// Whether `c` may appear in the path-and-query part: printable ASCII
/// other than space and the fragment mark.
pub open spec fn is_pq_char(c: char) -> bool {
    '!' as u32 <= c as u32 && c as u32 <= '~' as u32 && c != '#'
}

/// Whether `s` is a valid path-and-query part: it opens at the `/` or `?`
/// that ended the authority and runs on in printable characters.
pub open spec fn is_path_and_query(s: Seq<char>) -> bool {
    &&& s.len() >= 1
    &&& (s[0] == '/' || s[0] == '?')
    &&& forall|i: int| 0 <= i < s.len() ==> is_pq_char(#[trigger] s[i])
}

/// The authority denoted by `s`: a host — a name or a bracketed IPv6
/// address, kept with its brackets — optionally followed by `:` and a
/// port.
pub open spec fn spec_parse_authority(s: Seq<char>) -> Option<AuthorityView> {
    if s.len() > 0 && s[0] == '[' {
        match find_char(s, ']') {
            None => None,
            Some(j) => if spec_parse_ipv6(s.subrange(1, j)) is Some {
                if j == s.len() - 1 {
                    Some(AuthorityView { host: s, port: None })
                } else if s[j + 1] == ':' && is_port(s.skip(j + 2)) {
                    Some(
                        AuthorityView {
                            host: s.take(j + 1),
                            port: Some(digits_value(s.skip(j + 2)) as u16),
                        },
                    )
                } else {
                    None
                }
            } else {
                None
            },
        }
    } else {
        match find_char(s, ':') {
            None => if is_host(s) {
                Some(AuthorityView { host: s, port: None })
            } else {
                None
            },
            Some(i) => if is_host(s.take(i)) && is_port(s.skip(i + 1)) {
                Some(
                    AuthorityView {
                        host: s.take(i),
                        port: Some(digits_value(s.skip(i + 1)) as u16),
                    },
                )
            } else {
                None
            },
        }
    }
}

/// Where the authority ends: the first `/` or `?`, if either occurs.
pub open spec fn spec_find_stop(s: Seq<char>) -> Option<int> {
    match (find_char(s, '/'), find_char(s, '?')) {
        (Some(a), Some(b)) => if a <= b {
            Some(a)
        } else {
            Some(b)
        },
        (Some(a), None) => Some(a),
        (None, Some(b)) => Some(b),
        (None, None) => None,
    }
}

/// The URI denoted by `s`: `scheme://authority`, optionally followed by a
/// path-and-query part.
pub open spec fn spec_parse_uri(s: Seq<char>) -> Option<UriView> {
    match find_char(s, ':') {
        None => None,
        Some(i) => if !is_scheme(s.take(i))
            || s.len() < i + 3
            || s[i + 1] != '/'
            || s[i + 2] != '/' {
            None
        } else {
            let hier = s.skip(i + 3);
            match spec_find_stop(hier) {
                None => match spec_parse_authority(hier) {
                    Some(a) => Some(
                        UriView {
                            scheme: Some(s.take(i)),
                            authority: Some(a),
                            path_and_query: Seq::empty(),
                        },
                    ),
                    None => None,
                },
                Some(j) => match spec_parse_authority(hier.take(j)) {
                    Some(a) => if is_path_and_query(hier.skip(j)) {
                        Some(
                            UriView {
                                scheme: Some(s.take(i)),
                                authority: Some(a),
                                path_and_query: hier.skip(j),
                            },
                        )
                    } else {
                        None
                    },
                    None => None,
                },
            }
        },
    }
}

/// The character that writes the decimal digit `d`.
pub open spec fn char_of_digit(d: int) -> char {
    if d == 0 {
        '0'
    } else if d == 1 {
        '1'
    } else if d == 2 {
        '2'
    } else if d == 3 {
        '3'
    } else if d == 4 {
        '4'
    } else if d == 5 {
        '5'
    } else if d == 6 {
        '6'
    } else if d == 7 {
        '7'
    } else if d == 8 {
        '8'
    } else {
        '9'
    }
}

/// The decimal writing of `v`, most significant digit first, no leading
/// zeroes.
pub open spec fn dec_chars(v: int) -> Seq<char>
    recommends
        v >= 0,
    decreases v,
{
    if v < 10 {
        seq![char_of_digit(v)]
    } else {
        dec_chars(v / 10).push(char_of_digit(v % 10))
    }
}

/// The string form of an authority: the host, then `:` and the decimal
/// port when a port is present — the value the `Host` header carries.
pub open spec fn spec_authority_string(a: AuthorityView) -> Seq<char> {
    match a.port {
        None => a.host,
        Some(p) => a.host + seq![':'] + dec_chars(p as int),
    }
}

/// The one-character string of the decimal digit `d`.
fn digit_str(d: u8) -> (r: &'static str)
    requires
        d < 10,
    ensures
        r@ == seq![char_of_digit(d as int)],
{
    let r: &'static str = match d {
        0 => "0",
        1 => "1",
        2 => "2",
        3 => "3",
        4 => "4",
        5 => "5",
        6 => "6",
        7 => "7",
        8 => "8",
        _ => "9",
    };
    proof {
        reveal_strlit("0");
        reveal_strlit("1");
        reveal_strlit("2");
        reveal_strlit("3");
        reveal_strlit("4");
        reveal_strlit("5");
        reveal_strlit("6");
        reveal_strlit("7");
        reveal_strlit("8");
        reveal_strlit("9");
        assert(r@ =~= seq![char_of_digit(d as int)]);
    }
    r
}

/// Writes `v` in decimal, exactly as `dec_chars` spells it.
pub fn decimal_string(v: u16) -> (r: String)
    ensures
        r@ == dec_chars(v as int),
    decreases v,
{
    if v < 10 {
        String::from_str(digit_str(v as u8))
    } else {
        let mut r = decimal_string(v / 10);
        r.append(digit_str((v % 10) as u8));
        proof {
            assert(r@ =~= dec_chars(v as int));
        }
        r
    }
}

impl Authority {
    /// The authority written as a string, `host` or `host:port`.
    pub fn authority_string(&self) -> (r: String)
        ensures
            r@ == spec_authority_string(self.deep_view()),
    {
        match &self.port {
            None => self.host.clone(),
            Some(p) => {
                let mut r = self.host.clone();
                r.append(":");
                let port = decimal_string(*p);
                r.append(port.as_str());
                proof {
                    reveal_strlit(":");
                    assert(r@ =~= spec_authority_string(self.deep_view()));
                }
                r
            },
        }
    }
}

/// The string form of a whole URI: `scheme://` when a scheme is present,
/// then the authority's string form when one is present, then the path
/// and query as they stand.
pub open spec fn spec_uri_string(u: UriView) -> Seq<char> {
    (match u.scheme {
        Some(s) => s + "://"@,
        None => Seq::<char>::empty(),
    }) + (match u.authority {
        Some(a) => spec_authority_string(a),
        None => Seq::<char>::empty(),
    }) + u.path_and_query
}

impl Uri {
    /// The URI written as a string, exactly as `spec_uri_string` spells
    /// it — what the engine hands on as the forwarded request's target.
    pub fn uri_string(&self) -> (r: String)
        ensures
            r@ == spec_uri_string(self.deep_view()),
    {
        let mut r = String::new();
        match &self.scheme {
            Some(scheme) => {
                r.append(scheme.as_str());
                r.append("://");
            },
            None => {},
        }
        match &self.authority {
            Some(authority) => {
                let authority_s = authority.authority_string();
                r.append(authority_s.as_str());
            },
            None => {},
        }
        r.append(self.path_and_query.as_str());
        proof {
            assert(r@ =~= spec_uri_string(self.deep_view()));
        }
        r
    }
}

/// Whether `c` may appear in a host name.
fn is_host_char_exec(c: char) -> (r: bool)
    ensures
        r == is_host_char(c),
{
    ('a' as u32 <= c as u32 && c as u32 <= 'z' as u32) || ('A' as u32 <= c as u32 && c as u32
        <= 'Z' as u32) || ('0' as u32 <= c as u32 && c as u32 <= '9' as u32) || c == '-' || c == '.'
        || c == '_'
}

/// Whether `c` may appear in a scheme.
fn is_scheme_char_exec(c: char) -> (r: bool)
    ensures
        r == is_scheme_char(c),
{
    ('a' as u32 <= c as u32 && c as u32 <= 'z' as u32) || ('A' as u32 <= c as u32 && c as u32
        <= 'Z' as u32) || ('0' as u32 <= c as u32 && c as u32 <= '9' as u32) || c == '+' || c == '-'
        || c == '.'
}

/// Whether `c` may appear in the path-and-query part.
fn is_pq_char_exec(c: char) -> (r: bool)
    ensures
        r == is_pq_char(c),
{
    '!' as u32 <= c as u32 && c as u32 <= '~' as u32 && c != '#'
}

/// Decides the host grammar.
fn check_host(s: &str) -> (r: bool)
    ensures
        r == is_host(s@),
{
    let n = s.unicode_len();
    if n == 0 {
        return false;
    }
    let mut i: usize = 0;
    while i < n
        invariant
            0 <= i <= n,
            n == s@.len(),
            forall|j: int| 0 <= j < i ==> is_host_char(#[trigger] s@[j]),
        decreases n - i,
    {
        if !is_host_char_exec(s.get_char(i)) {
            return false;
        }
        i = i + 1;
    }
    true
}

/// Decides the scheme grammar.
fn check_scheme(s: &str) -> (r: bool)
    ensures
        r == is_scheme(s@),
{
    let n = s.unicode_len();
    if n == 0 {
        return false;
    }
    let c0 = s.get_char(0);
    let alpha = ('a' as u32 <= c0 as u32 && c0 as u32 <= 'z' as u32) || ('A' as u32 <= c0 as u32
        && c0 as u32 <= 'Z' as u32);
    if !alpha {
        return false;
    }
    let mut i: usize = 0;
    while i < n
        invariant
            0 <= i <= n,
            n == s@.len(),
            forall|j: int| 0 <= j < i ==> is_scheme_char(#[trigger] s@[j]),
        decreases n - i,
    {
        if !is_scheme_char_exec(s.get_char(i)) {
            return false;
        }
        i = i + 1;
    }
    true
}

/// Decides the path-and-query grammar.
fn check_path_query(s: &str) -> (r: bool)
    ensures
        r == is_path_and_query(s@),
{
    let n = s.unicode_len();
    if n == 0 {
        return false;
    }
    let c0 = s.get_char(0);
    if c0 != '/' && c0 != '?' {
        return false;
    }
    let mut i: usize = 0;
    while i < n
        invariant
            0 <= i <= n,
            n == s@.len(),
            forall|j: int| 0 <= j < i ==> is_pq_char(#[trigger] s@[j]),
        decreases n - i,
    {
        if !is_pq_char_exec(s.get_char(i)) {
            return false;
        }
        i = i + 1;
    }
    true
}

/// Parses a URI authority, exactly as the authority grammar allows.
fn parse_authority(s: &str) -> (r: Option<Authority>)
    ensures
        match r {
            Some(a) => spec_parse_authority(s@) == Some(a.deep_view()),
            None => spec_parse_authority(s@) is None,
        },
{
    let n = s.unicode_len();
    if n > 0 && s.get_char(0) == '[' {
        let j = match find_first(s, ']') {
            Some(j) => j,
            None => {
                return None;
            },
        };
        proof {
            lemma_find_char_bounds(s@, ']');
        }
        let inner = s.substring_char(1, j);
        proof {
            assert(inner@ =~= s@.subrange(1, j as int));
        }
        if parse_ipv6(inner).is_none() {
            return None;
        }
        if j + 1 == n {
            return Some(Authority { host: s.to_owned(), port: None });
        }
        if s.get_char(j + 1) != ':' {
            return None;
        }
        let host_s = s.substring_char(0, j + 1);
        let port_s = s.substring_char(j + 2, n);
        proof {
            assert(host_s@ =~= s@.take(j + 1));
            assert(port_s@ =~= s@.skip(j + 2));
        }
        match parse_port(port_s) {
            Some(port) => Some(Authority { host: host_s.to_owned(), port: Some(port) }),
            None => None,
        }
    } else {
        match find_first(s, ':') {
            None => {
                if check_host(s) {
                    Some(Authority { host: s.to_owned(), port: None })
                } else {
                    None
                }
            },
            Some(i) => {
                let host_s = s.substring_char(0, i);
                let port_s = s.substring_char(i + 1, n);
                proof {
                    assert(port_s@ =~= s@.skip(i + 1));
                }
                if !check_host(host_s) {
                    return None;
                }
                match parse_port(port_s) {
                    Some(port) => Some(Authority { host: host_s.to_owned(), port: Some(port) }),
                    None => None,
                }
            },
        }
    }
}

/// Parses a URI, exactly as the URI grammar allows: the parts returned are
/// the ones the grammar denotes, and `None` comes back exactly on the
/// strings the grammar rejects.
pub fn parse_uri(s: &str) -> (r: Option<Uri>)
    ensures
        match r {
            Some(u) => spec_parse_uri(s@) == Some(u.deep_view()),
            None => spec_parse_uri(s@) is None,
        },
{
    let n = s.unicode_len();
    let i = match find_first(s, ':') {
        Some(i) => i,
        None => {
            return None;
        },
    };
    let scheme_s = s.substring_char(0, i);
    if !check_scheme(scheme_s) {
        return None;
    }
    if n - i < 3 {
        return None;
    }
    if s.get_char(i + 1) != '/' || s.get_char(i + 2) != '/' {
        return None;
    }
    let hier = s.substring_char(i + 3, n);
    proof {
        assert(hier@ =~= s@.skip(i + 3));
    }
    let stop_slash = find_first(hier, '/');
    let stop_query = find_first(hier, '?');
    let stop: Option<usize> = match (stop_slash, stop_query) {
        (Some(a), Some(b)) => Some(if a <= b { a } else { b }),
        (Some(a), None) => Some(a),
        (None, Some(b)) => Some(b),
        (None, None) => None,
    };
    match stop {
        None => {
            match parse_authority(hier) {
                Some(a) => Some(
                    Uri {
                        scheme: Some(scheme_s.to_owned()),
                        authority: Some(a),
                        path_and_query: String::new(),
                    },
                ),
                None => None,
            }
        },
        Some(j) => {
            let hlen = hier.unicode_len();
            let auth_s = hier.substring_char(0, j);
            let pq_s = hier.substring_char(j, hlen);
            match parse_authority(auth_s) {
                Some(a) => {
                    if check_path_query(pq_s) {
                        Some(
                            Uri {
                                scheme: Some(scheme_s.to_owned()),
                                authority: Some(a),
                                path_and_query: pq_s.to_owned(),
                            },
                        )
                    } else {
                        None
                    }
                },
                None => None,
            }
        },
    }
}

} // verus!
