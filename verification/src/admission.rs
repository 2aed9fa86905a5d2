//! Which addresses may be opened in the external-site window: only `https`
//! URLs of public host names. IP literals, `localhost` and the local and
//! internal name spaces are refused, as are empty and overlong inputs.
use vstd::prelude::*;
use vstd::utf8::encode_utf8;
use vstd::slice::slice_subrange;

use crate::ipv4::{is_ipv4_chars, is_ipv4_literal};
use crate::text::{
    ascii_lowercase,
    chars_end_with,
    chars_equal,
    ends_with,
    lowercase_chars,
    str_equal,
    trim,
    trim_str,
    utf8_len,
};

verus! {

/// Longest accepted address, in UTF-8 bytes after trimming.
pub const MAX_URL_LEN: usize = 2048;

/// What the admission logic reads of a parsed URL.
pub struct UrlParts {
    pub scheme: Seq<char>,
    pub host: Option<Seq<char>>,
    pub href: Seq<char>,
}

/// A parsed absolute URL: its scheme, its host as written in the
/// serialization (if it has one) and the whole serialization.
#[derive(Debug)]
pub struct ParsedUrl {
    pub scheme: String,
    pub host: Option<String>,
    pub href: String,
}

pub open spec fn opt_view(o: Option<String>) -> Option<Seq<char>> {
    match o {
        Some(s) => Some(s@),
        None => None,
    }
}

impl View for ParsedUrl {
    type V = UrlParts;

    open spec fn view(&self) -> UrlParts {
        UrlParts { scheme: self.scheme@, host: opt_view(self.host), href: self.href@ }
    }
}

/// A parse result, taken by its view.
pub open spec fn outcome_view(r: Result<ParsedUrl, String>) -> Result<UrlParts, Seq<char>> {
    match r {
        Ok(p) => Ok(p@),
        Err(e) => Err(e@),
    }
}

impl ParsedUrl {
    /// The serialization of the URL.
    pub fn as_str(&self) -> (r: &str)
        ensures
            r@ == self@.href,
    {
        self.href.as_str()
    }

    /// The scheme, without the `:`.
    pub fn scheme(&self) -> (r: &str)
        ensures
            r@ == self@.scheme,
    {
        self.scheme.as_str()
    }

    /// The host as it stands in the serialization.
    pub fn host_str(&self) -> (r: Option<&str>)
        ensures
            match r {
                Some(h) => self@.host == Some(h@),
                None => self@.host is None,
            },
    {
        match &self.host {
            Some(h) => Some(h.as_str()),
            None => None,
        }
    }
}

/// What `url::Url::parse` gives for `text`: the scheme, host and
/// serialization of the URL, or the text of the parse error.
pub uninterp spec fn url_parse(text: Seq<char>) -> Result<UrlParts, Seq<char>>;

/// The serialization begins with the scheme and a `:`.
pub open spec fn begins_with_scheme(p: UrlParts) -> bool {
    &&& p.scheme.len() < p.href.len()
    &&& p.href.subrange(0, p.scheme.len() as int) == p.scheme
    &&& p.href[p.scheme.len() as int] == ':'
}

/// Calls `url::Url::parse` on `text`. The contract claims that the outcome
/// is a function of `text` alone (on success the scheme (`Url::scheme`), host
/// (`Url::host_str`) and serialization (`Url::as_str`) of the parsed URL, on
/// failure the display text of the `ParseError`), and that a serialization
/// starts with its scheme followed by `:` (the grammar documented on `Url`'s
/// `serialization` field, `scheme_end` marking the `:`).
#[verifier::external_body]
fn parse_absolute_url(text: &str) -> (res: Result<ParsedUrl, String>)
    ensures
        outcome_view(res) == url_parse(text@),
        res matches Ok(p) ==> begins_with_scheme(p@),
{
    match url::Url::parse(text) {
        Ok(u) => Ok(
            ParsedUrl {
                scheme: u.scheme().to_string(),
                host: u.host_str().map(str::to_string),
                href: u.as_str().to_string(),
            },
        ),
        Err(e) => Err(e.to_string()),
    }
}

pub open spec fn empty_url_message() -> Seq<char> {
    "INVALID_ARGUMENT: url 不能为空"@
}

pub open spec fn overlong_url_message() -> Seq<char> {
    "INVALID_ARGUMENT: url 超过 2048 字符"@
}

pub open spec fn unparsable_url_message(detail: Seq<char>) -> Seq<char> {
    "INVALID_ARGUMENT: url 解析失败（"@ + detail + "）"@
}

pub open spec fn not_https_message() -> Seq<char> {
    "INVALID_ARGUMENT: 只允许 https 地址"@
}

pub open spec fn missing_host_message() -> Seq<char> {
    "INVALID_ARGUMENT: url 缺少主机名"@
}

pub open spec fn ip_host_message() -> Seq<char> {
    "INVALID_ARGUMENT: 不允许直接打开 IP 地址"@
}

pub open spec fn local_host_message() -> Seq<char> {
    "INVALID_ARGUMENT: 不允许打开本机/内网地址"@
}

/// The host with one pair of enclosing square brackets removed.
pub open spec fn strip_brackets(h: Seq<char>) -> Seq<char> {
    if h.len() >= 2 && h[0] == '[' && h.last() == ']' {
        h.subrange(1, h.len() - 1)
    } else {
        h
    }
}

/// The (lowercased) host is an IP address: an IPv6 form (anything holding a
/// colon once brackets are removed) or an IPv4 literal.
pub open spec fn is_ip_host(h: Seq<char>) -> bool {
    let bare = strip_brackets(h);
    bare.contains(':') || is_ipv4_literal(bare)
}

/// A host name without its final `.` (the root label), if it has one:
/// `localhost.` names the same host as `localhost`.
pub open spec fn without_root_dot(h: Seq<char>) -> Seq<char> {
    if h.len() > 0 && h.last() == '.' {
        h.drop_last()
    } else {
        h
    }
}

/// The (lowercased) host names this machine or a local or internal network,
/// written with or without the final `.`.
pub open spec fn is_local_host(h: Seq<char>) -> bool {
    let name = without_root_dot(h);
    ||| name == "localhost"@
    ||| ends_with(name, ".localhost"@)
    ||| ends_with(name, ".local"@)
    ||| ends_with(name, ".internal"@)
}

pub open spec fn host_text(host: Option<Seq<char>>) -> Seq<char> {
    match host {
        Some(h) => h,
        None => Seq::<char>::empty(),
    }
}

/// The verdict on a parse outcome.
pub open spec fn screened(parsed: Result<UrlParts, Seq<char>>) -> Result<UrlParts, Seq<char>> {
    match parsed {
        Err(e) => Err(unparsable_url_message(e)),
        Ok(p) => {
            let host = ascii_lowercase(host_text(p.host));
            if p.scheme != "https"@ {
                Err(not_https_message())
            } else if host.len() == 0 {
                Err(missing_host_message())
            } else if is_ip_host(host) {
                Err(ip_host_message())
            } else if is_local_host(host) {
                Err(local_host_message())
            } else {
                Ok(p)
            }
        },
    }
}

/// The verdict on a raw address.
pub open spec fn admitted(raw: Seq<char>) -> Result<UrlParts, Seq<char>> {
    let t = trim(raw);
    if t.len() == 0 {
        Err(empty_url_message())
    } else if encode_utf8(t).len() > MAX_URL_LEN {
        Err(overlong_url_message())
    } else {
        screened(url_parse(t))
    }
}

fn message(text: &str) -> (r: String)
    ensures
        r@ == text@,
{
    String::from_str(text)
}

fn contains_colon(s: &[char]) -> (r: bool)
    ensures
        r == s@.contains(':'),
{
    let n = s.len();
    let mut i: usize = 0;
    while i < n
        invariant
            n == s@.len(),
            i <= n,
            forall|j: int| 0 <= j < i ==> s@[j] != ':',
        decreases n - i,
    {
        if s[i] == ':' {
            assert(s@[i as int] == ':');
            return true;
        }
        i = i + 1;
    }
    false
}

/// Judges the outcome of parsing an address: refuses a parse error, a scheme
/// other than `https`, a missing host, an IP address and a local host name;
/// hands an acceptable URL back unchanged.
pub fn screen_parsed_url(parsed: Result<ParsedUrl, String>) -> (r: Result<ParsedUrl, String>)
    ensures
        outcome_view(r) == screened(outcome_view(parsed)),
{
    let p = match parsed {
        Err(e) => {
            let mut m = message("INVALID_ARGUMENT: url 解析失败（");
            m.append(e.as_str());
            m.append("）");
            return Err(m);
        },
        Ok(p) => p,
    };
    let https = "https";
    if !str_equal(p.scheme.as_str(), https) {
        return Err(message("INVALID_ARGUMENT: 只允许 https 地址"));
    }
    let mut host: Vec<char> = match &p.host {
        Some(h) => lowercase_chars(h.as_str()),
        None => Vec::new(),
    };
    assert(host@ == ascii_lowercase(host_text(p@.host)));
    if host.len() == 0 {
        return Err(message("INVALID_ARGUMENT: url 缺少主机名"));
    }
    let len = host.len();
    let bare: &[char] = if len >= 2 && host[0] == '[' && host[len - 1] == ']' {
        slice_subrange(host.as_slice(), 1, len - 1)
    } else {
        host.as_slice()
    };
    assert(bare@ == strip_brackets(host@));
    if contains_colon(bare) || is_ipv4_chars(bare) {
        return Err(message("INVALID_ARGUMENT: 不允许直接打开 IP 地址"));
    }
    let last = len - 1;
    if host[last] == '.' {
        host.pop();
    }
    assert(host@ == without_root_dot(ascii_lowercase(host_text(p@.host))));
    if chars_equal(&host, "localhost") || chars_end_with(&host, ".localhost") || chars_end_with(
        &host,
        ".local",
    ) || chars_end_with(&host, ".internal") {
        return Err(message("INVALID_ARGUMENT: 不允许打开本机/内网地址"));
    }
    Ok(p)
}

/// Checks an address before it is opened in the window: the input is
/// trimmed; it must be non-empty, at most `MAX_URL_LEN` UTF-8 bytes, parse as
/// an absolute URL, use `https`, and name a host that is neither an IP
/// address nor a local name. Each refusal has its own message.
pub fn validate_url(raw: &str) -> (r: Result<ParsedUrl, String>)
    ensures
        outcome_view(r) == admitted(raw@),
        r matches Ok(p) ==> begins_with_scheme(p@),
{
    let t = trim_str(raw);
    if t.is_empty() {
        return Err(message("INVALID_ARGUMENT: url 不能为空"));
    }
    if utf8_len(t) > MAX_URL_LEN as u128 {
        return Err(message("INVALID_ARGUMENT: url 超过 2048 字符"));
    }
    let parsed = parse_absolute_url(t);
    screen_parsed_url(parsed)
}

/// Every admitted address is what the URL parser made of the trimmed input,
/// uses `https`, and names a host that is neither an IP address (IPv4
/// literal, or any bracketed or colon-holding IPv6 form) nor a local name.
pub proof fn law_admitted_urls_are_public_https(raw: Seq<char>, p: UrlParts)
    requires
        admitted(raw) == Ok::<UrlParts, Seq<char>>(p),
    ensures
        url_parse(trim(raw)) == Ok::<UrlParts, Seq<char>>(p),
        p.scheme == "https"@,
        ascii_lowercase(host_text(p.host)).len() > 0,
        !is_ip_host(ascii_lowercase(host_text(p.host))),
        !is_local_host(ascii_lowercase(host_text(p.host))),
        encode_utf8(trim(raw)).len() <= MAX_URL_LEN,
{
}

/// An IPv6 host is never admitted: whatever the parser gives, a host that
/// still holds a colon once its brackets are removed is refused.
pub proof fn law_ipv6_hosts_are_refused(p: UrlParts)
    requires
        p.scheme == "https"@,
        strip_brackets(ascii_lowercase(host_text(p.host))).contains(':'),
    ensures
        screened(Ok::<UrlParts, Seq<char>>(p)) == Err::<UrlParts, Seq<char>>(ip_host_message()),
{
    let h = ascii_lowercase(host_text(p.host));
    let b = strip_brackets(h);
    let k = choose|k: int| 0 <= k < b.len() && b[k] == ':';
    if h.len() >= 2 && h[0] == '[' && h.last() == ']' {
        assert(h[k + 1] == b[k]);
    } else {
        assert(h[k] == b[k]);
    }
    assert(h.len() > 0);
}

/// A final `.` does not get a local name through: `localhost.`,
/// `foo.localhost.`, `printer.local.` are judged as the names without it.
pub proof fn law_root_dot_does_not_hide_local_hosts(h: Seq<char>)
    requires
        !(h.len() > 0 && h.last() == '.'),
    ensures
        is_local_host(h.push('.')) == is_local_host(h),
{
    assert(h.push('.').drop_last() =~= h);
}

/// An address that starts and ends with a visible ASCII character (such as
/// a final `/`) reaches the parser exactly as given: no character of it is
/// trimmed away.
pub proof fn law_visible_ends_are_not_trimmed(raw: Seq<char>)
    requires
        raw.len() > 0,
        '!' <= raw[0] && raw[0] <= '~',
        '!' <= raw.last() && raw.last() <= '~',
    ensures
        trim(raw) == raw,
        admitted(raw) == (if encode_utf8(raw).len() > MAX_URL_LEN {
            Err::<UrlParts, Seq<char>>(overlong_url_message())
        } else {
            screened(url_parse(raw))
        }),
{
    crate::text::law_ascii_white_space(raw[0]);
    crate::text::law_ascii_white_space(raw.last());
    crate::text::law_trim_keeps_unspaced_ends(raw);
}

/// Every name under `.localhost`, `.local` or `.internal`, and
/// `localhost` itself, each with or without a final dot and in any ASCII
/// case, is refused as a local host.
pub proof fn law_local_names_are_refused(p: UrlParts, n: Seq<char>, suffix: Seq<char>, dot: bool)
    requires
        p.scheme == "https"@,
        suffix == ".localhost"@ || suffix == ".local"@ || suffix == ".internal"@ || (n.len() == 0
            && suffix == "localhost"@),
        !n.contains(':'),
        ascii_lowercase(host_text(p.host)) == n + suffix + (if dot {
            seq!['.']
        } else {
            Seq::<char>::empty()
        }),
    ensures
        screened(Ok::<UrlParts, Seq<char>>(p)) == Err::<UrlParts, Seq<char>>(local_host_message()),
{
    reveal_strlit(".localhost");
    reveal_strlit(".local");
    reveal_strlit(".internal");
    reveal_strlit("localhost");
    reveal_strlit("https");
    let h = ascii_lowercase(host_text(p.host));
    let name = n + suffix;
    let tail: Seq<char> = if dot {
        seq!['.']
    } else {
        Seq::<char>::empty()
    };
    assert(h == name + tail);
    assert(h.len() > 0);
    assert(without_root_dot(h) =~= name);
    assert(!name.contains(':')) by {
        if name.contains(':') {
            let k = choose|k: int| 0 <= k < name.len() && name[k] == ':';
            if k < n.len() {
                assert(n[k] == ':');
            } else {
                assert(suffix[k - n.len()] == ':');
            }
        }
    }
    assert(!h.contains(':')) by {
        if h.contains(':') {
            let k = choose|k: int| 0 <= k < h.len() && h[k] == ':';
            if k < name.len() {
                assert(name[k] == ':');
            }
        }
    }
    assert(h.last() != ']');
    assert(strip_brackets(h) == h);
    if is_ipv4_literal(h) {
        crate::ipv4::law_ipv4_literal_ends_with_a_digit(h);
    }
    assert(is_local_host(h)) by {
        crate::text::law_ends_with(n, suffix, name);
    }
}

} // verus!
