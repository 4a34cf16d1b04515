//! Websocket addresses and the payload of the pairing code.

use vstd::prelude::*;

use crate::session_id;
use crate::session_id::new_session_id;
use crate::text;
use crate::text::{
    find_char, find_last_char, parse_u16, push_decimal, same_text, starts_with, to_lower,
    trim_matches, trim_start_matches, trim_text, CharClass,
};

verus! {

pub const DGLAB_QR_PREFIX: &'static str =
    "https://www.dungeon-lab.com/app-download.php#DGLAB-SOCKET#";

pub const DEFAULT_BIND_PORT: u16 = 28_846;

pub const FALLBACK_HOST: &'static str = "127.0.0.1";

/// The address of a control session.
#[derive(Debug, PartialEq, Eq)]
pub struct ControlWsUrl {
    pub scheme: String,
    pub host: String,
    pub port: u16,
    pub session_id: String,
}

/// The parts of a control address.
#[verifier::ext_equal]
pub struct ControlUrl {
    pub scheme: Seq<char>,
    pub host: Seq<char>,
    pub port: u16,
    pub session_id: Seq<char>,
}

impl View for ControlWsUrl {
    type V = ControlUrl;

    open spec fn view(&self) -> ControlUrl {
        ControlUrl {
            scheme: self.scheme@,
            host: self.host@,
            port: self.port,
            session_id: self.session_id@,
        }
    }
}

impl Clone for ControlWsUrl {
    fn clone(&self) -> (r: ControlWsUrl)
        ensures
            r@ == self@,
    {
        ControlWsUrl {
            scheme: self.scheme.clone(),
            host: self.host.clone(),
            port: self.port,
            session_id: self.session_id.clone(),
        }
    }
}

/// A websocket address taken apart; the path is without its leading slash.
#[derive(Debug)]
pub struct WsUrlParts {
    pub scheme: String,
    pub host: String,
    pub port: Option<u16>,
    pub path: String,
}

/// The parts of a websocket address.
#[verifier::ext_equal]
pub struct WsUrl {
    pub scheme: Seq<char>,
    pub host: Seq<char>,
    pub port: Option<u16>,
    pub path: Seq<char>,
}

impl View for WsUrlParts {
    type V = WsUrl;

    open spec fn view(&self) -> WsUrl {
        WsUrl { scheme: self.scheme@, host: self.host@, port: self.port, path: self.path@ }
    }
}

/// The port that a text names.
pub open spec fn port_in(s: Seq<char>) -> Option<u16> {
    match text::read_decimal(s, 65535) {
        Some(n) => Some(n as u16),
        None => None,
    }
}

/// The parts of what follows the scheme: host, optional port and path. The host
/// ends at the last colon before the first slash.
pub open spec fn parts_after(scheme: Seq<char>, rest: Seq<char>) -> Option<WsUrl> {
    let slash = text::first_at(rest, '/');
    let authority = rest.take(slash);
    let path = if slash < rest.len() {
        rest.skip(slash + 1)
    } else {
        seq![]
    };
    let colon = text::last_at(authority, ':');
    if authority.len() == 0 || colon == 0 {
        None
    } else if colon > 0 {
        Some(
            WsUrl { scheme, host: authority.take(colon), port: port_in(authority.skip(colon + 1)), path },
        )
    } else {
        Some(WsUrl { scheme, host: authority, port: None, path })
    }
}

/// The websocket address in a text, white space around it aside.
pub open spec fn url_in(s: Seq<char>) -> Option<WsUrl> {
    let t = text::trimmed(s);
    if text::has_prefix(t, "ws://"@) {
        parts_after("ws"@, t.skip(5))
    } else if text::has_prefix(t, "wss://"@) {
        parts_after("wss"@, t.skip(6))
    } else {
        None
    }
}

/// The control address in a text: a websocket address with a path of one
/// segment, which is the session.
pub open spec fn control_url_in(s: Seq<char>) -> Option<ControlUrl> {
    match url_in(s) {
        Some(url) => {
            let session_id = text::trim(url.path, CharClass::Only('/'));
            if session_id.len() == 0 || session_id.contains('/') {
                None
            } else {
                Some(
                    ControlUrl {
                        scheme: url.scheme,
                        host: url.host,
                        port: url.port.unwrap_or(DEFAULT_BIND_PORT),
                        session_id,
                    },
                )
            }
        },
        None => None,
    }
}

/// `<scheme>://<host>:<port>/<path>`, the host and the path tidied.
pub open spec fn url_text(scheme: Seq<char>, host: Seq<char>, port: u16, path: Seq<char>) -> Seq<
    char,
> {
    scheme + "://"@ + text::trimmed(host) + ":"@ + text::decimal(port as nat) + "/"@
        + text::trim_start(text::trimmed(path), CharClass::Only('/'))
}

/// The detected host, or the loopback address.
pub open spec fn host_or_fallback(detected_host: Option<Seq<char>>) -> Seq<char> {
    match detected_host {
        Some(host) => host,
        None => "127.0.0.1"@,
    }
}

/// The address of a session on a host, at the usual port.
pub open spec fn session_url(host: Seq<char>, session_id: Seq<char>) -> Seq<char> {
    url_text("ws"@, host, DEFAULT_BIND_PORT, session_id)
}

/// The address with another host: scheme, port and path stay. What is missing
/// becomes `ws`, the usual port and the given session.
pub open spec fn with_host(ws_url: Seq<char>, new_host: Seq<char>, session_id: Seq<char>) -> Seq<
    char,
> {
    match url_in(ws_url) {
        Some(url) => url_text(
            url.scheme,
            new_host,
            url.port.unwrap_or(DEFAULT_BIND_PORT),
            if url.path.len() == 0 {
                session_id
            } else {
                url.path
            },
        ),
        None => session_url(new_host, session_id),
    }
}

/// The address with another last path segment, or, where the text has none
/// behind a websocket scheme, the fallback address.
pub open spec fn with_session(ws_url: Seq<char>, session_id: Seq<char>, fallback: Seq<char>) -> Seq<
    char,
> {
    let t = text::trimmed(ws_url);
    let slash = text::last_at(t, '/');
    let base = t.take(slash);
    if slash >= 0 && (text::has_prefix(base, "ws://"@) || text::has_prefix(base, "wss://"@)) {
        base + "/"@ + session_id
    } else {
        fallback
    }
}

fn parse_ws_url_after(scheme: &str, rest: &str) -> (r: Option<WsUrlParts>)
    ensures
        match r {
            Some(parts) => parts_after(scheme@, rest@) == Some(parts@),
            None => parts_after(scheme@, rest@) is None,
        },
{
    let n: usize = rest.unicode_len();
    let slash: usize = find_char(rest, '/');
    let authority = rest.substring_char(0, slash);
    assert(authority@ =~= rest@.take(slash as int));
    let path = if slash < n {
        rest.substring_char(slash + 1, n)
    } else {
        ""
    };
    proof {
        reveal_strlit("");
        if slash < n {
            assert(path@ =~= rest@.skip(slash + 1));
        } else {
            assert(path@ =~= Seq::<char>::empty());
        }
    }
    if slash == 0 {
        return None;
    }
    match find_last_char(authority, ':') {
        Some(colon) => {
            if colon == 0 {
                return None;
            }
            let host = authority.substring_char(0, colon);
            let port_text = authority.substring_char(colon + 1, slash);
            assert(host@ =~= authority@.take(colon as int));
            assert(port_text@ =~= authority@.skip(colon + 1));
            Some(
                WsUrlParts {
                    scheme: scheme.to_owned(),
                    host: host.to_owned(),
                    port: parse_u16(port_text),
                    path: path.to_owned(),
                },
            )
        },
        None => Some(
            WsUrlParts {
                scheme: scheme.to_owned(),
                host: authority.to_owned(),
                port: None,
                path: path.to_owned(),
            },
        ),
    }
}

/// Takes a websocket address apart.
pub fn parse_ws_url(ws_url: &str) -> (r: Option<WsUrlParts>)
    ensures
        match r {
            Some(parts) => url_in(ws_url@) == Some(parts@),
            None => url_in(ws_url@) is None,
        },
{
    let t = trim_text(ws_url);
    let n: usize = t.unicode_len();
    proof {
        reveal_strlit("ws://");
        reveal_strlit("wss://");
    }
    if starts_with(t, "ws://") {
        let rest = t.substring_char(5, n);
        assert(rest@ =~= t@.skip(5));
        parse_ws_url_after("ws", rest)
    } else if starts_with(t, "wss://") {
        let rest = t.substring_char(6, n);
        assert(rest@ =~= t@.skip(6));
        parse_ws_url_after("wss", rest)
    } else {
        None
    }
}

/// Reads a control address.
pub fn parse_control_ws_url(ws_url: &str) -> (r: Option<ControlWsUrl>)
    ensures
        match r {
            Some(url) => control_url_in(ws_url@) == Some(url@),
            None => control_url_in(ws_url@) is None,
        },
{
    let parsed = match parse_ws_url(ws_url) {
        Some(parsed) => parsed,
        None => return None,
    };
    let port: u16 = parsed.port.unwrap_or(DEFAULT_BIND_PORT);
    let path = trim_matches(parsed.path.as_str(), CharClass::Only('/'));
    let n: usize = path.unicode_len();
    let slash: usize = find_char(path, '/');
    proof {
        text::lemma_first_at_facts(path@, '/');
        if path@.contains('/') {
            let i = choose|i: int| 0 <= i < path@.len() && path@[i] == '/';
            assert(slash <= i);
        }
    }
    if n == 0 || slash < n {
        return None;
    }
    Some(
        ControlWsUrl {
            scheme: parsed.scheme,
            host: parsed.host,
            port,
            session_id: path.to_owned(),
        },
    )
}

/// Whether the address is of this machine only. A text that is no websocket
/// address counts as such.
pub open spec fn is_loopback_url(ws_url: Seq<char>) -> bool {
    match url_in(ws_url) {
        Some(url) => text::lower(url.host) == "localhost"@ || url.host == "127.0.0.1"@ || url.host
            == "::1"@,
        None => true,
    }
}

pub fn ws_url_uses_loopback(ws_url: &str) -> (r: bool)
    ensures
        r == is_loopback_url(ws_url@),
{
    match parse_ws_url(ws_url) {
        Some(parts) => same_text(to_lower(parts.host.as_str()).as_str(), "localhost") || same_text(
            parts.host.as_str(),
            "127.0.0.1",
        ) || same_text(parts.host.as_str(), "::1"),
        None => true,
    }
}

/// Writes a websocket address.
pub fn build_ws_url(scheme: &str, host: &str, port: u16, path: &str) -> (r: String)
    ensures
        r@ == url_text(scheme@, host@, port, path@),
{
    let mut r = scheme.to_owned();
    r.append("://");
    r.append(trim_text(host));
    r.append(":");
    push_decimal(&mut r, port as u64);
    r.append("/");
    r.append(trim_start_matches(trim_text(path), CharClass::Only('/')));
    r
}

/// The address of a new session on `host`.
pub fn ws_url_for_host_and_new_session(host: &str) -> (r: String)
    ensures
        exists|id: Seq<char>| #[trigger]
            session_id::is_session_id(id) && r@ == session_url(host@, id),
{
    let id = new_session_id();
    build_ws_url("ws", host, DEFAULT_BIND_PORT, id.as_str())
}

/// The address of a new session on the detected host, or on the loopback
/// address where none was detected.
pub fn default_ws_url(detected_host: Option<&str>) -> (r: String)
    ensures
        exists|id: Seq<char>| #[trigger]
            session_id::is_session_id(id) && r@ == session_url(
                host_or_fallback(text::some_text(detected_host)),
                id,
            ),
{
    ws_url_for_host_and_new_session(
        match detected_host {
            Some(host) => host,
            None => FALLBACK_HOST,
        },
    )
}

/// Puts another host into an address, with `session_id` where it has no path.
pub fn replace_host_with_session(ws_url: &str, new_host: &str, session_id: &str) -> (r: String)
    ensures
        r@ == with_host(ws_url@, new_host@, session_id@),
{
    match parse_ws_url(ws_url) {
        Some(parts) => {
            let port: u16 = parts.port.unwrap_or(DEFAULT_BIND_PORT);
            let path = if parts.path.as_str().unicode_len() == 0 {
                session_id
            } else {
                parts.path.as_str()
            };
            build_ws_url(parts.scheme.as_str(), new_host, port, path)
        },
        None => build_ws_url("ws", new_host, DEFAULT_BIND_PORT, session_id),
    }
}

/// Puts another host into an address, with a new session where it has no path.
pub fn replace_host_in_ws_url(ws_url: &str, new_host: &str) -> (r: String)
    ensures
        exists|id: Seq<char>| #[trigger]
            session_id::is_session_id(id) && r@ == with_host(ws_url@, new_host@, id),
{
    let id = new_session_id();
    replace_host_with_session(ws_url, new_host, id.as_str())
}

/// Puts the detected host into an address, if there is one.
pub fn auto_detect_lan_ws_url(ws_url: &str, detected_host: Option<&str>) -> (r: Option<String>)
    ensures
        match detected_host {
            Some(host) => r is Some && exists|id: Seq<char>| #[trigger]
                session_id::is_session_id(id) && r->0@ == with_host(ws_url@, host@, id),
            None => r is None,
        },
{
    match detected_host {
        Some(host) => Some(replace_host_in_ws_url(ws_url, host)),
        None => None,
    }
}

/// Puts `session_id` in place of the last path segment; a text without one
/// gives the address of that session on the detected host.
pub fn rotate_session_to(ws_url: &str, session_id: &str, detected_host: Option<&str>) -> (r: String)
    ensures
        r@ == with_session(
            ws_url@,
            session_id@,
            session_url(host_or_fallback(text::some_text(detected_host)), session_id@),
        ),
{
    let t = trim_text(ws_url);
    match find_last_char(t, '/') {
        Some(slash) => {
            let base = t.substring_char(0, slash);
            assert(base@ =~= t@.take(slash as int));
            if starts_with(base, "ws://") || starts_with(base, "wss://") {
                let mut r = base.to_owned();
                r.append("/");
                r.append(session_id);
                return r;
            }
        },
        None => {},
    }
    build_ws_url(
        "ws",
        match detected_host {
            Some(host) => host,
            None => FALLBACK_HOST,
        },
        DEFAULT_BIND_PORT,
        session_id,
    )
}

/// Gives an address a new session.
pub fn rotate_session_id_in_ws_url(ws_url: &str, detected_host: Option<&str>) -> (r: String)
    ensures
        exists|id: Seq<char>| #[trigger]
            session_id::is_session_id(id) && r@ == with_session(
                ws_url@,
                id,
                session_url(host_or_fallback(text::some_text(detected_host)), id),
            ),
{
    let id = new_session_id();
    rotate_session_to(ws_url, id.as_str(), detected_host)
}

/// What the pairing code says.
pub open spec fn qr_payload(ws_url: Seq<char>) -> Seq<char> {
    "https://www.dungeon-lab.com/app-download.php#DGLAB-SOCKET#"@ + text::trimmed(ws_url)
}

pub fn build_qr_payload(ws_url: &str) -> (r: String)
    ensures
        r@ == qr_payload(ws_url@),
{
    let mut r = DGLAB_QR_PREFIX.to_owned();
    r.append(trim_text(ws_url));
    r
}

/// A host that can stand in an address: not blank and without a slash.
pub open spec fn is_host(host: Seq<char>) -> bool {
    text::trimmed(host).len() > 0 && !text::trimmed(host).contains('/')
}

proof fn lemma_authority(host: Seq<char>, port: u16, path: Seq<char>, scheme: Seq<char>)
    requires
        host.len() > 0,
        !host.contains('/'),
    ensures
        parts_after(scheme, host + seq![':'] + text::decimal(port as nat) + seq!['/'] + path) == Some(
            WsUrl { scheme, host, port: Some(port), path },
        ),
{
    let digits = text::decimal(port as nat);
    let authority = host + seq![':'] + digits;
    let rest = authority + seq!['/'] + path;
    text::lemma_decimal_number(port as nat);
    text::lemma_read_decimal(port as nat, 65535);
    assert forall|j: int| 0 <= j < authority.len() implies rest[j] != '/' by {
        if j < host.len() {
            assert(host.contains(host[j]));
        } else if j > host.len() {
            assert(text::is_digit(digits[j - host.len() - 1]));
        }
    }
    text::lemma_first_at(rest, '/', authority.len() as int);
    assert(rest.take(authority.len() as int) =~= authority);
    assert(rest.skip(authority.len() as int + 1) =~= path);
    assert forall|j: int| host.len() < j < authority.len() implies authority[j] != ':' by {
        assert(text::is_digit(digits[j - host.len() - 1]));
    }
    text::lemma_last_at(authority, ':', host.len() as int);
    assert(authority.take(host.len() as int) =~= host);
    assert(authority.skip(host.len() as int + 1) =~= digits);
}

/// An address that was written is read back, its host and path tidied.
pub proof fn law_written_url_is_read_back(
    secure: bool,
    host: Seq<char>,
    port: u16,
    path: Seq<char>,
)
    requires
        is_host(host),
    ensures
        ({
            let scheme = if secure {
                "wss"@
            } else {
                "ws"@
            };
            url_in(url_text(scheme, host, port, path)) == Some(
                WsUrl {
                    scheme,
                    host: text::trimmed(host),
                    port: Some(port),
                    path: text::trim_start(text::trimmed(path), CharClass::Only('/')),
                },
            )
        }),
{
    reveal_strlit("ws");
    reveal_strlit("wss");
    reveal_strlit("ws://");
    reveal_strlit("wss://");
    reveal_strlit("://");
    reveal_strlit(":");
    reveal_strlit("/");
    let scheme = if secure {
        "wss"@
    } else {
        "ws"@
    };
    let h = text::trimmed(host);
    let digits = text::decimal(port as nat);
    let tidy = text::trimmed(path);
    let p = text::trim_start(tidy, CharClass::Only('/'));
    let s = url_text(scheme, host, port, path);
    text::lemma_trim_facts(path, CharClass::Space);
    text::lemma_trim_start_facts(tidy, CharClass::Only('/'));
    if p.len() > 0 {
        assert(p.last() == tidy.last());
        assert(s.last() == p.last());
    } else {
        assert(s.last() == '/');
    }
    assert(s[0] == 'w');
    assert(text::trimmed(s) == s);
    let rest = h + seq![':'] + digits + seq!['/'] + p;
    lemma_authority(h, port, p, scheme);
    if secure {
        assert(s.take(6) =~= "wss://"@);
        assert(s[2] == 's');
        assert(s.take(5)[2] == 's');
        assert("ws://"@[2] == ':');
        assert(s.skip(6) =~= rest);
    } else {
        assert(s.take(5) =~= "ws://"@);
        assert(s.skip(5) =~= rest);
    }
}

proof fn lemma_session_id_is_plain(id: Seq<char>)
    requires
        session_id::is_session_id(id),
    ensures
        !id.contains('/'),
        text::trimmed(id) == id,
        text::trim(id, CharClass::Only('/')) == id,
        text::trim_start(id, CharClass::Only('/')) == id,
{
    assert forall|i: int| 0 <= i < id.len() implies id[i] != '/' by {}
    assert(session_id::is_low_hex(id[0]) && session_id::is_low_hex(id[35]));
}

/// The address of a new session is a control address of that session.
pub proof fn law_session_url_names_its_session(host: Seq<char>, id: Seq<char>)
    requires
        is_host(host),
        session_id::is_session_id(id),
    ensures
        control_url_in(session_url(host, id)) == Some(
            ControlUrl {
                scheme: "ws"@,
                host: text::trimmed(host),
                port: DEFAULT_BIND_PORT,
                session_id: id,
            },
        ),
{
    law_written_url_is_read_back(false, host, DEFAULT_BIND_PORT, id);
    lemma_session_id_is_plain(id);
}

/// Replacing the host of a control address keeps its scheme, port and session.
/// A path that begins with white space would lose it.
pub proof fn law_replacing_host_keeps_the_rest(ws_url: Seq<char>, new_host: Seq<char>, id: Seq<char>)
    requires
        control_url_in(ws_url) is Some,
        !text::is_space(url_in(ws_url)->0.path[0]),
        is_host(new_host),
    ensures
        control_url_in(with_host(ws_url, new_host, id)) == Some(
            ControlUrl { host: text::trimmed(new_host), ..control_url_in(ws_url)->0 },
        ),
{
    let url = url_in(ws_url)->0;
    let slash = CharClass::Only('/');
    let path = url.path;
    let port = url.port.unwrap_or(DEFAULT_BIND_PORT);
    lemma_path_is_trimmed(ws_url);
    assert(text::trimmed(path) == path);
    reveal_strlit("ws");
    reveal_strlit("wss");
    assert("ws"@.len() != "wss"@.len());
    law_written_url_is_read_back(url.scheme == "wss"@, new_host, port, path);
    lemma_trim_after_trim_start(path, slash);
}

proof fn lemma_trim_after_trim_start(s: Seq<char>, k: CharClass)
    ensures
        text::trim(text::trim_start(s, k), k) == text::trim(s, k),
{
    text::lemma_trim_start_facts(s, k);
}

proof fn lemma_path_is_trimmed(ws_url: Seq<char>)
    requires
        url_in(ws_url) is Some,
    ensures
        ({
            let path = url_in(ws_url)->0.path;
            path.len() > 0 ==> !text::is_space(path.last())
        }),
        url_in(ws_url)->0.scheme == "ws"@ || url_in(ws_url)->0.scheme == "wss"@,
{
    let t = text::trimmed(ws_url);
    text::lemma_trim_facts(ws_url, CharClass::Space);
    reveal_strlit("ws://");
    reveal_strlit("wss://");
    let path = url_in(ws_url)->0.path;
    let rest = if text::has_prefix(t, "ws://"@) {
        t.skip(5)
    } else {
        t.skip(6)
    };
    text::lemma_first_at_facts(rest, '/');
    if path.len() > 0 {
        assert(path.last() == rest.last());
        assert(rest.last() == t.last());
    }
}

proof fn lemma_same_authority(scheme: Seq<char>, rest: Seq<char>, tail: Seq<char>)
    requires
        parts_after(scheme, rest) is Some,
        text::first_at(rest, '/') < rest.len(),
    ensures
        parts_after(scheme, rest.take(text::first_at(rest, '/')) + seq!['/'] + tail) == Some(
            WsUrl { path: tail, ..parts_after(scheme, rest)->0 },
        ),
{
    let slash = text::first_at(rest, '/');
    text::lemma_first_at_facts(rest, '/');
    let authority = rest.take(slash);
    let changed = authority + seq!['/'] + tail;
    assert forall|j: int| 0 <= j < slash implies changed[j] != '/' by {
        assert(changed[j] == rest[j]);
    }
    text::lemma_first_at(changed, '/', slash);
    assert(changed.take(slash) =~= authority);
    assert(changed.skip(slash + 1) =~= tail);
}

/// Rotating the session of an address with a path of one segment keeps its
/// scheme, host and port.
pub proof fn law_rotating_keeps_the_address(ws_url: Seq<char>, id: Seq<char>, fallback: Seq<char>)
    requires
        url_in(ws_url) is Some,
        url_in(ws_url)->0.path.len() > 0,
        !url_in(ws_url)->0.path.contains('/'),
        session_id::is_session_id(id),
    ensures
        url_in(with_session(ws_url, id, fallback)) == Some(WsUrl { path: id, ..url_in(ws_url)->0 }),
        control_url_in(with_session(ws_url, id, fallback)) == Some(
            ControlUrl { session_id: id, ..control_url_in(ws_url)->0 },
        ),
{
    let t = text::trimmed(ws_url);
    let url = url_in(ws_url)->0;
    reveal_strlit("ws://");
    reveal_strlit("wss://");
    reveal_strlit("/");
    let secure = !text::has_prefix(t, "ws://"@);
    let n: int = if secure {
        6
    } else {
        5
    };
    let scheme = if secure {
        "wss"@
    } else {
        "ws"@
    };
    let mark = if secure {
        "wss://"@
    } else {
        "ws://"@
    };
    let rest = t.skip(n);
    let slash = text::first_at(rest, '/');
    text::lemma_first_at_facts(rest, '/');
    let path = url.path;
    assert forall|j: int| n + slash < j < t.len() implies t[j] != '/' by {
        assert(path.contains(path[j - n - slash - 1]));
        assert(path[j - n - slash - 1] == t[j]);
    }
    assert(t[n + slash] == rest[slash]);
    text::lemma_last_at(t, '/', n + slash);
    let base = t.take(n + slash);
    assert(base.take(n) =~= mark);
    if secure {
        assert(t.take(6)[2] == 's');
        assert(base.take(5)[2] == t[2]);
        assert("ws://"@[2] == ':');
    }
    let changed = base + "/"@ + id;
    assert(with_session(ws_url, id, fallback) == changed);
    assert(changed.take(n) =~= mark);
    if secure {
        assert(changed.take(5)[2] == 's');
    }
    lemma_session_id_is_plain(id);
    assert(changed.last() == id[35]);
    assert(changed[0] == mark[0]);
    assert(mark[0] == 'w');
    assert(session_id::is_low_hex(id[35]));
    assert(text::trimmed(changed) == changed);
    assert(changed.skip(n) =~= rest.take(slash) + seq!['/'] + id);
    lemma_same_authority(scheme, rest, id);
    lemma_plain_path(path);
}

proof fn lemma_plain_path(path: Seq<char>)
    requires
        path.len() > 0,
        !path.contains('/'),
    ensures
        text::trim(path, CharClass::Only('/')) == path,
{
    assert(path.contains(path[0]));
    assert(path.contains(path[path.len() - 1]));
}

proof fn lemma_split_authority(rest: Seq<char>, authority: Seq<char>, path: Seq<char>)
    requires
        !authority.contains('/'),
        rest == authority + seq!['/'] + path || (rest == authority && path.len() == 0),
    ensures
        rest.take(text::first_at(rest, '/')) == authority,
        (if text::first_at(rest, '/') < rest.len() {
            rest.skip(text::first_at(rest, '/') + 1)
        } else {
            seq![]
        }) == path,
{
    let n = authority.len() as int;
    assert forall|j: int| 0 <= j < n implies rest[j] != '/' by {
        assert(authority.contains(authority[j]));
        assert(rest[j] == authority[j]);
    }
    if rest == authority + seq!['/'] + path {
        assert(rest[n] == '/');
        text::lemma_first_at(rest, '/', n);
        assert(rest.take(n) =~= authority);
        assert(rest.skip(n + 1) =~= path);
    } else {
        text::lemma_first_at(rest, '/', n);
        assert(rest.take(n) =~= authority);
        assert(path =~= Seq::<char>::empty());
    }
}

/// Behind the scheme, what stands before the first slash is the host, with a port
/// behind its last colon if it has one; what follows the slash is the path. An
/// empty host is no address, and a port that is no number up to 65535 counts as
/// none.
pub proof fn law_address_has_host_port_and_path(
    scheme: Seq<char>,
    host: Seq<char>,
    port: Seq<char>,
    path: Seq<char>,
    with_slash: bool,
)
    requires
        !host.contains('/'),
        !port.contains('/') && !port.contains(':'),
        with_slash || path.len() == 0,
    ensures
        ({
            let end = if with_slash {
                seq!['/'] + path
            } else {
                path
            };
            let url = parts_after(scheme, host + seq![':'] + port + end);
            &&& host.len() == 0 ==> url is None
            &&& host.len() > 0 ==> url is Some && url->0.scheme == scheme && url->0.host == host
                && url->0.path == path
            &&& host.len() > 0 ==> (match url->0.port {
                Some(n) => text::read_decimal(port, 65535) == Some(n as nat),
                None => text::read_decimal(port, 65535) is None,
            })
        }),
        ({
            let end = if with_slash {
                seq!['/'] + path
            } else {
                path
            };
            let url = parts_after(scheme, host + end);
            &&& host.len() == 0 ==> url is None
            &&& host.len() > 0 && !host.contains(':') ==> url == Some(
                WsUrl { scheme, host, port: None, path },
            )
        }),
{
    let end = if with_slash {
        seq!['/'] + path
    } else {
        path
    };
    let authority = host + seq![':'] + port;
    let n = host.len() as int;
    assert forall|j: int| 0 <= j < authority.len() implies authority[j] != '/' by {
        if j < n {
            assert(host.contains(host[j]));
        } else if j > n {
            assert(port.contains(port[j - n - 1]));
        }
    }
    assert(!authority.contains('/'));
    let rest = authority + end;
    assert(with_slash ==> rest =~= authority + seq!['/'] + path);
    assert(!with_slash ==> rest =~= authority);
    lemma_split_authority(rest, authority, path);
    assert(host + seq![':'] + port + end =~= rest);
    assert forall|j: int| n < j < authority.len() implies authority[j] != ':' by {
        assert(port.contains(port[j - n - 1]));
    }
    assert(authority[n] == ':');
    text::lemma_last_at(authority, ':', n);
    assert(authority.take(n) =~= host);
    assert(authority.skip(n + 1) =~= port);
    let plain = host + end;
    assert(with_slash ==> plain =~= host + seq!['/'] + path);
    assert(!with_slash ==> plain =~= host);
    lemma_split_authority(plain, host, path);
    if !host.contains(':') {
        assert forall|j: int| -1 < j < host.len() implies host[j] != ':' by {
            assert(host.contains(host[j]));
        }
        text::lemma_last_at(host, ':', -1);
    }
}

/// An address begins with `ws://` or `wss://`, white space before it aside; no
/// other text is one.
pub proof fn law_addresses_begin_with_their_scheme(ws_url: Seq<char>, rest: Seq<char>)
    ensures
        text::trimmed(ws_url) == "ws://"@ + rest ==> url_in(ws_url) == parts_after("ws"@, rest),
        text::trimmed(ws_url) == "wss://"@ + rest ==> url_in(ws_url) == parts_after("wss"@, rest),
        !text::has_prefix(text::trimmed(ws_url), "ws://"@) && !text::has_prefix(
            text::trimmed(ws_url),
            "wss://"@,
        ) ==> url_in(ws_url) is None,
{
    reveal_strlit("ws://");
    reveal_strlit("wss://");
    let t = text::trimmed(ws_url);
    if t == "ws://"@ + rest {
        assert(t.take(5) =~= "ws://"@);
        assert(t.skip(5) =~= rest);
    }
    if t == "wss://"@ + rest {
        assert(t.take(6) =~= "wss://"@);
        assert(t.skip(6) =~= rest);
        assert(t.take(5)[2] == 's');
        assert("ws://"@[2] == ':');
    }
}

/// A control address is an address whose path is one segment, slashes around it
/// aside; without a port it has the port 28846.
pub proof fn law_control_address_has_one_segment(ws_url: Seq<char>)
    ensures
        control_url_in(ws_url) is Some <==> url_in(ws_url) is Some && {
            let id = text::trim(url_in(ws_url)->0.path, CharClass::Only('/'));
            id.len() > 0 && !id.contains('/')
        },
        control_url_in(ws_url) matches Some(url) ==> {
            let parts = url_in(ws_url)->0;
            &&& url.scheme == parts.scheme
            &&& url.host == parts.host
            &&& parts.port is Some ==> url.port == parts.port->0
            &&& parts.port is None ==> url.port == 28846
            &&& url.session_id == text::trim(parts.path, CharClass::Only('/'))
        },
{
}

/// An address is of this machine only where its host is localhost, in any case,
/// or one of the two loopback addresses; a text that is no address counts so too.
pub proof fn law_loopback_hosts(ws_url: Seq<char>)
    ensures
        is_loopback_url(ws_url) <==> (url_in(ws_url) matches Some(url) ==> {
            ||| text::lower(url.host) == "localhost"@
            ||| url.host == "127.0.0.1"@
            ||| url.host == "::1"@
        }),
{
}

/// A written address has its host trimmed and its path without leading slashes;
/// that of a session is at the usual port.
pub proof fn law_addresses_are_written(
    scheme: Seq<char>,
    host: Seq<char>,
    port: u16,
    path: Seq<char>,
)
    ensures
        url_text(scheme, host, port, path) == scheme + "://"@ + text::trimmed(host) + ":"@
            + text::decimal(port as nat) + "/"@ + text::trim_start(
            text::trimmed(path),
            CharClass::Only('/'),
        ),
        session_url(host, path) == "ws://"@ + text::trimmed(host) + ":28846/"@ + text::trim_start(
            text::trimmed(path),
            CharClass::Only('/'),
        ),
        host_or_fallback(Some(host)) == host,
        host_or_fallback(None) == "127.0.0.1"@,
{
    reveal_strlit("ws");
    reveal_strlit("://");
    reveal_strlit("ws://");
    reveal_strlit(":");
    reveal_strlit("/");
    reveal_strlit(":28846/");
    text::law_decimal_notation(2, 8);
    text::law_decimal_notation(28, 8);
    text::law_decimal_notation(288, 4);
    text::law_decimal_notation(2884, 6);
    assert(text::decimal(28846) =~= seq!['2', '8', '8', '4', '6']);
    assert(session_url(host, path) =~= "ws://"@ + text::trimmed(host) + ":28846/"@
        + text::trim_start(text::trimmed(path), CharClass::Only('/')));
}

/// Another host takes the place of the present one and nothing else changes; what
/// an address lacks is filled in, and a text that is none becomes a new address.
pub proof fn law_only_the_host_is_replaced(ws_url: Seq<char>, host: Seq<char>, id: Seq<char>)
    ensures
        url_in(ws_url) is None ==> with_host(ws_url, host, id) == session_url(host, id),
        url_in(ws_url) matches Some(url) ==> {
            let port = if url.port is Some {
                url.port->0
            } else {
                28846u16
            };
            &&& url.path.len() > 0 ==> with_host(ws_url, host, id) == url_text(
                url.scheme,
                host,
                port,
                url.path,
            )
            &&& url.path.len() == 0 ==> with_host(ws_url, host, id) == url_text(
                url.scheme,
                host,
                port,
                id,
            )
        },
{
}

/// The session takes the place of what follows the last slash, where a websocket
/// scheme stands before it; any other text gives way to the fallback.
pub proof fn law_only_the_last_segment_is_rotated(
    ws_url: Seq<char>,
    base: Seq<char>,
    last: Seq<char>,
    id: Seq<char>,
    fallback: Seq<char>,
)
    requires
        !last.contains('/'),
        text::trimmed(ws_url) == base + "/"@ + last || (text::trimmed(ws_url) == last && base.len()
            == 0),
    ensures
        text::has_prefix(base, "ws://"@) || text::has_prefix(base, "wss://"@) ==> with_session(
            ws_url,
            id,
            fallback,
        ) == base + "/"@ + id,
        !text::has_prefix(base, "ws://"@) && !text::has_prefix(base, "wss://"@) ==> with_session(
            ws_url,
            id,
            fallback,
        ) == fallback,
{
    reveal_strlit("/");
    reveal_strlit("ws://");
    reveal_strlit("wss://");
    let t = text::trimmed(ws_url);
    let n = base.len() as int;
    if t == base + "/"@ + last {
        assert(t[n] == '/');
        assert forall|j: int| n < j < t.len() implies t[j] != '/' by {
            assert(last.contains(last[j - n - 1]));
            assert(t[j] == last[j - n - 1]);
        }
        text::lemma_last_at(t, '/', n);
        assert(t.take(n) =~= base);
    } else {
        assert forall|j: int| -1 < j < t.len() implies t[j] != '/' by {
            assert(last.contains(last[j]));
        }
        text::lemma_last_at(t, '/', -1);
    }
}

/// The pairing code is the download address of the app with the trimmed address
/// behind it.
pub proof fn law_pairing_code_ends_with_the_address(ws_url: Seq<char>)
    ensures
        qr_payload(ws_url) == "https://www.dungeon-lab.com/app-download.php#DGLAB-SOCKET#"@
            + text::trimmed(ws_url),
{
}

} // verus!
