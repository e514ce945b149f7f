//! Talking to a Tasmota device's `/cm` command endpoint.
//!
//! Tasmota returns HTTP 200 even for rejected or unknown commands, signalling the
//! failure only in the JSON body; [`check_command_error`] reads command success
//! from the payload, never from the HTTP status code. The HTTP exchange itself is
//! done by a [`Transport`]; this module builds the requests and interprets the
//! answers.

use vstd::prelude::*;
use crate::error::{Error, ErrorView};
use crate::json::{compact, jget, jstr, ostr, to_compact_string, Json};
use crate::text::{
    dec, dec_string, eq_ic, eq_ic_chars, is_ascii_ws, lower, lower_char, lower_s, push_char,
    string_of, to_chars,
};

verus! {

/// Optional web credentials for a device (Tasmota `WebPassword`).
#[derive(Debug, Clone, PartialEq, Eq)]
pub struct Credentials {
    pub user: String,
    pub password: String,
}

pub struct CredentialsView {
    pub user: Seq<char>,
    pub password: Seq<char>,
}

impl View for Credentials {
    type V = CredentialsView;

    open spec fn view(&self) -> CredentialsView {
        CredentialsView { user: self.user@, password: self.password@ }
    }
}

pub open spec fn creds_view(c: Option<Credentials>) -> Option<CredentialsView> {
    match c {
        Some(c) => Some(c@),
        None => None,
    }
}

/// A device address plus optional credentials.
#[derive(Debug, Clone, PartialEq, Eq)]
pub struct DeviceAddr {
    /// IP address or hostname (no scheme).
    pub host: String,
    pub credentials: Option<Credentials>,
}

pub struct DeviceAddrView {
    pub host: Seq<char>,
    pub credentials: Option<CredentialsView>,
}

impl View for DeviceAddr {
    type V = DeviceAddrView;

    open spec fn view(&self) -> DeviceAddrView {
        DeviceAddrView { host: self.host@, credentials: creds_view(self.credentials) }
    }
}

/// A copy of optional credentials.
pub fn copy_credentials(c: &Option<Credentials>) -> (r: Option<Credentials>)
    ensures
        creds_view(r) == creds_view(*c),
{
    match c {
        Some(c) => Some(Credentials { user: c.user.clone(), password: c.password.clone() }),
        None => None,
    }
}

impl DeviceAddr {
    /// An address for `host`, without credentials.
    pub fn new(host: &str) -> (r: DeviceAddr)
        ensures
            r@ == (DeviceAddrView { host: host@, credentials: None }),
    {
        DeviceAddr { host: String::from_str(host), credentials: None }
    }

    /// The same address with the given credentials.
    pub fn with_credentials(self, creds: Option<Credentials>) -> (r: DeviceAddr)
        ensures
            r@ == (DeviceAddrView { host: self@.host, credentials: creds_view(creds) }),
    {
        let mut a = self;
        a.credentials = creds;
        a
    }
}

/// The mathematical value of a command reply.
pub open spec fn reply_view(r: Result<Json, Error>) -> Result<Json, ErrorView> {
    match r {
        Ok(v) => Ok(v),
        Err(e) => Err(e@),
    }
}

/// The mathematical value of a download.
pub open spec fn bytes_view(r: Result<Vec<u8>, Error>) -> Result<Seq<u8>, ErrorView> {
    match r {
        Ok(v) => Ok(v@),
        Err(e) => Err(e@),
    }
}

/// The device interaction surface: how a command reaches a device and what comes
/// back. The command-line tool talks HTTP; tests use a scripted fake.
///
/// Each method's result is, by its `ensures`, an answer of this transport to exactly
/// the request made; what counts as an answer is the implementation's own predicate,
/// so the contracts of the operations built on a transport say which requests were
/// made and how the answers were used, whatever the answers were. An
/// implementation that does not define a predicate counts every reply as an answer:
/// it claims nothing about what its device says.
pub trait Transport {
    /// Whether `reply` is an answer of this transport to command `cmnd` at `addr`.
    open spec fn answers(&self, addr: DeviceAddrView, cmnd: Seq<char>, reply: Result<Json, ErrorView>) -> bool {
        true
    }

    /// Whether `reply` is an answer of this transport to a download of `path` at `addr`.
    open spec fn delivers(&self, addr: DeviceAddrView, path: Seq<char>, reply: Result<Seq<u8>, ErrorView>) -> bool {
        true
    }

    /// Whether `reply` is an answer of this transport to an upload of `data`.
    open spec fn accepts(
        &self,
        addr: DeviceAddrView,
        path: Seq<char>,
        field: Seq<char>,
        filename: Seq<char>,
        data: Seq<u8>,
        reply: Result<Json, ErrorView>,
    ) -> bool {
        true
    }

    /// Sends a Tasmota command (e.g. `Status 0`, `Power TOGGLE`) and returns the JSON
    /// body, having verified the device did not reject it.
    fn command(&self, addr: &DeviceAddr, cmnd: &str) -> (r: Result<Json, Error>)
        ensures
            self.answers(addr@, cmnd@, reply_view(r)),
    ;

    /// Downloads raw bytes from a device path (e.g. the `/dl` config backup).
    fn download(&self, addr: &DeviceAddr, path: &str) -> (r: Result<Vec<u8>, Error>)
        ensures
            self.delivers(addr@, path@, bytes_view(r)),
    ;

    /// Uploads bytes as `multipart/form-data` to a device path; the answer is the
    /// response body as a JSON string value.
    fn upload(
        &self,
        addr: &DeviceAddr,
        path: &str,
        field: &str,
        filename: &str,
        data: &[u8],
    ) -> (r: Result<Json, Error>)
        ensures
            self.accepts(addr@, path@, field@, filename@, data@, reply_view(r)),
    ;
}

/// The characters a query component keeps as they are (RFC 3986 unreserved).
pub open spec fn unreserved(b: u8) -> bool {
    ||| 0x41 <= b <= 0x5A
    ||| 0x61 <= b <= 0x7A
    ||| 0x30 <= b <= 0x39
    ||| b == 0x2D
    ||| b == 0x5F
    ||| b == 0x2E
    ||| b == 0x7E
}

/// The uppercase hexadecimal digit of `d < 16`.
pub open spec fn hex_upper(d: nat) -> char {
    if d < 10 { (('0' as u32) + d) as char } else { (('A' as u32) + d - 10) as char }
}

pub open spec fn encode_byte(b: u8) -> Seq<char> {
    if unreserved(b) {
        seq![b as char]
    } else {
        seq!['%', hex_upper((b / 16) as nat), hex_upper((b % 16) as nat)]
    }
}

/// Percent-encoding of a byte sequence.
pub open spec fn percent_encode(bs: Seq<u8>) -> Seq<char>
    decreases bs.len(),
{
    if bs.len() == 0 {
        Seq::empty()
    } else {
        percent_encode(bs.drop_last()) + encode_byte(bs.last())
    }
}

/// The query-string encoding of a text: each byte of its UTF-8 encoding kept when
/// unreserved, otherwise written `%XX`.
pub open spec fn encoded(s: Seq<char>) -> Seq<char> {
    percent_encode(vstd::utf8::encode_utf8(s))
}

fn hex_up(d: u8) -> (r: char)
    requires
        d < 16,
    ensures
        r == hex_upper(d as nat),
{
    if d < 10 {
        (d + 48) as char
    } else {
        (d + 55) as char
    }
}

/// Percent-encodes a query-string component, leaving only the unreserved set.
pub fn encode_component(s: &str) -> (r: String)
    ensures
        r@ == encoded(s@),
{
    let bs = s.as_bytes();
    let mut out = String::new();
    let mut i: usize = 0;
    while i < bs.len()
        invariant
            i <= bs.len(),
            bs@ == vstd::utf8::encode_utf8(s@),
            out@ == percent_encode(bs@.take(i as int)),
        decreases bs.len() - i,
    {
        let b = bs[i];
        assert(bs@.take(i + 1).drop_last() =~= bs@.take(i as int));
        let ghost before = out@;
        if (0x41 <= b && b <= 0x5A) || (0x61 <= b && b <= 0x7A) || (0x30 <= b && b <= 0x39) || b
            == 0x2D || b == 0x5F || b == 0x2E || b == 0x7E {
            push_char(&mut out, b as char);
        } else {
            push_char(&mut out, '%');
            push_char(&mut out, hex_up(b / 16));
            push_char(&mut out, hex_up(b % 16));
        }
        assert(out@ =~= before + encode_byte(b));
        i = i + 1;
    }
    assert(bs@.take(bs.len() as int) =~= bs@);
    out
}

/// The `/cm` URL for a command, with the credentials as query parameters.
pub open spec fn command_url_of(addr: DeviceAddrView, cmnd: Seq<char>) -> Seq<char> {
    let base = "http://"@ + addr.host + "/cm?cmnd="@ + encoded(cmnd);
    match addr.credentials {
        Some(c) => base + "&user="@ + encoded(c.user) + "&password="@ + encoded(c.password),
        None => base,
    }
}

/// Builds the `/cm` URL for a command.
pub fn command_url(addr: &DeviceAddr, cmnd: &str) -> (r: String)
    ensures
        r@ == command_url_of(addr@, cmnd@),
{
    let mut url = String::from_str("http://");
    url.append(addr.host.as_str());
    url.append("/cm?cmnd=");
    let e = encode_component(cmnd);
    url.append(e.as_str());
    if let Some(c) = &addr.credentials {
        url.append("&user=");
        let u = encode_component(c.user.as_str());
        url.append(u.as_str());
        url.append("&password=");
        let p = encode_component(c.password.as_str());
        url.append(p.as_str());
    }
    url
}

/// The URL of a device path, with the credentials as query parameters (a best
/// effort for devices that accept them outside the web form login).
pub open spec fn path_url_of(addr: DeviceAddrView, path: Seq<char>) -> Seq<char> {
    let base = "http://"@ + addr.host + path;
    match addr.credentials {
        Some(c) => base + "?user="@ + encoded(c.user) + "&password="@ + encoded(c.password),
        None => base,
    }
}

/// Builds the URL of a device path (download and upload).
pub fn path_url(addr: &DeviceAddr, path: &str) -> (r: String)
    ensures
        r@ == path_url_of(addr@, path@),
{
    let mut url = String::from_str("http://");
    url.append(addr.host.as_str());
    url.append(path);
    if let Some(c) = &addr.credentials {
        url.append("?user=");
        let u = encode_component(c.user.as_str());
        url.append(u.as_str());
        url.append("&password=");
        let p = encode_component(c.password.as_str());
        url.append(p.as_str());
    }
    url
}

/// Whether `needle` occurs in `hay`.
pub open spec fn contains(hay: Seq<char>, needle: Seq<char>) -> bool {
    exists|i: int| 0 <= i <= hay.len() - needle.len() && #[trigger] hay.subrange(i, i + needle.len()) == needle
}

pub fn contains_chars(hay: &[char], needle: &[char]) -> (r: bool)
    ensures
        r == contains(hay@, needle@),
{
    if needle.len() > hay.len() {
        return false;
    }
    let mut i: usize = 0;
    while i <= hay.len() - needle.len()
        invariant
            needle.len() <= hay.len(),
            i <= hay.len() - needle.len() + 1,
            forall|k: int| 0 <= k < i ==> #[trigger] hay@.subrange(k, k + needle@.len()) != needle@,
        decreases hay.len() - needle.len() + 1 - i,
    {
        let mut j: usize = 0;
        let mut same = true;
        while j < needle.len()
            invariant
                i + needle.len() <= hay.len(),
                j <= needle.len(),
                same == forall|m: int| 0 <= m < j ==> hay@[i + m] == needle@[m],
            decreases needle.len() - j,
        {
            if hay[i + j] != needle[j] {
                same = false;
            }
            j = j + 1;
        }
        if same {
            assert(hay@.subrange(i as int, i + needle@.len()) =~= needle@);
            return true;
        } else {
            assert(hay@.subrange(i as int, i + needle@.len()) != needle@) by {
                let m = choose|m: int| 0 <= m < needle.len() && hay@[i + m] != needle@[m];
                assert(hay@.subrange(i as int, i + needle@.len())[m] == hay@[i + m]);
            }
        }
        i = i + 1;
    }
    false
}

pub fn lower_chars(s: &[char]) -> (r: Vec<char>)
    ensures
        r@ == lower_s(s@),
{
    let mut r: Vec<char> = Vec::new();
    let mut i: usize = 0;
    while i < s.len()
        invariant
            i <= s.len(),
            r@ == lower_s(s@.take(i as int)),
        decreases s.len() - i,
    {
        r.push(lower_char(s[i]));
        assert(lower_s(s@.take(i + 1)) =~= lower_s(s@.take(i as int)).push(lower(s@[i as int])));
        i = i + 1;
    }
    assert(s@.take(s.len() as int) =~= s@);
    r
}

/// The value of the first member whose name is `error` in any ASCII case.
pub open spec fn error_member(es: Seq<(String, Json)>) -> Option<Json>
    decreases es.len(),
{
    if es.len() == 0 {
        None
    } else if eq_ic(es[0].0@, "error"@) {
        Some(es[0].1)
    } else {
        error_member(es.drop_first())
    }
}

/// The text a reported error value shows: a string as is, any other value as JSON.
pub open spec fn error_detail(v: Json) -> Seq<char> {
    match jstr(v) {
        Some(s) => s,
        None => compact(v),
    }
}

/// The failure a 200 response body reports for the command `cmnd`, if any: a
/// `WARNING` about a user or password is an authentication failure; a `Command` of
/// `Unknown` or `Error` (any case), or a root-level `error` member (any case), is a
/// rejection.
pub open spec fn command_error_of(value: Json, cmnd: Seq<char>) -> Option<ErrorView> {
    let warning = ostr(jget(value, "WARNING"@));
    let command = ostr(jget(value, "Command"@));
    if warning is Some && (contains(lower_s(warning->0), "password"@) || contains(
        lower_s(warning->0),
        "user"@,
    )) {
        Some(ErrorView::Auth("device requires authentication: "@ + warning->0))
    } else if command is Some && (eq_ic(command->0, "unknown"@) || eq_ic(command->0, "error"@)) {
        Some(ErrorView::CommandRejected(cmnd, "device reported Command="@ + command->0))
    } else {
        match value {
            Json::Object(es) => match error_member(es@) {
                Some(v) => Some(
                    ErrorView::CommandRejected(cmnd, "device reported error: "@ + error_detail(v)),
                ),
                None => None,
            },
            _ => None,
        }
    }
}

fn first_error_member(es: &Vec<(String, Json)>) -> (r: Option<&Json>)
    ensures
        match r {
            Some(v) => error_member(es@) == Some(*v),
            None => error_member(es@) is None,
        },
{
    let mut i: usize = 0;
    assert(es@.skip(0) =~= es@);
    while i < es.len()
        invariant
            i <= es.len(),
            error_member(es@) == error_member(es@.skip(i as int)),
        decreases es.len() - i,
    {
        assert(es@.skip(i as int).drop_first() =~= es@.skip(i + 1));
        let e = &es[i];
        let k = to_chars(e.0.as_str());
        if crate::text::chars_eq_ic_str(k.as_slice(), "error") {
            assert(es@.skip(i as int)[0] == es@[i as int]);
            return Some(&e.1);
        }
        i = i + 1;
    }
    None
}

/// Detects a command-level failure reported in a 200 response body.
///
/// Tasmota answers an unknown command with `{"Command":"Unknown"}` and a missing
/// password with a `WARNING` about needing user and password.
pub fn check_command_error(value: &Json, cmnd: &str) -> (r: Result<(), Error>)
    ensures
        match r {
            Ok(_) => command_error_of(*value, cmnd@) is None,
            Err(e) => command_error_of(*value, cmnd@) == Some(e@),
        },
{
    if let Some(w) = value.get("WARNING") {
        if let Some(warning) = w.as_str() {
            let wc = to_chars(warning);
            let lower = lower_chars(wc.as_slice());
            let pw = to_chars("password");
            let us = to_chars("user");
            if contains_chars(lower.as_slice(), pw.as_slice()) || contains_chars(
                lower.as_slice(),
                us.as_slice(),
            ) {
                let mut m = String::from_str("device requires authentication: ");
                m.append(warning);
                return Err(Error::Auth { message: m });
            }
        }
    }
    if let Some(c) = value.get("Command") {
        if let Some(cmd) = c.as_str() {
            let cc = to_chars(cmd);
            if crate::text::chars_eq_ic_str(cc.as_slice(), "unknown")
                || crate::text::chars_eq_ic_str(cc.as_slice(), "error") {
                let mut m = String::from_str("device reported Command=");
                m.append(cmd);
                return Err(Error::CommandRejected { command: String::from_str(cmnd), message: m });
            }
        }
    }
    if let Json::Object(es) = value {
        if let Some(v) = first_error_member(es) {
            let detail = match v.as_str() {
                Some(s) => String::from_str(s),
                None => to_compact_string(v),
            };
            let mut m = String::from_str("device reported error: ");
            m.append(detail.as_str());
            return Err(Error::CommandRejected { command: String::from_str(cmnd), message: m });
        }
    }
    Ok(())
}


/// Whether `s` starts with `key`, ignoring ASCII case.
pub open spec fn starts_with_ic(s: Seq<char>, key: Seq<char>) -> bool {
    s.len() >= key.len() && eq_ic(s.take(key.len() as int), key)
}

/// The length of the credential key (`user=` or `password=`, any ASCII case) that
/// `s` starts with, or 0.
pub open spec fn cred_key_len(s: Seq<char>) -> nat {
    if starts_with_ic(s, "user="@) {
        5
    } else if starts_with_ic(s, "password="@) {
        9
    } else {
        0
    }
}

/// A character that ends a credential value: `&`, `:` or ASCII whitespace.
pub open spec fn ends_value(c: char) -> bool {
    c == '&' || c == ':' || is_ascii_ws(c)
}

/// The length of the credential value at the start of `s`.
pub open spec fn value_len(s: Seq<char>) -> nat
    decreases s.len(),
{
    if s.len() == 0 || ends_value(s[0]) { 0 } else { 1 + value_len(s.drop_first()) }
}

pub proof fn lemma_value_len_bound(s: Seq<char>)
    ensures
        value_len(s) <= s.len(),
    decreases s.len(),
{
    if s.len() > 0 {
        lemma_value_len_bound(s.drop_first());
    }
}

/// `s` with every non-empty value following a `user=` or `password=` key (any ASCII
/// case) replaced by `***`; the value runs up to the next `&`, `:`, ASCII whitespace
/// or the end.
pub open spec fn redacted(s: Seq<char>) -> Seq<char>
    decreases s.len(),
{
    if s.len() == 0 {
        Seq::empty()
    } else {
        let k = cred_key_len(s);
        if k > 0 {
            let v = value_len(s.skip(k as int));
            proof {
                reveal_strlit("user=");
                reveal_strlit("password=");
                lemma_value_len_bound(s.skip(k as int));
            }
            s.take(k as int) + (if v > 0 { "***"@ } else { Seq::empty() }) + redacted(
                s.skip((k + v) as int),
            )
        } else {
            seq![s[0]] + redacted(s.drop_first())
        }
    }
}

fn starts_with_ic_at(s: &[char], i: usize, key: &str) -> (r: bool)
    requires
        i <= s.len(),
    ensures
        r == starts_with_ic(s@.skip(i as int), key@),
{
    let k = to_chars(key);
    if s.len() - i < k.len() {
        return false;
    }
    let part = crate::text::slice_vec(s, i, i + k.len());
    assert(part@ == s@.skip(i as int).take(k@.len() as int));
    eq_ic_chars(part.as_slice(), k.as_slice())
}

proof fn lemma_value_len(s: Seq<char>, p: int)
    requires
        0 <= p <= s.len(),
        forall|j: int| 0 <= j < p ==> !ends_value(#[trigger] s[j]),
        p == s.len() || ends_value(s[p]),
    ensures
        value_len(s) == p,
    decreases p,
{
    if p > 0 {
        lemma_value_len(s.drop_first(), p - 1);
    }
}

/// No character of a credential key ends a value, and each is its own lower case.
proof fn lemma_key_chars(key: Seq<char>, j: int)
    requires
        key == "user="@ || key == "password="@,
        0 <= j < key.len(),
    ensures
        !ends_value(key[j]),
        lower(key[j]) == key[j],
{
    reveal_strlit("user=");
    reveal_strlit("password=");
}

/// Whether `s` starts with `key` does not depend on what follows a value end that
/// closes `p`; and a key found there lies before that end.
proof fn lemma_key_before_end(p: Seq<char>, t: Seq<char>, key: Seq<char>)
    requires
        p.len() > 0,
        ends_value(p.last()),
        key == "user="@ || key == "password="@,
    ensures
        starts_with_ic(p + t, key) == starts_with_ic(p, key),
        starts_with_ic(p, key) ==> key.len() < p.len(),
{
    let s = p + t;
    let kl = key.len() as int;
    let j = p.len() - 1;
    if p.len() > kl {
        assert(s.take(kl) =~= p.take(kl));
    } else {
        lemma_key_chars(key, j);
        assert(lower(p.last()) == p.last());
        if starts_with_ic(s, key) {
            assert(lower_s(s.take(kl))[j] == lower_s(key)[j]);
            assert(s[j] == p.last());
        }
        if starts_with_ic(p, key) {
            assert(lower_s(p.take(kl))[j] == lower_s(key)[j]);
        }
    }
}

/// A value that ends inside `x` is not lengthened by what follows `x`.
proof fn lemma_value_len_prefix(x: Seq<char>, y: Seq<char>)
    requires
        value_len(x) < x.len(),
    ensures
        value_len(x + y) == value_len(x),
    decreases x.len(),
{
    if !ends_value(x[0]) {
        assert((x + y).drop_first() =~= x.drop_first() + y);
        lemma_value_len_prefix(x.drop_first(), y);
    }
}

proof fn lemma_value_len_ends(x: Seq<char>)
    requires
        x.len() > 0,
        ends_value(x.last()),
    ensures
        value_len(x) < x.len(),
    decreases x.len(),
{
    if x.len() > 1 && !ends_value(x[0]) {
        lemma_value_len_ends(x.drop_first());
    }
}

/// Redaction splits at a value end: what comes after it is redacted on its own.
pub proof fn lemma_redacted_split(p: Seq<char>, t: Seq<char>)
    requires
        p.len() == 0 || ends_value(p.last()),
    ensures
        redacted(p + t) == redacted(p) + redacted(t),
    decreases p.len(),
{
    reveal_strlit("user=");
    reveal_strlit("password=");
    let s = p + t;
    if p.len() == 0 {
        assert(s =~= t);
        assert(redacted(p) + redacted(t) =~= redacted(t));
    } else {
        lemma_key_before_end(p, t, "user="@);
        lemma_key_before_end(p, t, "password="@);
        let k = cred_key_len(p);
        assert(cred_key_len(s) == k);
        if k > 0 {
            let x = p.skip(k as int);
            assert(x.last() == p.last());
            lemma_value_len_ends(x);
            lemma_value_len_prefix(x, t);
            assert(s.skip(k as int) =~= x + t);
            let v = value_len(x);
            let rest = p.skip((k + v) as int);
            assert(rest.last() == p.last());
            assert(s.skip((k + v) as int) =~= rest + t);
            assert(s.take(k as int) =~= p.take(k as int));
            lemma_redacted_split(rest, t);
            let stars = if v > 0 { "***"@ } else { Seq::empty() };
            assert(redacted(s) == p.take(k as int) + stars + (redacted(rest) + redacted(t)));
            assert(redacted(p) == p.take(k as int) + stars + redacted(rest));
            assert(redacted(s) =~= redacted(p) + redacted(t));
        } else {
            let rest = p.drop_first();
            assert(s.drop_first() =~= rest + t);
            assert(rest.len() > 0 ==> rest.last() == p.last());
            lemma_redacted_split(rest, t);
            assert(s[0] == p[0]);
            assert(redacted(s) =~= redacted(p) + redacted(t));
        }
    }
}

/// A secret after `user=` or `password=` (any ASCII case) never reaches the redacted
/// text, whatever precedes or follows it: it is replaced by `***`, and the text around
/// it is redacted on its own.
pub proof fn secret_value_is_replaced(p: Seq<char>, key: Seq<char>, v: Seq<char>, q: Seq<char>)
    requires
        p.len() == 0 || ends_value(p.last()),
        eq_ic(key, "user="@) || eq_ic(key, "password="@),
        v.len() > 0,
        forall|i: int| 0 <= i < v.len() ==> !ends_value(#[trigger] v[i]),
        q.len() == 0 || ends_value(q[0]),
    ensures
        redacted(p + key + v + q) == redacted(p) + key + "***"@ + redacted(q),
{
    reveal_strlit("user=");
    reveal_strlit("password=");
    let t = key + v + q;
    assert(p + key + v + q =~= p + t);
    lemma_redacted_split(p, t);
    let kl = key.len() as int;
    if eq_ic(key, "user="@) {
        assert(lower_s(key).len() == 5);
        assert(t.take(5) =~= key);
    } else {
        assert(lower_s(key).len() == 9);
        assert(t.take(9) =~= key);
        assert(!starts_with_ic(t, "user="@)) by {
            assert(lower_s(t.take(5))[0] == lower_s(key)[0]);
        }
    }
    assert(cred_key_len(t) == kl);
    assert(t.skip(kl) =~= v + q);
    assert forall|j: int| 0 <= j < v.len() implies !ends_value(#[trigger] (v + q)[j]) by {
        assert((v + q)[j] == v[j]);
    }
    lemma_value_len(v + q, v.len() as int);
    assert(t.skip(kl + v.len()) =~= q);
    assert(t.take(kl) =~= key);
    assert(redacted(t) == key + "***"@ + redacted(q));
    assert(redacted(p) + redacted(t) =~= redacted(p) + key + "***"@ + redacted(q));
}

/// Redacts credential values embedded in a string (typically a transport error
/// message, which quotes the full request URL including `&user=...&password=...`).
pub fn redact_credentials(s: &str) -> (r: String)
    ensures
        r@ == redacted(s@),
{
    let cs = to_chars(s);
    let mut out = String::new();
    let mut i: usize = 0;
    assert(cs@.skip(0) =~= cs@);
    while i < cs.len()
        invariant
            i <= cs.len(),
            cs@ == s@,
            redacted(s@) == out@ + redacted(cs@.skip(i as int)),
        decreases cs.len() - i,
    {
        let ghost rest = cs@.skip(i as int);
        let user = starts_with_ic_at(cs.as_slice(), i, "user=");
        let pass = if user {
            false
        } else {
            starts_with_ic_at(cs.as_slice(), i, "password=")
        };
        if user || pass {
            let k: usize = if user {
                5
            } else {
                9
            };
            assert(k == cred_key_len(rest));
            proof {
                reveal_strlit("user=");
                reveal_strlit("password=");
            }
            let mut p = i + k;
            while p < cs.len() && !(cs[p] == '&' || cs[p] == ':' || cs[p] == ' ' || cs[p] == '\t'
                || cs[p] == '\n' || cs[p] == '\x0C' || cs[p] == '\r')
                invariant
                    i + k <= p <= cs.len(),
                    forall|j: int| i + k <= j < p ==> !ends_value(#[trigger] cs@[j]),
                decreases cs.len() - p,
            {
                p = p + 1;
            }
            proof {
                let t = rest.skip(k as int);
                assert forall|j: int| 0 <= j < p - i - k implies !ends_value(#[trigger] t[j]) by {
                    assert(t[j] == cs@[j + i + k]);
                }
                if p < cs.len() {
                    assert(t[p - i - k] == cs@[p as int]);
                }
                lemma_value_len(t, p - i - k);
                assert(rest.skip(k + (p - i - k)) =~= cs@.skip(p as int));
            }
            let head = string_of(crate::text::slice_vec(cs.as_slice(), i, i + k).as_slice());
            assert(head@ == rest.take(k as int));
            out.append(head.as_str());
            if p > i + k {
                out.append("***");
            }
            i = p;
        } else {
            assert(cred_key_len(rest) == 0);
            push_char(&mut out, cs[i]);
            assert(rest.drop_first() =~= cs@.skip(i + 1));
            i = i + 1;
        }
    }
    out
}

/// Text without any credential key is left exactly as it is.
pub proof fn redaction_keeps_text_without_keys(s: Seq<char>)
    requires
        forall|i: int| 0 <= i < s.len() ==> cred_key_len(#[trigger] s.skip(i)) == 0,
    ensures
        redacted(s) == s,
    decreases s.len(),
{
    if s.len() > 0 {
        assert(cred_key_len(s.skip(0)) == 0);
        assert(s.skip(0) =~= s);
        assert forall|i: int| 0 <= i < s.drop_first().len() implies cred_key_len(
            #[trigger] s.drop_first().skip(i),
        ) == 0 by {
            assert(s.drop_first().skip(i) =~= s.skip(i + 1));
        }
        redaction_keeps_text_without_keys(s.drop_first());
        assert(seq![s[0]] + s.drop_first() =~= s);
    }
}

/// The reply to a command: the JSON body (`None` when the body is not JSON), checked
/// for a failure reported inside it.
pub open spec fn command_reply_of(host: Seq<char>, cmnd: Seq<char>, body: Option<Json>) -> Result<
    Json,
    ErrorView,
> {
    match body {
        None => Err(
            ErrorView::Parse(host + " did not return JSON (not a Tasmota /cm endpoint?)"@),
        ),
        Some(v) => match command_error_of(v, cmnd) {
            Some(e) => Err(e),
            None => Ok(v),
        },
    }
}

/// Interprets the body of an HTTP 200 answer to a command: it must be JSON, and the
/// JSON decides whether the command succeeded.
pub fn command_reply(host: &str, cmnd: &str, body: Option<Json>) -> (r: Result<Json, Error>)
    ensures
        match r {
            Ok(v) => command_reply_of(host@, cmnd@, body) == Ok::<Json, ErrorView>(v),
            Err(e) => command_reply_of(host@, cmnd@, body) == Err::<Json, ErrorView>(e@),
        },
{
    match body {
        None => {
            let mut m = String::from_str(host);
            m.append(" did not return JSON (not a Tasmota /cm endpoint?)");
            Err(Error::Parse { message: m })
        },
        Some(v) => match check_command_error(&v, cmnd) {
            Ok(()) => Ok(v),
            Err(e) => Err(e),
        },
    }
}

/// The error for an HTTP answer with a failure status `code` from `host`; `during`
/// names a transfer (e.g. `downloading /dl`), `None` for a command.
pub open spec fn status_error_of(host: Seq<char>, code: u16, during: Option<Seq<char>>) -> ErrorView {
    match during {
        None => if code == 401 {
            ErrorView::Auth(host + " returned HTTP 401 (WebPassword set?)"@)
        } else {
            ErrorView::Network(host + " returned HTTP "@ + dec(code as nat))
        },
        Some(d) => if code == 401 {
            ErrorView::Auth(host + " returned HTTP 401 "@ + d)
        } else {
            ErrorView::Network(host + " returned HTTP "@ + dec(code as nat) + " "@ + d)
        },
    }
}

/// Maps a failure HTTP status to an error: 401 is an authentication failure, any
/// other status a network failure.
pub fn status_error(host: &str, code: u16, during: Option<&str>) -> (r: Error)
    ensures
        r@ == status_error_of(
            host@,
            code,
            match during {
                Some(d) => Some(d@),
                None => None,
            },
        ),
{
    let mut m = String::from_str(host);
    match during {
        None => {
            if code == 401 {
                m.append(" returned HTTP 401 (WebPassword set?)");
                Error::Auth { message: m }
            } else {
                m.append(" returned HTTP ");
                let c = dec_string(code as u64);
                m.append(c.as_str());
                Error::Network { message: m }
            }
        },
        Some(d) => {
            if code == 401 {
                m.append(" returned HTTP 401 ");
                m.append(d);
                Error::Auth { message: m }
            } else {
                m.append(" returned HTTP ");
                let c = dec_string(code as u64);
                m.append(c.as_str());
                m.append(" ");
                m.append(d);
                Error::Network { message: m }
            }
        },
    }
}

/// The error for a transport failure (no HTTP answer): the failure text with any
/// credentials redacted.
pub fn transport_error(host: &str, detail: &str) -> (r: Error)
    ensures
        r@ == ErrorView::Network(host@ + ": "@ + redacted(detail@)),
{
    let mut m = String::from_str(host);
    m.append(": ");
    let d = redact_credentials(detail);
    m.append(d.as_str());
    Error::Network { message: m }
}

/// The error for a failure to read an answer's body: `what` is `response` or the path.
pub fn read_error(what: &str, host: &str, detail: &str) -> (r: Error)
    ensures
        r@ == ErrorView::Network("reading "@ + what@ + " from "@ + host@ + ": "@ + detail@),
{
    let mut m = String::from_str("reading ");
    m.append(what);
    m.append(" from ");
    m.append(host);
    m.append(": ");
    m.append(detail);
    Error::Network { message: m }
}

/// The multipart boundary used for uploads.
pub open spec fn boundary() -> Seq<char> {
    "----tasmotacli7f3aBoundary"@
}

/// The `Content-Type` of an upload.
pub fn upload_content_type() -> (r: String)
    ensures
        r@ == "multipart/form-data; boundary="@ + boundary(),
{
    let mut s = String::from_str("multipart/form-data; boundary=");
    s.append("----tasmotacli7f3aBoundary");
    s
}

/// The part header that precedes the uploaded bytes.
pub open spec fn part_header(field: Seq<char>, filename: Seq<char>) -> Seq<char> {
    "--"@ + boundary() + "\r\nContent-Disposition: form-data; name=\""@ + field
        + "\"; filename=\""@ + filename + "\"\r\nContent-Type: application/octet-stream\r\n\r\n"@
}

/// The closing delimiter that follows the uploaded bytes.
pub open spec fn part_trailer() -> Seq<char> {
    "\r\n--"@ + boundary() + "--\r\n"@
}

fn append_bytes(out: &mut Vec<u8>, s: &str)
    ensures
        final(out)@ == old(out)@ + vstd::utf8::encode_utf8(s@),
{
    let bs = s.as_bytes();
    let mut i: usize = 0;
    while i < bs.len()
        invariant
            i <= bs.len(),
            bs@ == vstd::utf8::encode_utf8(s@),
            out@ == old(out)@ + bs@.take(i as int),
        decreases bs.len() - i,
    {
        out.push(bs[i]);
        assert(bs@.take(i + 1) =~= bs@.take(i as int).push(bs@[i as int]));
        i = i + 1;
    }
    assert(bs@.take(bs.len() as int) =~= bs@);
}

/// The `multipart/form-data` body that uploads `data` as file `filename` in form
/// field `field`.
pub fn multipart_body(field: &str, filename: &str, data: &[u8]) -> (r: Vec<u8>)
    ensures
        r@ == vstd::utf8::encode_utf8(part_header(field@, filename@)) + data@
            + vstd::utf8::encode_utf8(part_trailer()),
{
    let mut head = String::from_str("--");
    head.append("----tasmotacli7f3aBoundary");
    head.append("\r\nContent-Disposition: form-data; name=\"");
    head.append(field);
    head.append("\"; filename=\"");
    head.append(filename);
    head.append("\"\r\nContent-Type: application/octet-stream\r\n\r\n");
    let mut tail = String::from_str("\r\n--");
    tail.append("----tasmotacli7f3aBoundary");
    tail.append("--\r\n");
    let mut body: Vec<u8> = Vec::new();
    append_bytes(&mut body, head.as_str());
    let mut i: usize = 0;
    let ghost start = body@;
    while i < data.len()
        invariant
            i <= data.len(),
            body@ == start + data@.take(i as int),
        decreases data.len() - i,
    {
        body.push(data[i]);
        assert(data@.take(i + 1) =~= data@.take(i as int).push(data@[i as int]));
        i = i + 1;
    }
    assert(data@.take(data.len() as int) =~= data@);
    append_bytes(&mut body, tail.as_str());
    assert(body@ =~= vstd::utf8::encode_utf8(part_header(field@, filename@)) + data@
        + vstd::utf8::encode_utf8(part_trailer()));
    body
}

/// A character that may stand in an encoded query component: an unreserved
/// character or the `%` of an escape.
pub open spec fn query_safe(c: char) -> bool {
    c == '%' || ((c as u32) < 0x80 && unreserved(c as u8))
}

/// Percent-encoding leaves only characters that are safe in a query component: no
/// space, `&`, `=`, `;` or other reserved character can reach the device's parser.
pub proof fn encoding_is_query_safe(bs: Seq<u8>)
    ensures
        forall|i: int| 0 <= i < percent_encode(bs).len() ==> query_safe(#[trigger] percent_encode(bs)[i]),
    decreases bs.len(),
{
    if bs.len() > 0 {
        encoding_is_query_safe(bs.drop_last());
        let b = bs.last();
        let e = encode_byte(b);
        let hi = (b / 16) as nat;
        let lo = (b % 16) as nat;
        assert(hi < 16 && lo < 16);
        assert forall|j: int| 0 <= j < e.len() implies query_safe(#[trigger] e[j]) by {
            if unreserved(b) {
                assert(e[j] == b as char);
                assert((b as char) as u32 == b as u32);
            } else if j > 0 {
                let d = if j == 1 { hi } else { lo };
                assert(e[j] == hex_upper(d));
            }
        }
        let init = percent_encode(bs.drop_last());
        assert forall|i: int| 0 <= i < percent_encode(bs).len() implies query_safe(
            #[trigger] percent_encode(bs)[i],
        ) by {
            if i < init.len() {
                assert(percent_encode(bs)[i] == init[i]);
            } else {
                assert(percent_encode(bs)[i] == e[i - init.len()]);
            }
        }
    }
}

/// The value of a hexadecimal digit, in either case.
pub open spec fn hex_value(c: char) -> Option<nat> {
    let u = c as u32;
    if 48 <= u <= 57 {
        Some((u - 48) as nat)
    } else if 65 <= u <= 70 {
        Some((u - 55) as nat)
    } else if 97 <= u <= 102 {
        Some((u - 87) as nat)
    } else {
        None
    }
}

/// Percent-decoding of an ASCII text, read from the front: `%` and two hexadecimal
/// digits stand for the byte they spell, and any other character for its own code.
pub open spec fn percent_decode(s: Seq<char>) -> Seq<u8>
    decreases s.len(),
{
    if s.len() == 0 {
        Seq::empty()
    } else if s[0] == '%' && s.len() >= 3 && hex_value(s[1]) is Some && hex_value(s[2]) is Some {
        seq![(hex_value(s[1])->0 * 16 + hex_value(s[2])->0) as u8] + percent_decode(s.skip(3))
    } else {
        seq![(s[0] as u32) as u8] + percent_decode(s.drop_first())
    }
}

/// The number of bytes that percent-encoding escapes.
pub open spec fn escaped_count(bs: Seq<u8>) -> nat
    decreases bs.len(),
{
    if bs.len() == 0 {
        0
    } else {
        escaped_count(bs.drop_last()) + if unreserved(bs.last()) {
            0nat
        } else {
            1nat
        }
    }
}

proof fn lemma_decode_byte(b: u8, rest: Seq<char>)
    ensures
        percent_decode(encode_byte(b) + rest) == seq![b] + percent_decode(rest),
{
    let s = encode_byte(b) + rest;
    if unreserved(b) {
        assert(s[0] == b as char);
        assert((b as char) as u32 == b as u32);
        assert(s.drop_first() =~= rest);
    } else {
        let hi = (b / 16) as nat;
        let lo = (b % 16) as nat;
        assert(hi < 16 && lo < 16);
        assert(s[1] == hex_upper(hi) && s[2] == hex_upper(lo));
        assert(hex_value(hex_upper(hi)) == Some(hi));
        assert(hex_value(hex_upper(lo)) == Some(lo));
        assert(hi * 16 + lo == b);
        assert(s.skip(3) =~= rest);
    }
}

proof fn lemma_decode_encoded(bs: Seq<u8>, rest: Seq<char>)
    ensures
        percent_decode(percent_encode(bs) + rest) == bs + percent_decode(rest),
    decreases bs.len(),
{
    if bs.len() == 0 {
        assert(percent_encode(bs) + rest =~= rest);
        assert(bs + percent_decode(rest) =~= percent_decode(rest));
    } else {
        let init = bs.drop_last();
        let b = bs.last();
        lemma_decode_byte(b, rest);
        lemma_decode_encoded(init, encode_byte(b) + rest);
        assert(percent_encode(bs) + rest =~= percent_encode(init) + (encode_byte(b) + rest));
        assert(init + (seq![b] + percent_decode(rest)) =~= bs + percent_decode(rest));
    }
}

/// Percent-decoding an encoded component gives back exactly the bytes encoded.
pub proof fn percent_decoding_undoes_encoding(bs: Seq<u8>)
    ensures
        percent_decode(percent_encode(bs)) == bs,
{
    lemma_decode_encoded(bs, Seq::empty());
    assert(percent_encode(bs) + Seq::<char>::empty() =~= percent_encode(bs));
    assert(bs + Seq::<u8>::empty() =~= bs);
}

/// An encoded component has one character per byte, and two more per escaped byte.
pub proof fn encoding_length(bs: Seq<u8>)
    ensures
        percent_encode(bs).len() == bs.len() + 2 * escaped_count(bs),
    decreases bs.len(),
{
    if bs.len() > 0 {
        encoding_length(bs.drop_last());
    }
}

/// A reply whose `Command` member reads `Error` or `Unknown` (any ASCII case), with no
/// `WARNING`, rejects the command: the failure names the command sent and quotes
/// what the device reported.
pub proof fn error_command_reply_is_rejected(value: Json, cmnd: Seq<char>, s: Seq<char>)
    requires
        ostr(jget(value, "Command"@)) == Some(s),
        lower_s(s) == "error"@ || lower_s(s) == "unknown"@,
        ostr(jget(value, "WARNING"@)) is None,
    ensures
        command_error_of(value, cmnd) == Some(
            ErrorView::CommandRejected(cmnd, "device reported Command="@ + s),
        ),
{
    reveal_strlit("error");
    reveal_strlit("unknown");
    assert(lower_s("error"@) =~= "error"@);
    assert(lower_s("unknown"@) =~= "unknown"@);
}

/// A `WARNING` that mentions a user or a password (any ASCII case) is an
/// authentication failure, whatever else the reply says.
pub proof fn auth_warning_is_an_auth_failure(value: Json, cmnd: Seq<char>, w: Seq<char>, i: int)
    requires
        ostr(jget(value, "WARNING"@)) == Some(w),
        0 <= i,
        (i + 4 <= w.len() && lower_s(w.subrange(i, i + 4)) == "user"@) || (i + 8 <= w.len()
            && lower_s(w.subrange(i, i + 8)) == "password"@),
    ensures
        command_error_of(value, cmnd) == Some(
            ErrorView::Auth("device requires authentication: "@ + w),
        ),
{
    if i + 4 <= w.len() && lower_s(w.subrange(i, i + 4)) == "user"@ {
        assert(lower_s(w).subrange(i, i + 4) =~= lower_s(w.subrange(i, i + 4)));
        assert(contains(lower_s(w), "user"@));
    } else {
        assert(lower_s(w).subrange(i, i + 8) =~= lower_s(w.subrange(i, i + 8)));
        assert(contains(lower_s(w), "password"@));
    }
}

/// A reply object whose first member is named `error` (any ASCII case), with no
/// `WARNING` and no `Command` member, rejects the command, quoting the error text.
pub proof fn error_member_reply_is_rejected(value: Json, cmnd: Seq<char>, detail: Seq<char>)
    requires
        value matches Json::Object(v) && v@.len() > 0 && lower_s(v@[0].0@) == "error"@ && jstr(
            v@[0].1,
        ) == Some(detail),
        jget(value, "WARNING"@) is None,
        jget(value, "Command"@) is None,
    ensures
        command_error_of(value, cmnd) == Some(
            ErrorView::CommandRejected(cmnd, "device reported error: "@ + detail),
        ),
{
    reveal_strlit("error");
    assert(lower_s("error"@) =~= "error"@);
}

} // verus!
