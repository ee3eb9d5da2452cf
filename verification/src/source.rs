//! Change detection and synchronisation: the rules.
//!
//! WebDAV rather than the filesystem, because Nextcloud propagates ETag
//! changes up the tree: one `PROPFIND Depth: 0` on the root answers "did
//! anything below this change". The service sends the requests and writes the
//! files; what to request, how to read the answers, what to fetch and what to
//! delete is decided here.

use vstd::prelude::*;
use vstd::utf8::encode_utf8;
use crate::config::{opt_string_view, Config, SourceKind};
use crate::fsutil::{conflict_marker, is_conflict_copy};
use crate::order::{sort_strings, str_order};
use crate::state::State;
use crate::strmap::StrMap;
use crate::text::{
    chars_eq, chars_of, contains, hex_upper, hex_digit,
    join_with, owned, push_all, push_str, push_string, slice_chars, split_char, split_chars,
    split_once, split_once_exec, str_eq, strs, string_from_chars, trim_char, trim_chars,
    trim_end_char, trim_end_chars, trim_start_char, trim_start_chars,
};
use crate::xml::{node_views, parse_xml, xml_outline, XmlNode, XmlNodeView};

verus! {

#[derive(Debug, Clone)]
pub struct SyncReport {
    pub changed: bool,
    pub downloaded: usize,
    pub deleted: usize,
    /// Reported rather than silently dropped: a conflict copy means a version
    /// of someone's work is at risk.
    pub conflict_copies: Vec<String>,
}

impl SyncReport {
    /// Nothing changed, nothing fetched.
    pub fn unchanged() -> (res: Self)
        ensures
            !res.changed,
            res.downloaded == 0,
            res.deleted == 0,
            res.conflict_copies@.len() == 0,
    {
        SyncReport { changed: false, downloaded: 0, deleted: 0, conflict_copies: Vec::new() }
    }
}

/// Two ways in. A share link is the smaller one: no account credential leaves
/// Nextcloud, the share is read-only by nature, and revoking it is one click.
#[derive(Debug, Clone)]
pub enum Auth {
    Account { user: String, password: String },
    /// A share link. Nextcloud's public WebDAV takes the **share id as the
    /// username** and the share password, empty when the share has none. Newer
    /// documentation describes the literal user `anonymous` instead, so a 401
    /// on a password-protected share is retried that way once.
    Share { token: String, password: Option<String> },
}

/// A WebDAV source: where to send requests and how to authenticate.
#[derive(Debug, Clone)]
pub struct Webdav {
    /// `{url}/remote.php/dav/files/{user}` for an account, or
    /// `{url}/public.php/dav/files/{token}` for a public share.
    pub base: String,
    /// Remote path below that root, without leading or trailing slashes.
    pub path: String,
    pub host_header: Option<String>,
    pub auth: Auth,
}

/// A local directory as the source.
#[derive(Debug, Clone)]
pub struct Fs {
    pub root: String,
}

#[derive(Debug, Clone)]
pub enum Source {
    Webdav(Webdav),
    Fs(Fs),
}

/// Why talking to the source failed.
#[derive(Debug, Clone)]
pub enum SourceError {
    MissingUrl,
    MissingUser,
    MissingPassword,
    /// 401: the credentials were refused.
    Unauthorized { url: String },
    /// 503: Nextcloud is most likely in maintenance mode.
    Maintenance { url: String },
    /// `text` is the status as HTTP shows it, code and reason.
    UnexpectedStatus { url: String, status: u16, text: String },
    /// The PROPFIND answer is not XML; `detail` is the parser's message.
    BadResponse { detail: String },
    /// The PROPFIND answer for the root listed nothing.
    NoRootEntry,
}

impl SourceError {
    pub open spec fn spec_message(&self) -> Seq<char> {
        match self {
            SourceError::MissingUrl => "source.url is required"@,
            SourceError::MissingUser => "source.user is required"@,
            SourceError::MissingPassword => "source.password_file is required"@,
            SourceError::Unauthorized { url } => url@
                + ": 401 Unauthorized \u{2014} stopping rather than retrying into brute-force protection"@,
            SourceError::Maintenance { url } => url@
                + ": 503 Service Unavailable \u{2014} Nextcloud is likely in maintenance mode"@,
            SourceError::UnexpectedStatus { url, text, .. } => url@ + ": unexpected status "@
                + text@,
            SourceError::BadResponse { .. } => "parsing PROPFIND response"@,
            SourceError::NoRootEntry => "PROPFIND returned no response element for the watched root"@,
        }
    }

    /// The message shown to the operator.
    pub fn message(&self) -> (res: String)
        ensures
            res@ == self.spec_message(),
    {
        let mut m: Vec<char> = Vec::new();
        match self {
            SourceError::MissingUrl => push_str(&mut m, "source.url is required"),
            SourceError::MissingUser => push_str(&mut m, "source.user is required"),
            SourceError::MissingPassword => push_str(&mut m, "source.password_file is required"),
            SourceError::Unauthorized { url } => {
                push_str(&mut m, url.as_str());
                push_str(
                    &mut m,
                    ": 401 Unauthorized \u{2014} stopping rather than retrying into brute-force protection",
                );
            },
            SourceError::Maintenance { url } => {
                push_str(&mut m, url.as_str());
                push_str(
                    &mut m,
                    ": 503 Service Unavailable \u{2014} Nextcloud is likely in maintenance mode",
                );
            },
            SourceError::UnexpectedStatus { url, text, .. } => {
                push_str(&mut m, url.as_str());
                push_str(&mut m, ": unexpected status ");
                push_str(&mut m, text.as_str());
            },
            SourceError::BadResponse { .. } => push_str(&mut m, "parsing PROPFIND response"),
            SourceError::NoRootEntry => push_str(
                &mut m,
                "PROPFIND returned no response element for the watched root",
            ),
        }
        string_from_chars(&m)
    }
}

/// The WebDAV root for a server URL and a share token or user name.
pub open spec fn dav_base(url: Seq<char>, share: bool, id: Seq<char>) -> Seq<char> {
    trim_end_char(url, '/') + (if share {
        "/public.php/dav/files/"@
    } else {
        "/remote.php/dav/files/"@
    }) + id
}

/// Why a configuration describes no WebDAV source, when it does not: the URL
/// is missing, or, without a share token, the user or the password.
pub open spec fn webdav_refusal(config: Config, password: Option<String>) -> Option<SourceError> {
    match config.source.url {
        None => Some(SourceError::MissingUrl),
        Some(_) => match config.source.share_token {
            Some(_) => None,
            None => match (config.source.user, password) {
                (None, _) => Some(SourceError::MissingUser),
                (Some(_), None) => Some(SourceError::MissingPassword),
                _ => None,
            },
        },
    }
}

/// Whether `w` is the WebDAV source a configuration describes: a share token
/// selects the public endpoint with the token as the user, otherwise the
/// account's files root.
pub open spec fn describes(config: Config, password: Option<String>, share_password: Option<String>, w: Webdav) -> bool {
    &&& config.source.url matches Some(url) && match config.source.share_token {
        Some(token) => w.base@ == dav_base(url@, true, token@) && (w.auth matches Auth::Share { token: t, password: p } && t@ == token@ && opt_string_view(p) == opt_string_view(share_password)),
        None => config.source.user matches Some(user) && password matches Some(pw)
            && w.base@ == dav_base(url@, false, user@) && (w.auth matches Auth::Account { user: u, password: p } && u@ == user@ && p@ == pw@),
    }
    &&& w.path@ == trim_char(config.source.path@, '/')
    &&& opt_string_view(w.host_header) == opt_string_view(config.source.host_header)
}

impl Webdav {
    /// The WebDAV source a configuration describes. The secrets are passed in:
    /// `password` is the content of `source.password_file` and
    /// `share_password` that of `source.share_password_file`, when set.
    pub fn new(config: &Config, password: Option<String>, share_password: Option<String>) -> (res: Result<Webdav, SourceError>)
        ensures
            match webdav_refusal(*config, password) {
                Some(e0) => res matches Err(e) && e == e0,
                None => res matches Ok(w) && describes(*config, password, share_password, w),
            },
    {
        let url = match &config.source.url {
            Some(u) => trim_end_chars(&chars_of(u.as_str()), '/'),
            None => return Err(SourceError::MissingUrl),
        };
        let (base, auth) = match &config.source.share_token {
            Some(token) => {
                let mut b = url;
                push_str(&mut b, "/public.php/dav/files/");
                push_str(&mut b, token.as_str());
                let pw = match share_password {
                    Some(p) => Some(p),
                    None => None,
                };
                (string_from_chars(&b), Auth::Share { token: token.clone(), password: pw })
            },
            None => {
                let user = match &config.source.user {
                    Some(u) => u.clone(),
                    None => return Err(SourceError::MissingUser),
                };
                let pw = match password {
                    Some(p) => p,
                    None => return Err(SourceError::MissingPassword),
                };
                let mut b = url;
                push_str(&mut b, "/remote.php/dav/files/");
                push_str(&mut b, user.as_str());
                (string_from_chars(&b), Auth::Account { user, password: pw })
            },
        };
        let path = trim_chars(&chars_of(config.source.path.as_str()), '/');
        let host_header = match &config.source.host_header {
            Some(h) => Some(h.clone()),
            None => None,
        };
        Ok(Webdav { base, path: string_from_chars(&path), host_header, auth })
    }

    /// Whether this is a share link with a password: the case in which a 401
    /// is retried once with the alternative user name.
    pub fn share_with_password(&self) -> (res: bool)
        ensures
            res == (self.auth matches Auth::Share { password, .. } && password is Some),
    {
        match &self.auth {
            Auth::Share { password: Some(_), .. } => true,
            _ => false,
        }
    }

    /// The Basic credentials to send. `anonymous` selects the alternative form
    /// for share links; the share password is empty when the share has none.
    pub fn credentials(&self, anonymous: bool) -> (res: (String, String))
        ensures
            match self.auth {
                Auth::Account { user, password } => res.0@ == user@ && res.1@ == password@,
                Auth::Share { token, password } => res.0@ == (if anonymous {
                    "anonymous"@
                } else {
                    token@
                }) && res.1@ == (match password {
                    Some(p) => p@,
                    None => Seq::empty(),
                }),
            },
    {
        match &self.auth {
            Auth::Account { user, password } => (user.clone(), password.clone()),
            Auth::Share { token, password } => {
                let user = if anonymous { owned("anonymous") } else { token.clone() };
                let pw = match password {
                    Some(p) => p.clone(),
                    None => String::new(),
                };
                (user, pw)
            },
        }
    }

    /// Whether a response with `status` is retried as `anonymous`: only a 401
    /// on a password-protected share, and only once.
    pub fn retry_as_anonymous(&self, status: u16) -> (res: bool)
        ensures
            res == (status == 401 && (self.auth matches Auth::Share { password, .. } && password is Some)),
    {
        status == 401 && self.share_with_password()
    }
}

// ---------------------------------------------------------------------------
// URLs

/// Bytes that are percent-encoded in a path segment: controls, non-ASCII, and
/// everything except unreserved characters and the path separator.
pub open spec fn encoded_byte(b: u8) -> bool {
    b < 0x20 || b >= 0x7f || b == 0x20 || b == 0x22 || b == 0x23 || b == 0x3c || b == 0x3e
        || b == 0x3f || b == 0x60 || b == 0x7b || b == 0x7d || b == 0x25 || b == 0x5b || b == 0x5d
        || b == 0x5e || b == 0x7c
}

/// Percent-encoding of UTF-8 bytes (`utf8_percent_encode` with that set):
/// `%` and two upper-case hex digits for an encoded byte, the byte's character
/// otherwise.
pub open spec fn percent_encode(bytes: Seq<u8>) -> Seq<char>
    decreases bytes.len(),
{
    if bytes.len() == 0 {
        seq![]
    } else {
        let b = bytes.last();
        percent_encode(bytes.drop_last()) + if encoded_byte(b) {
            seq!['%', hex_upper((b / 16) as nat), hex_upper((b % 16) as nat)]
        } else {
            seq![b as char]
        }
    }
}

fn encoded_byte_exec(b: u8) -> (res: bool)
    ensures
        res == encoded_byte(b),
{
    b < 0x20 || b >= 0x7f || b == 0x20 || b == 0x22 || b == 0x23 || b == 0x3c || b == 0x3e || b
        == 0x3f || b == 0x60 || b == 0x7b || b == 0x7d || b == 0x25 || b == 0x5b || b == 0x5d || b
        == 0x5e || b == 0x7c
}

/// Percent-encodes one path segment.
pub fn encode_segment(s: &str) -> (res: Vec<char>)
    ensures
        res@ == percent_encode(encode_utf8(s@)),
{
    let bytes = s.as_bytes();
    let mut out: Vec<char> = Vec::new();
    let mut i: usize = 0;
    assert(bytes@.take(0) =~= Seq::<u8>::empty());
    while i < bytes.len()
        invariant
            i <= bytes@.len(),
            bytes@ == encode_utf8(s@),
            out@ == percent_encode(bytes@.take(i as int)),
        decreases bytes@.len() - i,
    {
        let b = bytes[i];
        assert(bytes@.take(i + 1).drop_last() =~= bytes@.take(i as int));
        if encoded_byte_exec(b) {
            out.push('%');
            out.push(hex_digit(b / 16, true));
            out.push(hex_digit(b % 16, true));
        } else {
            out.push(b as char);
        }
        i = i + 1;
    }
    assert(bytes@.take(bytes@.len() as int) =~= bytes@);
    out
}

/// The non-empty parts of `parts`, in order.
pub open spec fn nonempty_parts(parts: Seq<Seq<char>>) -> Seq<Seq<char>>
    decreases parts.len(),
{
    if parts.len() == 0 {
        seq![]
    } else if parts.last().len() > 0 {
        nonempty_parts(parts.drop_last()).push(parts.last())
    } else {
        nonempty_parts(parts.drop_last())
    }
}

/// Each segment percent-encoded.
pub open spec fn encode_all(parts: Seq<Seq<char>>) -> Seq<Seq<char>> {
    parts.map_values(|p: Seq<char>| percent_encode(encode_utf8(p)))
}

/// The URL of an entry: base, watched path and relative entry joined,
/// each segment percent-encoded but not the separators; empty segments are
/// dropped, so a share whose watched path is the share root does not produce
/// a double slash.
pub open spec fn entry_url(base: Seq<char>, path: Seq<char>, rel: Seq<char>) -> Seq<char> {
    let segments = encode_all(nonempty_parts(split_char(path, '/') + split_char(rel, '/')));
    if segments.len() == 0 {
        base
    } else {
        base + seq!['/'] + join_with(segments, "/"@)
    }
}

impl Webdav {
    pub fn url_for(&self, rel: &str) -> (res: String)
        ensures
            res@ == entry_url(self.base@, self.path@, rel@),
    {
        let mut all = split_chars(&chars_of(self.path.as_str()), '/');
        let b = split_chars(&chars_of(rel), '/');
        let ghost parts = split_char(self.path@, '/') + split_char(rel@, '/');
        let ghost na = all@.len();
        let mut j: usize = 0;
        while j < b.len()
            invariant
                j <= b@.len(),
                all@.len() == na + j,
                na == split_char(self.path@, '/').len(),
                b@.len() == split_char(rel@, '/').len(),
                forall|k: int| 0 <= k < b@.len() ==> #[trigger] b@[k]@ == split_char(rel@, '/')[k],
                forall|k: int| 0 <= k < all@.len() ==> #[trigger] all@[k]@ == parts[k],
                parts == split_char(self.path@, '/') + split_char(rel@, '/'),
            decreases b@.len() - j,
        {
            let c = slice_chars(&b[j], 0, b[j].len());
            assert(c@ =~= b@[j as int]@);
            all.push(c);
            j = j + 1;
        }
        let mut segments: Vec<Vec<char>> = Vec::new();
        let mut i: usize = 0;
        assert(parts.take(0) =~= Seq::<Seq<char>>::empty());
        assert(segments@.map_values(|x: Vec<char>| x@) =~= Seq::<Seq<char>>::empty());
        while i < all.len()
            invariant
                i <= all@.len(),
                all@.len() == parts.len(),
                forall|k: int| 0 <= k < all@.len() ==> #[trigger] all@[k]@ == parts[k],
                segments@.map_values(|x: Vec<char>| x@) == encode_all(nonempty_parts(parts.take(i as int))),
            decreases all@.len() - i,
        {
            let seg = &all[i];
            assert(seg@ == parts[i as int]);
            assert(parts.take(i + 1).drop_last() =~= parts.take(i as int));
            let ghost before = segments@.map_values(|x: Vec<char>| x@);
            if seg.len() > 0 {
                let e = encode_segment(string_from_chars(seg).as_str());
                segments.push(e);
                assert(segments@.map_values(|x: Vec<char>| x@) =~= before.push(percent_encode(encode_utf8(seg@))));
                assert(encode_all(nonempty_parts(parts.take(i + 1))) =~= encode_all(nonempty_parts(parts.take(i as int))).push(percent_encode(encode_utf8(seg@))));
            }
            i = i + 1;
        }
        assert(parts.take(all@.len() as int) =~= parts);
        let ghost segs = encode_all(nonempty_parts(parts));
        if segments.len() == 0 {
            return self.base.clone();
        }
        let mut out = chars_of(self.base.as_str());
        out.push('/');
        let mut k: usize = 0;
        let ghost start = out@;
        assert(segs.take(0) =~= Seq::<Seq<char>>::empty());
        while k < segments.len()
            invariant
                k <= segments@.len(),
                segs == segments@.map_values(|x: Vec<char>| x@),
                out@ == start + join_with(segs.take(k as int), "/"@),
            decreases segments@.len() - k,
        {
            assert(segs.take(k + 1).drop_last() =~= segs.take(k as int));
            assert(segs.take(k + 1).last() == segments@[k as int]@);
            if k > 0 {
                push_str(&mut out, "/");
            }
            push_all(&mut out, &segments[k]);
            proof {
                if k == 0 {
                    assert(join_with(segs.take(1), "/"@) == segs.take(1)[0]);
                }
                assert(out@ =~= start + join_with(segs.take(k + 1), "/"@));
            }
            k = k + 1;
        }
        assert(segs.take(segments@.len() as int) =~= segs);
        string_from_chars(&out)
    }
}

// ---------------------------------------------------------------------------
// Answers

/// How `http::StatusCode` shows a status (`Display`): the code and its
/// canonical reason, such as `404 Not Found`.
pub uninterp spec fn status_line(code: u16) -> Seq<char>;

/// `StatusCode::from_u16(status)` shown with `Display`. The text depends on
/// the code alone; what it says is the `http` crate's table of reasons.
#[verifier::external_body]
fn status_text(status: u16) -> (res: String)
    requires
        100 <= status <= 999,
    ensures
        res@ == status_line(status),
{
    match reqwest::StatusCode::from_u16(status) {
        Ok(code) => code.to_string(),
        Err(e) => e.to_string(),
    }
}

/// What a status code means: success or 207 goes on; 401 stops rather than
/// retrying into brute-force protection; 503 names maintenance mode.
pub fn check_status(status: u16, url: &str) -> (res: Result<(), SourceError>)
    requires
        100 <= status <= 999,
    ensures
        (200 <= status <= 299 || status == 207) ==> res is Ok,
        !(200 <= status <= 299 || status == 207) && status == 401 ==> (res matches Err(SourceError::Unauthorized { url: u }) && u@ == url@),
        !(200 <= status <= 299 || status == 207) && status == 503 ==> (res matches Err(SourceError::Maintenance { url: u }) && u@ == url@),
        !(200 <= status <= 299 || status == 207) && status != 401 && status != 503 ==> (res matches Err(SourceError::UnexpectedStatus { url: u, status: s, text: t }) && u@ == url@ && s == status && t@ == status_line(status)),
{
    if (200 <= status && status <= 299) || status == 207 {
        Ok(())
    } else if status == 401 {
        Err(SourceError::Unauthorized { url: owned(url) })
    } else if status == 503 {
        Err(SourceError::Maintenance { url: owned(url) })
    } else {
        Err(SourceError::UnexpectedStatus { url: owned(url), status, text: status_text(status) })
    }
}

/// Whether a server-supplied path may be joined onto a local directory: it is
/// non-empty, relative, without backslash or drive letter, and has no `..`
/// segment.
pub open spec fn safe_relative(rel: Seq<char>) -> bool {
    &&& rel.len() > 0
    &&& rel[0] != '/'
    &&& !rel.contains('\\')
    &&& !(rel.len() >= 2 && (rel[0] as u32) < 0x80 && rel[1] == ':')
    &&& !split_char(rel, '/').contains(seq!['.', '.'])
}

/// A legitimate entry never contains a `..` segment, a leading slash, a
/// backslash or a drive letter. Without this check, one crafted `href` in a
/// PROPFIND response writes anywhere the process can reach.
pub fn is_safe_relative(rel: &str) -> (res: bool)
    ensures
        res == safe_relative(rel@),
{
    let v = chars_of(rel);
    if v.len() == 0 || v[0] == '/' {
        return false;
    }
    let mut i: usize = 0;
    while i < v.len()
        invariant
            i <= v@.len(),
            v@ == rel@,
            forall|j: int| 0 <= j < i ==> v@[j] != '\\',
        decreases v@.len() - i,
    {
        if v[i] == '\\' {
            assert(v@[i as int] == '\\');
            assert(rel@[i as int] == '\\');
            assert(rel@.contains('\\'));
            return false;
        }
        i = i + 1;
    }
    // Byte 1 is `:` only when the first character is ASCII and the second
    // one is `:`; after a wider first character it is a continuation byte.
    if v.len() >= 2 && (v[0] as u32) < 0x80 && v[1] == ':' {
        return false;
    }
    let parts = split_chars(&v, '/');
    let ghost ps = split_char(v@, '/');
    let mut k: usize = 0;
    while k < parts.len()
        invariant
            k <= parts@.len(),
            v@ == rel@,
            ps == split_char(v@, '/'),
            parts@.len() == ps.len(),
            forall|j: int| 0 <= j < parts@.len() ==> #[trigger] parts@[j]@ == ps[j],
            forall|j: int| 0 <= j < k ==> ps[j] != seq!['.', '.'],
        decreases parts@.len() - k,
    {
        let p = &parts[k];
        if p.len() == 2 && p[0] == '.' && p[1] == '.' {
            assert(p@ =~= seq!['.', '.']);
            assert(ps[k as int] == seq!['.', '.']);
            assert(ps.contains(seq!['.', '.']));
            assert(split_char(rel@, '/') == ps);
            assert(!safe_relative(rel@));
            return false;
        }
        if p.len() == 2 {
            assert(p@ != seq!['.', '.']) by {
                if p@[0] != '.' {
                    assert(p@[0] != seq!['.', '.'][0]);
                } else {
                    assert(p@[1] != seq!['.', '.'][1]);
                }
            }
        }
        k = k + 1;
    }
    true
}

} // verus!

verus! {

// ---------------------------------------------------------------------------
// Reading a PROPFIND answer

/// The value of an ASCII hex digit.
pub open spec fn hex_value(b: u8) -> Option<u8> {
    if 0x30 <= b <= 0x39 {
        Some((b - 0x30) as u8)
    } else if 0x41 <= b <= 0x46 {
        Some((b - 0x37) as u8)
    } else if 0x61 <= b <= 0x66 {
        Some((b - 0x57) as u8)
    } else {
        None
    }
}

/// Percent-decoding: every `%` followed by two hex digits becomes that byte;
/// everything else stays.
pub open spec fn percent_decode(bytes: Seq<u8>) -> Seq<u8>
    decreases bytes.len(),
{
    if bytes.len() == 0 {
        seq![]
    } else if bytes[0] == 0x25 && bytes.len() >= 3 && hex_value(bytes[1]) is Some && hex_value(
        bytes[2],
    ) is Some {
        seq![(hex_value(bytes[1])->0 * 16 + hex_value(bytes[2])->0) as u8] + percent_decode(
            bytes.skip(3),
        )
    } else {
        seq![bytes[0]] + percent_decode(bytes.drop_first())
    }
}

/// `percent_encoding::percent_decode_str`, collected into bytes: every `%`
/// followed by two hex digits becomes the byte they spell, every other byte of
/// the UTF-8 text is kept, as [`percent_decode`] states.
#[verifier::external_body]
fn percent_decode_bytes(s: &str) -> (res: Vec<u8>)
    ensures
        res@ == percent_decode(encode_utf8(s@)),
{
    percent_encoding::percent_decode_str(s).collect()
}

/// A percent-encoded href as text, with invalid UTF-8 replaced.
pub open spec fn decoded_href(s: Seq<char>) -> Seq<char> {
    crate::text::utf8_lossy(percent_decode(encode_utf8(s)))
}

/// One entry of a listing: a path relative to the watched root, its ETag
/// without quotes, and whether it is a collection.
#[derive(Debug, Clone)]
pub struct Entry {
    pub rel: String,
    pub etag: String,
    pub is_dir: bool,
}

pub type EntryView = (Seq<char>, Seq<char>, bool);

pub open spec fn entry_view(e: Entry) -> EntryView {
    (e.rel@, e.etag@, e.is_dir)
}

pub open spec fn entry_views(v: Seq<Entry>) -> Seq<EntryView> {
    v.map_values(|e: Entry| entry_view(e))
}

/// Whether node `j` is an element named `name`.
pub open spec fn named_element(ns: Seq<XmlNodeView>, j: int, name: Seq<char>) -> bool {
    0 <= j < ns.len() && ns[j].1 && ns[j].2 == name
}

/// Whether node `i` is reached from node `j` by following at most `fuel`
/// parent links.
pub open spec fn within(ns: Seq<XmlNodeView>, j: int, i: int, fuel: nat) -> bool
    decreases fuel,
{
    if j == i {
        true
    } else if fuel == 0 {
        false
    } else {
        match ns[j].0 {
            Some(p) => p < ns.len() && within(ns, p as int, i, (fuel - 1) as nat),
            None => false,
        }
    }
}

/// Whether node `j` is node `i` or lies below it.
pub open spec fn descendant(ns: Seq<XmlNodeView>, j: int, i: int) -> bool {
    0 <= j < ns.len() && within(ns, j, i, ns.len())
}

/// The first position from `k` below `n` at which `p` holds, or -1.
pub open spec fn first_from(n: int, k: int, p: spec_fn(int) -> bool) -> int
    decreases n - k,
{
    if k >= n {
        -1
    } else if p(k) {
        k
    } else {
        first_from(n, k + 1, p)
    }
}

pub proof fn lemma_first_from(n: int, k: int, p: spec_fn(int) -> bool, j: int)
    requires
        k <= j <= n,
        forall|m: int| k <= m < j ==> !#[trigger] p(m),
        j < n ==> p(j),
    ensures
        first_from(n, k, p) == if j < n { j } else { -1 },
    decreases j - k,
{
    if k < j {
        lemma_first_from(n, k + 1, p, j);
    }
}

/// The text of node `j`, or nothing.
pub open spec fn text_at(ns: Seq<XmlNodeView>, j: int) -> Seq<char> {
    if 0 <= j < ns.len() && ns[j].3 is Some {
        ns[j].3->0
    } else {
        Seq::empty()
    }
}

/// The first child of `i` that is an element named `name`, or -1.
pub open spec fn child_named(ns: Seq<XmlNodeView>, i: int, name: Seq<char>) -> int {
    first_from(ns.len() as int, 0, |j: int| ns[j].0 == Some(i as usize) && named_element(ns, j, name))
}

/// The first element named `name` at or below `i` in document order, or -1.
pub open spec fn descendant_named(ns: Seq<XmlNodeView>, i: int, name: Seq<char>) -> int {
    first_from(ns.len() as int, i, |j: int| descendant(ns, j, i) && named_element(ns, j, name))
}

/// The entry a `response` element describes, when its href lies below `prefix`.
pub open spec fn response_entry(ns: Seq<XmlNodeView>, i: int, prefix: Seq<char>) -> Option<EntryView> {
    let href = trim_end_char(decoded_href(text_at(ns, child_named(ns, i, "href"@))), '/');
    let p = trim_end_char(prefix, '/');
    if p.is_prefix_of(href) {
        Some((
            trim_start_char(href.skip(p.len() as int), '/'),
            trim_char(text_at(ns, descendant_named(ns, i, "getetag"@)), '"'),
            descendant_named(ns, i, "collection"@) >= 0,
        ))
    } else {
        None
    }
}

/// The entries of the `response` elements among the first `n` nodes.
pub open spec fn entries_upto(ns: Seq<XmlNodeView>, prefix: Seq<char>, n: int) -> Seq<EntryView>
    decreases n,
{
    if n <= 0 {
        seq![]
    } else {
        let rest = entries_upto(ns, prefix, n - 1);
        if named_element(ns, n - 1, "response"@) && response_entry(ns, n - 1, prefix) is Some {
            rest.push(response_entry(ns, n - 1, prefix)->0)
        } else {
            rest
        }
    }
}

/// The path of a URL after its authority (`http://host/a/b` → `/a/b`); a
/// string without a scheme is taken as a path already.
pub open spec fn url_path(base: Seq<char>) -> Seq<char> {
    match split_once(base, "://"@) {
        Some((_, rest)) => match split_once(rest, "/"@) {
            Some((_, p)) => "/"@ + p,
            None => Seq::empty(),
        },
        None => base,
    }
}

/// The href prefix of the watched root.
pub open spec fn root_prefix(base: Seq<char>, root_path: Seq<char>) -> Seq<char> {
    if root_path.len() == 0 {
        url_path(base)
    } else {
        url_path(base) + "/"@ + root_path
    }
}

/// The entries of a PROPFIND answer, with paths relative to the watched root;
/// responses whose href is not below it are left out.
pub open spec fn multistatus_entries(xml: Seq<char>, base: Seq<char>, root_path: Seq<char>) -> Option<Seq<EntryView>> {
    match xml_outline(xml) {
        Some(ns) => Some(entries_upto(ns, root_prefix(base, root_path), ns.len() as int)),
        None => None,
    }
}

fn node_is_named(ns: &Vec<XmlNode>, j: usize, name: &str) -> (res: bool)
    requires
        j < ns@.len(),
    ensures
        res == named_element(node_views(ns@), j as int, name@),
{
    ns[j].element && str_eq(ns[j].name.as_str(), name)
}

fn is_within(ns: &Vec<XmlNode>, j: usize, i: usize) -> (res: bool)
    requires
        j < ns@.len(),
    ensures
        res == descendant(node_views(ns@), j as int, i as int),
{
    let ghost v = node_views(ns@);
    let n = ns.len();
    let mut cur = j;
    let mut fuel = n;
    loop
        invariant
            cur < n,
            j < n,
            n == ns@.len(),
            v == node_views(ns@),
            v.len() == n,
            within(v, j as int, i as int, n as nat) == within(v, cur as int, i as int, fuel as nat),
        decreases fuel,
    {
        if cur == i {
            return true;
        }
        if fuel == 0 {
            return false;
        }
        match ns[cur].parent {
            Some(p) => {
                if p < n {
                    cur = p;
                    fuel = fuel - 1;
                } else {
                    return false;
                }
            },
            None => {
                return false;
            },
        }
    }
}

fn find_child_named(ns: &Vec<XmlNode>, i: usize, name: &str) -> (res: Option<usize>)
    ensures
        match res {
            Some(j) => child_named(node_views(ns@), i as int, name@) == j && j < ns@.len(),
            None => child_named(node_views(ns@), i as int, name@) == -1,
        },
{
    let ghost v = node_views(ns@);
    let ghost p = |j: int| v[j].0 == Some(i as usize) && named_element(v, j, name@);
    let mut j: usize = 0;
    while j < ns.len()
        invariant
            j <= ns@.len(),
            v == node_views(ns@),
            p == (|j: int| v[j].0 == Some(i as usize) && named_element(v, j, name@)),
            forall|m: int| 0 <= m < j ==> !#[trigger] p(m),
        decreases ns@.len() - j,
    {
        if ns[j].parent == Some(i) && node_is_named(ns, j, name) {
            proof {
                lemma_first_from(v.len() as int, 0, p, j as int);
            }
            return Some(j);
        }
        j = j + 1;
    }
    proof {
        lemma_first_from(v.len() as int, 0, p, j as int);
    }
    None
}

fn find_descendant_named(ns: &Vec<XmlNode>, i: usize, name: &str) -> (res: Option<usize>)
    ensures
        match res {
            Some(j) => descendant_named(node_views(ns@), i as int, name@) == j && j < ns@.len(),
            None => descendant_named(node_views(ns@), i as int, name@) == -1,
        },
{
    let ghost v = node_views(ns@);
    let ghost p = |j: int| descendant(v, j, i as int) && named_element(v, j, name@);
    if i >= ns.len() {
        assert(v.len() == ns@.len());
        return None;
    }
    let mut j: usize = i;
    while j < ns.len()
        invariant
            i <= j <= ns@.len(),
            v == node_views(ns@),
            p == (|j: int| descendant(v, j, i as int) && named_element(v, j, name@)),
            forall|m: int| i <= m < j ==> !#[trigger] p(m),
        decreases ns@.len() - j,
    {
        if node_is_named(ns, j, name) && is_within(ns, j, i) {
            proof {
                lemma_first_from(v.len() as int, i as int, p, j as int);
            }
            return Some(j);
        }
        j = j + 1;
    }
    proof {
        lemma_first_from(v.len() as int, i as int, p, j as int);
    }
    None
}

fn text_of(ns: &Vec<XmlNode>, j: Option<usize>) -> (res: Vec<char>)
    requires
        j matches Some(k) ==> k < ns@.len(),
    ensures
        res@ == text_at(node_views(ns@), match j {
            Some(k) => k as int,
            None => -1,
        }),
{
    match j {
        Some(k) => match &ns[k].text {
            Some(t) => chars_of(t.as_str()),
            None => Vec::new(),
        },
        None => Vec::new(),
    }
}

fn url_path_exec(base: &Vec<char>) -> (res: Vec<char>)
    ensures
        res@ == url_path(base@),
{
    let sep = chars_of("://");
    let slash = chars_of("/");
    match split_once_exec(base, &sep) {
        Some((_, rest)) => match split_once_exec(&rest, &slash) {
            Some((_, p)) => {
                let mut out = chars_of("/");
                push_all(&mut out, &p);
                out
            },
            None => Vec::new(),
        },
        None => slice_chars(base, 0, base.len()),
    }
}

/// Extracts `(path, etag, is_dir)` triples from a WebDAV multistatus answer,
/// with paths made relative to the watched root.
pub fn parse_multistatus(xml: &str, base: &str, root_path: &str) -> (res: Result<Vec<Entry>, SourceError>)
    ensures
        match multistatus_entries(xml@, base@, root_path@) {
            Some(es) => res matches Ok(v) && entry_views(v@) == es,
            None => res matches Err(e) && e is BadResponse,
        },
{
    match parse_xml(xml) {
        Ok(ns) => Ok(multistatus_entries_of(&ns, base, root_path)),
        Err(detail) => Err(SourceError::BadResponse { detail }),
    }
}

/// The entries of the `response` elements of a parsed multistatus answer,
/// in document order, with paths relative to the watched root; responses
/// whose href is not below the root are left out.
pub fn multistatus_entries_of(ns: &Vec<XmlNode>, base: &str, root_path: &str) -> (res: Vec<Entry>)
    ensures
        entry_views(res@) == entries_upto(node_views(ns@), root_prefix(base@, root_path@), ns@.len() as int),
{
    let ghost v = node_views(ns@);
    let bp = url_path_exec(&chars_of(base));
    let rp = chars_of(root_path);
    let prefix = if rp.len() == 0 {
        bp
    } else {
        let mut p = bp;
        push_str(&mut p, "/");
        push_all(&mut p, &rp);
        p
    };
    proof {
        reveal_strlit("/");
    }
    assert(prefix@ == root_prefix(base@, root_path@));
    let p = trim_end_chars(&prefix, '/');
    let mut entries: Vec<Entry> = Vec::new();
    let mut i: usize = 0;
    assert(entry_views(entries@) =~= Seq::<EntryView>::empty());
    while i < ns.len()
        invariant
            i <= ns@.len(),
            v == node_views(ns@),
            prefix@ == root_prefix(base@, root_path@),
            p@ == trim_end_char(prefix@, '/'),
            entry_views(entries@) == entries_upto(v, prefix@, i as int),
        decreases ns@.len() - i,
    {
        if node_is_named(ns, i, "response") {
            let h = find_child_named(ns, i, "href");
            let raw = string_from_chars(&text_of(ns, h));
            let bytes = percent_decode_bytes(raw.as_str());
            let decoded = crate::text::string_from_utf8_lossy(bytes.as_slice());
            let href = trim_end_chars(&chars_of(decoded.as_str()), '/');
            if p.len() <= href.len() && chars_eq(&slice_chars(&href, 0, p.len()), &p) {
                let rest = slice_chars(&href, p.len(), href.len());
                assert(rest@ =~= href@.skip(p@.len() as int));
                let rel = trim_start_chars(&rest, '/');
                let g = find_descendant_named(ns, i, "getetag");
                let etag = trim_chars(&text_of(ns, g), '"');
                let is_dir = find_descendant_named(ns, i, "collection").is_some();
                let ghost before = entry_views(entries@);
                entries.push(Entry { rel: string_from_chars(&rel), etag: string_from_chars(&etag), is_dir });
                assert(entry_views(entries@) =~= before.push(response_entry(v, i as int, prefix@)->0));
            } else {
                assert(!p@.is_prefix_of(href@));
            }
        }
        i = i + 1;
    }
    entries
}

/// The ETag of the watched root: that of the first entry of a `Depth: 0` answer.
pub fn root_etag_of(entries: &Vec<Entry>) -> (res: Result<String, SourceError>)
    ensures
        entries@.len() > 0 ==> (res matches Ok(e) && e@ == entries@[0].etag@),
        entries@.len() == 0 ==> (res matches Err(e) && e is NoRootEntry),
{
    if entries.len() == 0 {
        Err(SourceError::NoRootEntry)
    } else {
        Ok(entries[0].etag.clone())
    }
}

} // verus!

verus! {

// ---------------------------------------------------------------------------
// Walking the remote tree

/// Whether a listed entry joins the crawl: it is not the listed collection
/// itself, and its path does not escape the working copy. The path comes from
/// a server-controlled href; a hostile server could send one that decodes to
/// `../..`.
pub open spec fn admitted(dir: Seq<char>, e: EntryView) -> bool {
    e.0 != dir && safe_relative(e.0)
}

/// What is known of the remote files after a listing of `dir`: each admitted
/// file with its ETag.
pub open spec fn add_files(m: Map<Seq<char>, Seq<char>>, dir: Seq<char>, es: Seq<EntryView>) -> Map<Seq<char>, Seq<char>>
    decreases es.len(),
{
    if es.len() == 0 {
        m
    } else {
        let rest = add_files(m, dir, es.drop_last());
        let e = es.last();
        if admitted(dir, e) && !e.2 {
            rest.insert(e.0, e.1)
        } else {
            rest
        }
    }
}

/// The paths of a listing of `dir` that escape the working copy, in order.
pub open spec fn refused(dir: Seq<char>, es: Seq<EntryView>) -> Seq<Seq<char>>
    decreases es.len(),
{
    if es.len() == 0 {
        seq![]
    } else {
        let rest = refused(dir, es.drop_last());
        let e = es.last();
        if e.0 != dir && !safe_relative(e.0) {
            rest.push(e.0)
        } else {
            rest
        }
    }
}

/// The admitted collections of a listing of `dir`, in order.
pub open spec fn subdirs(dir: Seq<char>, es: Seq<EntryView>) -> Seq<Seq<char>>
    decreases es.len(),
{
    if es.len() == 0 {
        seq![]
    } else {
        let rest = subdirs(dir, es.drop_last());
        let e = es.last();
        if admitted(dir, e) && e.2 {
            rest.push(e.0)
        } else {
            rest
        }
    }
}

/// Every collection a listing names, other than the listed one itself and
/// whatever would escape the working copy, is queued for listing in turn, at
/// any depth; and nothing else is queued.
pub proof fn lemma_every_listed_collection_is_queued(dir: Seq<char>, es: Seq<EntryView>)
    ensures
        forall|i: int|
            0 <= i < es.len() && es[i].2 && es[i].0 != dir && safe_relative(es[i].0) ==> #[trigger] subdirs(
                dir,
                es,
            ).contains(es[i].0),
        forall|p: Seq<char>|
            #[trigger] subdirs(dir, es).contains(p) ==> exists|i: int|
                0 <= i < es.len() && es[i].0 == p && es[i].2 && p != dir && safe_relative(p),
    decreases es.len(),
{
    if es.len() > 0 {
        let init = es.drop_last();
        lemma_every_listed_collection_is_queued(dir, init);
        let rest = subdirs(dir, init);
        let e = es.last();
        assert forall|i: int|
            0 <= i < es.len() && es[i].2 && es[i].0 != dir && safe_relative(es[i].0) implies #[trigger] subdirs(
                dir,
                es,
            ).contains(es[i].0) by {
            if i < es.len() - 1 {
                assert(init[i] == es[i]);
                assert(subdirs(dir, init).contains(init[i].0));
                let k = choose|k: int| 0 <= k < rest.len() && rest[k] == es[i].0;
                if admitted(dir, e) && e.2 {
                    assert(rest.push(e.0)[k] == es[i].0);
                }
            } else {
                assert(rest.push(e.0)[rest.len() as int] == e.0);
            }
        }
        assert forall|p: Seq<char>| #[trigger] subdirs(dir, es).contains(p) implies exists|i: int|
            0 <= i < es.len() && es[i].0 == p && es[i].2 && p != dir && safe_relative(p) by {
            if admitted(dir, e) && e.2 && p == e.0 {
                assert(es[es.len() - 1] == e);
            } else {
                let k = choose|k: int| 0 <= k < subdirs(dir, es).len() && subdirs(dir, es)[k] == p;
                if admitted(dir, e) && e.2 {
                    assert(rest.push(e.0)[k] == p);
                    assert(k < rest.len());
                    assert(rest[k] == p);
                }
                assert(rest.contains(p));
                let i = choose|i: int| 0 <= i < init.len() && init[i].0 == p && init[i].2 && p != dir && safe_relative(p);
                assert(es[i] == init[i]);
            }
        }
    }
}

/// Every file a listing names, unless its path would escape the working copy,
/// is recorded with the ETag of its last listing entry; the files known
/// before stay known, and nothing else is added.
pub proof fn lemma_every_listed_file_is_recorded(m: Map<Seq<char>, Seq<char>>, dir: Seq<char>, es: Seq<EntryView>)
    ensures
        forall|i: int|
            0 <= i < es.len() && !es[i].2 && es[i].0 != dir && safe_relative(es[i].0) && (forall|j: int|
                i < j < es.len() ==> es[j].0 != es[i].0) ==> #[trigger] add_files(m, dir, es).contains_key(
                es[i].0,
            ) && add_files(m, dir, es)[es[i].0] == es[i].1,
        forall|k: Seq<char>| #[trigger] m.contains_key(k) ==> add_files(m, dir, es).contains_key(k),
        forall|k: Seq<char>|
            #[trigger] add_files(m, dir, es).contains_key(k) ==> m.contains_key(k) || exists|i: int|
                0 <= i < es.len() && es[i].0 == k && !es[i].2 && k != dir && safe_relative(k),
    decreases es.len(),
{
    if es.len() > 0 {
        let init = es.drop_last();
        lemma_every_listed_file_is_recorded(m, dir, init);
        assert forall|i: int|
            0 <= i < es.len() && !es[i].2 && es[i].0 != dir && safe_relative(es[i].0) && (forall|j: int|
                i < j < es.len() ==> es[j].0 != es[i].0) implies #[trigger] add_files(m, dir, es).contains_key(
                es[i].0,
            ) && add_files(m, dir, es)[es[i].0] == es[i].1 by {
            if i < es.len() - 1 {
                assert(init[i] == es[i]);
                assert(es[es.len() - 1].0 != es[i].0);
                assert forall|j: int| i < j < init.len() implies init[j].0 != init[i].0 by {
                    assert(init[j] == es[j]);
                }
                assert(add_files(m, dir, init).contains_key(init[i].0));
            }
        }
        assert forall|k: Seq<char>| #[trigger] add_files(m, dir, es).contains_key(k) implies m.contains_key(k)
            || exists|i: int| 0 <= i < es.len() && es[i].0 == k && !es[i].2 && k != dir && safe_relative(k) by {
            let e = es.last();
            if admitted(dir, e) && !e.2 && k == e.0 {
                assert(es[es.len() - 1] == e);
            } else {
                assert(add_files(m, dir, init).contains_key(k));
                if !m.contains_key(k) {
                    let i = choose|i: int| 0 <= i < init.len() && init[i].0 == k && !init[i].2 && k != dir && safe_relative(k);
                    assert(es[i] == init[i]);
                }
            }
        }
    }
}

/// The state of a descent through the remote tree: the collections still to
/// list, and the files found so far with their ETags.
#[derive(Debug, Clone)]
pub struct Crawl {
    queue: Vec<String>,
    remote: StrMap,
}

impl Crawl {
    /// The collections still to list; the last is listed next.
    pub closed spec fn pending(&self) -> Seq<Seq<char>> {
        strs(self.queue@)
    }

    /// The remote files found so far, with their ETags.
    pub closed spec fn files(&self) -> Map<Seq<char>, Seq<char>> {
        self.remote.view_map()
    }

    /// Nothing the crawl holds escapes the working copy: every file is a safe
    /// relative path, and so is every collection still to list but the root.
    pub open spec fn wf(&self) -> bool {
        &&& forall|k: Seq<char>| #[trigger] self.files().contains_key(k) ==> safe_relative(k)
        &&& forall|i: int|
            0 <= i < self.pending().len() ==> #[trigger] self.pending()[i] == Seq::<char>::empty()
                || safe_relative(self.pending()[i])
    }

    /// A crawl that starts at the watched root, knowing no file.
    pub fn new() -> (res: Self)
        ensures
            res.wf(),
            res.pending() == seq![Seq::<char>::empty()],
            res.files() == Map::<Seq<char>, Seq<char>>::empty(),
    {
        let mut queue: Vec<String> = Vec::new();
        queue.push(String::new());
        let res = Crawl { queue, remote: StrMap::new() };
        assert(res.pending() =~= seq![Seq::<char>::empty()]);
        res
    }

    /// The next collection to list, taken off the queue; `None` when the
    /// descent is done.
    pub fn next_dir(&mut self) -> (res: Option<String>)
        requires
            old(self).wf(),
        ensures
            final(self).wf(),
            final(self).files() == old(self).files(),
            old(self).pending().len() == 0 ==> res is None && final(self).pending() == old(self).pending(),
            old(self).pending().len() > 0 ==> (res matches Some(d) && d@ == old(self).pending().last()
                && final(self).pending() == old(self).pending().drop_last()),
    {
        let ghost before = self.pending();
        let res = self.queue.pop();
        proof {
            assert forall|k: Seq<char>| #[trigger] self.files().contains_key(k) implies safe_relative(k) by {
                assert(old(self).files().contains_key(k));
            }
            if before.len() > 0 {
                assert(self.pending() =~= before.drop_last());
                assert forall|i: int| 0 <= i < self.pending().len() implies #[trigger] self.pending()[i]
                    == Seq::<char>::empty() || safe_relative(self.pending()[i]) by {
                    assert(self.pending()[i] == before[i]);
                }
            } else {
                assert(self.pending() =~= before);
            }
        }
        res
    }

    /// Takes in the listing of `dir`: the collection itself and paths that
    /// escape the working copy are passed over, collections are queued and
    /// files recorded with their ETags. Returns the paths passed over because
    /// they escape the working copy, for the log.
    pub fn absorb(&mut self, dir: &str, entries: &Vec<Entry>) -> (res: Vec<String>)
        requires
            old(self).wf(),
        ensures
            final(self).wf(),
            final(self).files() == add_files(old(self).files(), dir@, entry_views(entries@)),
            final(self).pending() == old(self).pending() + subdirs(dir@, entry_views(entries@)),
            strs(res@) == refused(dir@, entry_views(entries@)),
    {
        let ghost ev = entry_views(entries@);
        let ghost files0 = self.files();
        let ghost pending0 = self.pending();
        let mut passed_over: Vec<String> = Vec::new();
        let mut i: usize = 0;
        assert(ev.take(0) =~= Seq::<EntryView>::empty());
        assert(pending0 + subdirs(dir@, ev.take(0)) =~= pending0);
        assert(strs(passed_over@) =~= Seq::<Seq<char>>::empty());
        while i < entries.len()
            invariant
                i <= entries@.len(),
                ev == entry_views(entries@),
                self.wf(),
                self.files() == add_files(files0, dir@, ev.take(i as int)),
                self.pending() == pending0 + subdirs(dir@, ev.take(i as int)),
                strs(passed_over@) == refused(dir@, ev.take(i as int)),
            decreases entries@.len() - i,
        {
            let e = &entries[i];
            assert(ev.take(i + 1).drop_last() =~= ev.take(i as int));
            assert(ev.take(i + 1).last() == entry_view(*e));
            if !str_eq(e.rel.as_str(), dir) {
                if is_safe_relative(e.rel.as_str()) {
                    if e.is_dir {
                        let ghost before = self.pending();
                        self.queue.push(e.rel.clone());
                        assert(self.pending() =~= before.push(e.rel@));
                    } else {
                        self.remote.set(e.rel.as_str(), e.etag.as_str());
                    }
                } else {
                    push_string(&mut passed_over, e.rel.clone());
                }
            }
            i = i + 1;
        }
        assert(ev.take(entries@.len() as int) =~= ev);
        passed_over
    }

    /// The remote files found, with their ETags.
    pub fn into_files(self) -> (res: StrMap)
        ensures
            res.view_map() == self.files(),
    {
        self.remote
    }
}

// ---------------------------------------------------------------------------
// Deciding what to fetch and what to delete

/// Whether the last sync saw `token` and the working copy is still there: then
/// there is nothing to do.
pub open spec fn sync_is_current(known: Option<Seq<char>>, token: Seq<char>, dest_exists: bool) -> bool {
    known == Some(token) && dest_exists
}

pub fn is_unchanged(state: &State, token: &str, dest_exists: bool) -> (res: bool)
    ensures
        res == sync_is_current(opt_string_view(state.root_etag), token@, dest_exists),
{
    match &state.root_etag {
        Some(known) => dest_exists && str_eq(known.as_str(), token),
        None => false,
    }
}

/// What follows the last `/` of a path, or the whole path.
pub open spec fn last_segment(p: Seq<char>) -> Seq<char> {
    p.skip(crate::paths::last_index(p, '/') + 1)
}

fn last_segment_exec(p: &Vec<char>) -> (res: Vec<char>)
    ensures
        res@ == last_segment(p@),
{
    let mut i = p.len();
    assert(p@.take(i as int) =~= p@);
    while i > 0 && p[i - 1] != '/'
        invariant
            i <= p@.len(),
            crate::paths::last_index(p@, '/') == crate::paths::last_index(p@.take(i as int), '/'),
        decreases i,
    {
        assert(p@.take(i as int).drop_last() =~= p@.take(i - 1));
        i = i - 1;
    }
    proof {
        if i > 0 {
            assert(p@.take(i as int).last() == '/');
        } else {
            assert(p@.take(0) =~= Seq::<char>::empty());
        }
    }
    slice_chars(p, i, p.len())
}

/// What to do with one remote file.
#[derive(Debug, Clone, Copy, PartialEq, Eq, Structural)]
pub enum RemoteAction {
    /// A conflict copy: reported, never fetched.
    ConflictCopy,
    /// The working copy already holds this version.
    UpToDate,
    Fetch,
}

pub open spec fn remote_action(rel: Seq<char>, etag: Seq<char>, known: Map<Seq<char>, Seq<char>>, target_exists: bool) -> RemoteAction {
    if contains(last_segment(rel), conflict_marker()) {
        RemoteAction::ConflictCopy
    } else if known.contains_key(rel) && known[rel] == etag && target_exists {
        RemoteAction::UpToDate
    } else {
        RemoteAction::Fetch
    }
}

/// Decides about the remote file `rel` with `etag`, given the ETags of the
/// last sync and whether the local copy exists: only files whose ETag changed
/// are downloaded.
pub fn plan_remote(rel: &str, etag: &str, known: &StrMap, target_exists: bool) -> (res: RemoteAction)
    ensures
        res == remote_action(rel@, etag@, known.view_map(), target_exists),
{
    let name = string_from_chars(&last_segment_exec(&chars_of(rel)));
    if is_conflict_copy(name.as_str()) {
        return RemoteAction::ConflictCopy;
    }
    match known.get(rel) {
        Some(e) => if target_exists && str_eq(e.as_str(), etag) {
            RemoteAction::UpToDate
        } else {
            RemoteAction::Fetch
        },
        None => RemoteAction::Fetch,
    }
}

/// The paths of `m`'s pairs, in order.
pub open spec fn pair_keys(pairs: Seq<(Seq<char>, Seq<char>)>) -> Seq<Seq<char>> {
    pairs.map_values(|p: (Seq<char>, Seq<char>)| p.0)
}

/// The remote files in the order they are handled: sorted by path.
pub fn remote_paths(remote: &StrMap) -> (res: Vec<String>)
    ensures
        strs(res@) == pair_keys(remote.pairs()).sort_by(str_order()),
{
    let keys = remote.keys();
    assert(strs(keys@) =~= pair_keys(remote.pairs()));
    sort_strings(&keys)
}

/// The local paths that are not among the remote files, in order.
pub open spec fn stale(local: Seq<Seq<char>>, remote: Map<Seq<char>, Seq<char>>) -> Seq<Seq<char>>
    decreases local.len(),
{
    if local.len() == 0 {
        seq![]
    } else {
        let rest = stale(local.drop_last(), remote);
        if remote.contains_key(local.last()) {
            rest
        } else {
            rest.push(local.last())
        }
    }
}

/// The local files to remove because they are gone remotely. The publish gate is what
/// stops a mass deletion from reaching the live site.
pub fn stale_paths(local: &Vec<String>, remote: &StrMap) -> (res: Vec<String>)
    ensures
        strs(res@) == stale(strs(local@), remote.view_map()),
{
    let ghost l = strs(local@);
    let mut out: Vec<String> = Vec::new();
    let mut i: usize = 0;
    assert(l.take(0) =~= Seq::<Seq<char>>::empty());
    while i < local.len()
        invariant
            i <= local@.len(),
            l == strs(local@),
            strs(out@) == stale(l.take(i as int), remote.view_map()),
        decreases local@.len() - i,
    {
        assert(l.take(i + 1).drop_last() =~= l.take(i as int));
        assert(l.take(i + 1).last() == local@[i as int]@);
        if remote.get(local[i].as_str()).is_none() {
            push_string(&mut out, local[i].clone());
        }
        i = i + 1;
    }
    assert(l.take(local@.len() as int) =~= l);
    out
}

/// Records a finished WebDAV sync: the remote files become the known ETags and
/// `token` the known root ETag. The report says a change happened when a file
/// was downloaded or deleted.
pub fn finish_sync(
    state: &mut State,
    remote: StrMap,
    token: String,
    downloaded: usize,
    deleted: usize,
    conflict_copies: Vec<String>,
) -> (res: SyncReport)
    ensures
        final(state).file_etags.view_map() == remote.view_map(),
        final(state).root_etag matches Some(t) && t@ == token@,
        final(state).content_hash == old(state).content_hash,
        final(state).last_release == old(state).last_release,
        final(state).last_result == old(state).last_result,
        final(state).last_build_finished == old(state).last_build_finished,
        final(state).self_write_fingerprint == old(state).self_write_fingerprint,
        res.changed == (downloaded > 0 || deleted > 0),
        res.downloaded == downloaded,
        res.deleted == deleted,
        strs(res.conflict_copies@) == strs(conflict_copies@),
{
    state.file_etags = remote;
    state.root_etag = Some(token);
    SyncReport { changed: downloaded > 0 || deleted > 0, downloaded, deleted, conflict_copies }
}

/// Once a sync has recorded `token` (as `finish_sync` and `finish_fs_sync`
/// do), a later sync that finds the same root token with the working copy in
/// place has nothing to do: `is_unchanged` answers `true` for it.
pub proof fn lemma_recorded_token_is_current(recorded: State, token: Seq<char>)
    requires
        recorded.root_etag matches Some(t) && t@ == token,
    ensures
        sync_is_current(opt_string_view(recorded.root_etag), token, true),
{
}

/// What an `fs` sync copies: every file but the conflict copies, which are
/// reported by name.
#[derive(Debug, Clone)]
pub struct FsPlan {
    pub copy: Vec<String>,
    pub conflict_copies: Vec<String>,
}

pub open spec fn fs_copies(files: Seq<Seq<char>>) -> Seq<Seq<char>>
    decreases files.len(),
{
    if files.len() == 0 {
        seq![]
    } else {
        let rest = fs_copies(files.drop_last());
        if contains(last_segment(files.last()), conflict_marker()) {
            rest
        } else {
            rest.push(files.last())
        }
    }
}

pub open spec fn fs_conflicts(files: Seq<Seq<char>>) -> Seq<Seq<char>>
    decreases files.len(),
{
    if files.len() == 0 {
        seq![]
    } else {
        let rest = fs_conflicts(files.drop_last());
        let name = last_segment(files.last());
        if contains(name, conflict_marker()) {
            rest.push(name)
        } else {
            rest
        }
    }
}

/// Splits the files of the source directory (paths relative to it, `/` as
/// separator) into those copied and the names of the conflict copies.
pub fn plan_fs_copy(files: &Vec<String>) -> (res: FsPlan)
    ensures
        strs(res.copy@) == fs_copies(strs(files@)),
        strs(res.conflict_copies@) == fs_conflicts(strs(files@)),
{
    let ghost f = strs(files@);
    let mut copy: Vec<String> = Vec::new();
    let mut conflicts: Vec<String> = Vec::new();
    let mut i: usize = 0;
    assert(f.take(0) =~= Seq::<Seq<char>>::empty());
    while i < files.len()
        invariant
            i <= files@.len(),
            f == strs(files@),
            strs(copy@) == fs_copies(f.take(i as int)),
            strs(conflicts@) == fs_conflicts(f.take(i as int)),
        decreases files@.len() - i,
    {
        assert(f.take(i + 1).drop_last() =~= f.take(i as int));
        assert(f.take(i + 1).last() == files@[i as int]@);
        let name = string_from_chars(&last_segment_exec(&chars_of(files[i].as_str())));
        if is_conflict_copy(name.as_str()) {
            push_string(&mut conflicts, name);
        } else {
            push_string(&mut copy, files[i].clone());
        }
        i = i + 1;
    }
    assert(f.take(files@.len() as int) =~= f);
    FsPlan { copy, conflict_copies: conflicts }
}

/// Records a finished `fs` sync: the working copy was replaced, so the report
/// always says it changed.
pub fn finish_fs_sync(state: &mut State, token: String, copied: usize, conflict_copies: Vec<String>) -> (res: SyncReport)
    ensures
        final(state).root_etag matches Some(t) && t@ == token@,
        final(state).file_etags == old(state).file_etags,
        final(state).content_hash == old(state).content_hash,
        final(state).last_release == old(state).last_release,
        final(state).last_result == old(state).last_result,
        final(state).last_build_finished == old(state).last_build_finished,
        final(state).self_write_fingerprint == old(state).self_write_fingerprint,
        res.changed,
        res.downloaded == copied,
        res.deleted == 0,
        strs(res.conflict_copies@) == strs(conflict_copies@),
{
    state.root_etag = Some(token);
    SyncReport { changed: true, downloaded: copied, deleted: 0, conflict_copies }
}

impl Source {
    /// The source a configuration describes; the secrets are passed in as for
    /// [`Webdav::new`].
    pub fn from_config(config: &Config, password: Option<String>, share_password: Option<String>) -> (res: Result<Source, SourceError>)
        ensures
            config.source.kind == SourceKind::Fs ==> (res matches Ok(s) && (s matches Source::Fs(f) && f.root@ == config.source.path@)),
            config.source.kind == SourceKind::Webdav ==> match webdav_refusal(*config, password) {
                Some(e0) => res matches Err(e) && e == e0,
                None => res matches Ok(s) && (s matches Source::Webdav(w) && describes(*config, password, share_password, w)),
            },
    {
        match config.source.kind {
            SourceKind::Webdav => match Webdav::new(config, password, share_password) {
                Ok(w) => Ok(Source::Webdav(w)),
                Err(e) => Err(e),
            },
            SourceKind::Fs => Ok(Source::Fs(Fs { root: config.source.path.clone() })),
        }
    }

    /// Where the content comes from, for the log.
    pub fn describe(&self) -> (res: String)
        ensures
            res@ == match self {
                Source::Webdav(w) => w.base@,
                Source::Fs(f) => f.root@,
            },
    {
        match self {
            Source::Webdav(w) => w.base.clone(),
            Source::Fs(f) => f.root.clone(),
        }
    }
}

} // verus!
