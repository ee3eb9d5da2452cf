//! The builder-side HTTP agent's rules.
//!
//! The watcher holds the credentials and must not run the build; it also must
//! not be able to start containers, because mounting the Docker socket is
//! equivalent to handing out root on the host. What is left is a small
//! endpoint inside the builder, reachable only on the internal network. The
//! service listens and runs the command; who may trigger a build, what is run
//! and what is answered is decided here.

use vstd::prelude::*;
use vstd::utf8::encode_utf8;
use crate::config::Config;
use crate::text::{chars_of, occurs_at, occurs_at_exec, slice_chars, str_eq, string_from_chars, string_from_utf8_lossy, strs, utf8_lossy};

verus! {

/// How many bytes of a build log are kept.
pub const TAIL_LIMIT: usize = 8192;

/// The number of bytes of `s` in UTF-8.
pub open spec fn byte_len(s: Seq<char>) -> nat {
    encode_utf8(s).len()
}

/// The number of bytes of one character in UTF-8.
pub open spec fn char_width(c: char) -> nat {
    if (c as u32) <= 0x7f {
        1
    } else if (c as u32) <= 0x7ff {
        2
    } else if (c as u32) <= 0xffff {
        3
    } else {
        4
    }
}

proof fn lemma_encode_concat(a: Seq<char>, b: Seq<char>)
    ensures
        encode_utf8(a + b) == encode_utf8(a) + encode_utf8(b),
    decreases a.len(),
{
    if a.len() > 0 {
        assert((a + b).drop_first() =~= a.drop_first() + b);
        lemma_encode_concat(a.drop_first(), b);
        assert(encode_utf8(a + b) =~= encode_utf8(a) + encode_utf8(b));
    } else {
        assert(a + b =~= b);
    }
}

proof fn lemma_byte_len_push(s: Seq<char>, c: char)
    ensures
        byte_len(s.push(c)) == byte_len(s) + char_width(c),
{
    lemma_encode_concat(s, seq![c]);
    assert(s.push(c) =~= s + seq![c]);
    assert(seq![c].drop_first() =~= Seq::<char>::empty());
    vstd::utf8::char_is_scalar(c);
    assert(encode_utf8(seq![c]) =~= vstd::utf8::encode_scalar(c as u32) + encode_utf8(Seq::<char>::empty()));
    assert(encode_utf8(seq![c]).len() == char_width(c));
}

/// The first character position from `k` on before which at least `start`
/// bytes lie, or the end.
pub open spec fn boundary_from(s: Seq<char>, start: int, k: int) -> int
    decreases s.len() - k,
{
    if k >= s.len() {
        s.len() as int
    } else if byte_len(s.take(k)) >= start {
        k
    } else {
        boundary_from(s, start, k + 1)
    }
}

/// The end of a build log: the text itself when it is at most
/// [`TAIL_LIMIT`] bytes long, otherwise `…` and the last characters, cut at
/// the first character boundary that keeps no more than the limit.
pub open spec fn tail_of(s: Seq<char>) -> Seq<char> {
    if byte_len(s) <= TAIL_LIMIT {
        s
    } else {
        seq!['\u{2026}'] + s.skip(boundary_from(s, byte_len(s) - TAIL_LIMIT, 0))
    }
}

proof fn lemma_boundary(s: Seq<char>, start: int, k: int)
    requires
        0 <= k <= s.len(),
    ensures
        k <= boundary_from(s, start, k) <= s.len(),
        boundary_from(s, start, k) == s.len() || byte_len(s.take(boundary_from(s, start, k))) >= start,
    decreases s.len() - k,
{
    if k < s.len() && byte_len(s.take(k)) < start {
        lemma_boundary(s, start, k + 1);
    }
}

/// A truncated log keeps no more than [`TAIL_LIMIT`] bytes of the end of the
/// text, behind the `…` marker; a short log is kept whole.
pub proof fn lemma_tail_is_bounded(s: Seq<char>)
    ensures
        byte_len(s) <= TAIL_LIMIT ==> tail_of(s) == s,
        byte_len(s) > TAIL_LIMIT ==> ({
            let b = boundary_from(s, byte_len(s) - TAIL_LIMIT, 0);
            &&& tail_of(s) == seq!['\u{2026}'] + s.skip(b)
            &&& byte_len(s.skip(b)) <= TAIL_LIMIT
        }),
{
    if byte_len(s) > TAIL_LIMIT {
        let start = byte_len(s) - TAIL_LIMIT;
        let b = boundary_from(s, start, 0);
        lemma_boundary(s, start, 0);
        lemma_encode_concat(s.take(b), s.skip(b));
        assert(s.take(b) + s.skip(b) =~= s);
        if b == s.len() {
            assert(s.skip(b) =~= Seq::<char>::empty());
        }
    }
}

fn width_of(c: char) -> (res: u8)
    ensures
        res == char_width(c),
{
    let u = c as u32;
    if u <= 0x7f {
        1
    } else if u <= 0x7ff {
        2
    } else if u <= 0xffff {
        3
    } else {
        4
    }
}

/// The first character position before which at least `start` bytes lie,
/// or the end.
pub(crate) fn boundary_exec(s: &Vec<char>, start: u128) -> (res: usize)
    ensures
        res == boundary_from(s@, start as int, 0),
        res <= s@.len(),
{
    let n = s.len();
    let mut acc: u128 = 0;
    let mut k: usize = 0;
    assert(s@.take(0) =~= Seq::<char>::empty());
    while k < n && acc < start
        invariant
            k <= n == s@.len(),
            acc == byte_len(s@.take(k as int)),
            acc <= 4 * k,
            boundary_from(s@, start as int, 0) == boundary_from(s@, start as int, k as int),
        decreases n - k,
    {
        proof {
            lemma_byte_len_push(s@.take(k as int), s@[k as int]);
            assert(s@.take(k as int).push(s@[k as int]) =~= s@.take(k + 1));
        }
        acc = acc + width_of(s[k]) as u128;
        k = k + 1;
    }
    k
}

/// Build logs can be large; the watcher only needs the end of them for its
/// status report.
pub fn tail(text: &str) -> (res: String)
    ensures
        res@ == tail_of(text@),
{
    let s = chars_of(text);
    let n = s.len();
    let mut total: u128 = 0;
    let mut i: usize = 0;
    assert(s@.take(0) =~= Seq::<char>::empty());
    while i < n
        invariant
            i <= n == s@.len(),
            total == byte_len(s@.take(i as int)),
            total <= 4 * i,
        decreases n - i,
    {
        proof {
            lemma_byte_len_push(s@.take(i as int), s@[i as int]);
            assert(s@.take(i as int).push(s@[i as int]) =~= s@.take(i + 1));
        }
        total = total + width_of(s[i]) as u128;
        i = i + 1;
    }
    assert(s@.take(n as int) =~= s@);
    if total <= TAIL_LIMIT as u128 {
        return string_from_chars(&s);
    }
    let start = total - TAIL_LIMIT as u128;
    let k = boundary_exec(&s, start);
    let mut out: Vec<char> = Vec::new();
    out.push('\u{2026}');
    let rest = slice_chars(&s, k, n);
    crate::text::push_all(&mut out, &rest);
    assert(rest@ =~= s@.skip(k as int));
    string_from_chars(&out)
}

// ---------------------------------------------------------------------------
// Requests

pub open spec fn bearer_token(header: Seq<char>) -> Option<Seq<char>> {
    if "Bearer "@.is_prefix_of(header) {
        Some(header.skip(7))
    } else {
        None
    }
}

/// Whether a build request may proceed: without a configured token anyone on
/// the internal network may build; with one, the `Authorization` header must
/// carry it as a bearer token.
pub open spec fn authorized_spec(expected: Option<Seq<char>>, authorization: Option<Seq<char>>) -> bool {
    match expected {
        None => true,
        Some(t) => authorization matches Some(h) && bearer_token(h) == Some(t),
    }
}

pub fn authorized(expected: Option<&str>, authorization: Option<&str>) -> (res: bool)
    ensures
        res == authorized_spec(
            match expected {
                Some(t) => Some(t@),
                None => None,
            },
            match authorization {
                Some(h) => Some(h@),
                None => None,
            },
        ),
{
    let t = match expected {
        None => return true,
        Some(t) => t,
    };
    let h = match authorization {
        None => return false,
        Some(h) => chars_of(h),
    };
    let prefix = chars_of("Bearer ");
    proof {
        reveal_strlit("Bearer ");
    }
    if h.len() < 7 || !occurs_at_exec(&h, &prefix, 0) {
        assert(!"Bearer "@.is_prefix_of(h@)) by {
            if "Bearer "@.is_prefix_of(h@) {
                assert(occurs_at(h@, prefix@, 0)) by {
                    assert(h@.subrange(0, 7) =~= prefix@);
                }
            }
        }
        return false;
    }
    assert(occurs_at(h@, prefix@, 0));
    assert("Bearer "@.is_prefix_of(h@)) by {
        assert(h@.subrange(0, 7) =~= prefix@);
    }
    let presented = slice_chars(&h, 7, h.len());
    assert(presented@ =~= h@.skip(7));
    str_eq(string_from_chars(&presented).as_str(), t)
}

/// What the agent does with a build request.
#[derive(Debug, Clone)]
pub enum BuildPlan {
    /// Answer with this status and text.
    Refuse { status: u16, message: String },
    /// Run `program` with `args` in the build tree.
    Run { program: String, args: Vec<String> },
}

/// Decides a build request. The command is fixed in the configuration; the
/// request carries no command and no arguments, so nothing in it can become
/// code.
pub fn plan_build(config: &Config, token: Option<&str>, authorization: Option<&str>) -> (res: BuildPlan)
    ensures
        ({
            let expected = match token {
                Some(t) => Some(t@),
                None => None,
            };
            let presented = match authorization {
                Some(h) => Some(h@),
                None => None,
            };
            if !authorized_spec(expected, presented) {
                res matches BuildPlan::Refuse { status, message } && status == 401 && message@ == "invalid token"@
            } else {
                match config.build.command {
                    None => res matches BuildPlan::Refuse { status, message } && status == 500
                        && message@ == "build.command is not configured in the builder"@,
                    Some(c) => if c@.len() == 0 {
                        res matches BuildPlan::Refuse { status, message } && status == 500
                            && message@ == "build.command is empty"@
                    } else {
                        res matches BuildPlan::Run { program, args } && program@ == c@[0]@
                            && strs(args@) == strs(c@).drop_first()
                    },
                }
            }
        }),
{
    if !authorized(token, authorization) {
        return BuildPlan::Refuse { status: 401, message: crate::text::owned("invalid token") };
    }
    match &config.build.command {
        None => BuildPlan::Refuse {
            status: 500,
            message: crate::text::owned("build.command is not configured in the builder"),
        },
        Some(c) => {
            if c.len() == 0 {
                return BuildPlan::Refuse { status: 500, message: crate::text::owned("build.command is empty") };
            }
            let mut args: Vec<String> = Vec::new();
            let mut i: usize = 1;
            while i < c.len()
                invariant
                    1 <= i <= c@.len(),
                    strs(args@) == strs(c@).subrange(1, i as int),
                decreases c@.len() - i,
            {
                let ghost before = strs(args@);
                args.push(c[i].clone());
                assert(strs(args@) =~= before.push(c@[i as int]@));
                assert(strs(c@).subrange(1, i + 1) =~= strs(c@).subrange(1, i as int).push(c@[i as int]@));
                i = i + 1;
            }
            assert(strs(c@).subrange(1, c@.len() as int) =~= strs(c@).drop_first());
            BuildPlan::Run { program: c[0].clone(), args }
        },
    }
}

/// The answer to a build that ran.
#[derive(Debug, Clone)]
pub struct BuildResult {
    pub exit_code: i32,
    pub duration_ms: u64,
    pub stdout: String,
    pub stderr: String,
}

/// How a started build ended.
#[derive(Debug, Clone)]
pub enum BuildEnd {
    TimedOut,
    /// The command could not be started; `detail` says why.
    SpawnFailed { detail: String },
    /// The command exited; `code` is absent when a signal ended it.
    Exited { code: Option<i32>, success: bool, stdout: Vec<u8>, stderr: Vec<u8> },
}

/// The answer to a build request.
#[derive(Debug, Clone)]
pub enum BuildReply {
    Text { status: u16, message: String },
    Json { status: u16, result: BuildResult },
}

/// The answer for a build that ended as `end` after `elapsed_ms`: the exit
/// code (-1 for a signal), the duration and the tails of both logs, with 200
/// for success and 422 otherwise.
pub fn build_reply(end: BuildEnd, elapsed_ms: u64) -> (res: BuildReply)
    ensures
        match end {
            BuildEnd::TimedOut => res matches BuildReply::Text { status, message } && status == 504
                && message@ == "build timed out"@,
            BuildEnd::SpawnFailed { detail } => res matches BuildReply::Text { status, message }
                && status == 500 && message@ == "spawning build: "@ + detail@,
            BuildEnd::Exited { code, success, stdout, stderr } => res matches BuildReply::Json { status, result }
                && status == (if success { 200u16 } else { 422u16 })
                && result.exit_code == (match code {
                    Some(c) => c,
                    None => -1i32,
                })
                && result.duration_ms == elapsed_ms
                && result.stdout@ == tail_of(utf8_lossy(stdout@))
                && result.stderr@ == tail_of(utf8_lossy(stderr@)),
        },
{
    match end {
        BuildEnd::TimedOut => BuildReply::Text { status: 504, message: crate::text::owned("build timed out") },
        BuildEnd::SpawnFailed { detail } => {
            let mut m = chars_of("spawning build: ");
            crate::text::push_str(&mut m, detail.as_str());
            BuildReply::Text { status: 500, message: string_from_chars(&m) }
        },
        BuildEnd::Exited { code, success, stdout, stderr } => {
            let out = string_from_utf8_lossy(stdout.as_slice());
            let err = string_from_utf8_lossy(stderr.as_slice());
            let result = BuildResult {
                exit_code: match code {
                    Some(c) => c,
                    None => -1,
                },
                duration_ms: elapsed_ms,
                stdout: tail(out.as_str()),
                stderr: tail(err.as_str()),
            };
            BuildReply::Json { status: if success { 200 } else { 422 }, result }
        },
    }
}

/// Where the watcher asks the builder for a build: `{url}/build`.
pub fn build_endpoint(url: &str) -> (res: String)
    ensures
        res@ == crate::text::trim_end_char(url@, '/') + "/build"@,
{
    let mut out = crate::text::trim_end_chars(&chars_of(url), '/');
    crate::text::push_str(&mut out, "/build");
    string_from_chars(&out)
}

} // verus!
