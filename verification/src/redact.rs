//! Redaction of diagnostic payloads. Diagnostics can carry production counts,
//! part numbers, customer names and raw inspection values, so redaction is an
//! allowlist: only structural keys survive, every other member is dropped, and
//! the strings that survive are scrubbed of embedded emails and long opaque
//! tokens.

use vstd::prelude::*;
use crate::barcode::find_from;
use crate::json::{same_json, Json};
use crate::text::str_eq;

verus! {

/// The keys whose values are structural and safe to ship.
pub open spec fn is_safe_key(k: Seq<char>) -> bool {
    ||| k == "service"@
    ||| k == "version"@
    ||| k == "build"@
    ||| k == "commit"@
    ||| k == "os"@
    ||| k == "arch"@
    ||| k == "cpu_count"@
    ||| k == "mem_bytes"@
    ||| k == "level"@
    ||| k == "target"@
    ||| k == "event"@
    ||| k == "kind"@
    ||| k == "code"@
    ||| k == "status"@
    ||| k == "timestamp"@
    ||| k == "ts"@
    ||| k == "uptime_secs"@
    ||| k == "elapsed_ms"@
    ||| k == "count"@
    ||| k == "seq"@
    ||| k == "error"@
    ||| k == "error_type"@
    ||| k == "message"@
    ||| k == "panic"@
    ||| k == "location"@
    ||| k == "thread"@
    ||| k == "backtrace_hash"@
    ||| k == "span"@
    ||| k == "spans"@
    ||| k == "reason_code"@
}

/// Whether `k` is on the allowlist.
pub fn safe_key(k: &str) -> (r: bool)
    ensures
        r == is_safe_key(k@),
{
    str_eq(k, "service") || str_eq(k, "version") || str_eq(k, "build") || str_eq(k, "commit")
        || str_eq(k, "os") || str_eq(k, "arch") || str_eq(k, "cpu_count") || str_eq(
        k,
        "mem_bytes",
    ) || str_eq(k, "level") || str_eq(k, "target") || str_eq(k, "event") || str_eq(k, "kind")
        || str_eq(k, "code") || str_eq(k, "status") || str_eq(k, "timestamp") || str_eq(k, "ts")
        || str_eq(k, "uptime_secs") || str_eq(k, "elapsed_ms") || str_eq(k, "count") || str_eq(
        k,
        "seq",
    ) || str_eq(k, "error") || str_eq(k, "error_type") || str_eq(k, "message") || str_eq(
        k,
        "panic",
    ) || str_eq(k, "location") || str_eq(k, "thread") || str_eq(k, "backtrace_hash") || str_eq(
        k,
        "span",
    ) || str_eq(k, "spans") || str_eq(k, "reason_code")
}

/// The Unicode `White_Space` characters (what `char::is_whitespace` tests).
pub open spec fn is_white_space(c: char) -> bool {
    let u = c as u32;
    (0x09 <= u && u <= 0x0D) || u == 0x20 || u == 0x85 || u == 0xA0 || u == 0x1680 || (0x2000 <= u
        && u <= 0x200A) || u == 0x2028 || u == 0x2029 || u == 0x202F || u == 0x205F || u == 0x3000
}

/// Whether `c` is a Unicode white-space character.
pub fn white_space(c: char) -> (r: bool)
    ensures
        r == is_white_space(c),
{
    let u = c as u32;
    (0x09 <= u && u <= 0x0D) || u == 0x20 || u == 0x85 || u == 0xA0 || u == 0x1680 || (0x2000 <= u
        && u <= 0x200A) || u == 0x2028 || u == 0x2029 || u == 0x202F || u == 0x205F || u == 0x3000
}

/// An ASCII digit.
pub open spec fn is_digit(c: char) -> bool {
    '0' <= c && c <= '9'
}

/// A character an opaque token may be made of: ASCII letters and digits,
/// `_`, `-`, `+` and `/`.
pub open spec fn is_token_char(c: char) -> bool {
    ('0' <= c && c <= '9') || ('a' <= c && c <= 'z') || ('A' <= c && c <= 'Z') || c == '_' || c
        == '-' || c == '+' || c == '/'
}

/// A word that looks like an email: an `@` that is not the first character,
/// followed later by a `.`.
pub open spec fn spec_looks_like_email(w: Seq<char>) -> bool {
    match find_from(w, '@', 0) {
        Some(i) => i > 0 && find_from(w, '.', i + 1) is Some,
        None => false,
    }
}

/// A word that looks like an opaque secret: 24 or more token characters, at
/// least one of them a digit.
pub open spec fn spec_looks_like_token(w: Seq<char>) -> bool {
    &&& w.len() >= 24
    &&& forall|i: int| 0 <= i < w.len() ==> is_token_char(#[trigger] w[i])
    &&& exists|i: int| 0 <= i < w.len() && is_digit(#[trigger] w[i])
}

/// Find the first `c` at or after `from`.
fn find_char_from(s: &str, c: char, from: usize) -> (r: Option<usize>)
    requires
        from <= s@.len(),
    ensures
        match find_from(s@, c, from as int) {
            Some(i) => r == Some(i as usize),
            None => r is None,
        },
{
    let n = s.unicode_len();
    let mut i = from;
    while i < n
        invariant
            n == s@.len(),
            from <= i <= n,
            find_from(s@, c, from as int) == find_from(s@, c, i as int),
        decreases n - i,
    {
        if s.get_char(i) == c {
            return Some(i);
        }
        i = i + 1;
    }
    None
}

/// Whether a word looks like an email address.
fn looks_like_email(w: &str) -> (r: bool)
    ensures
        r == spec_looks_like_email(w@),
{
    let _n = w.unicode_len();
    match find_char_from(w, '@', 0) {
        Some(i) => {
            proof {
                crate::barcode::lemma_find_from_bounds(w@, '@', 0);
            }
            i > 0 && find_char_from(w, '.', i + 1).is_some()
        },
        None => false,
    }
}

/// Whether a word looks like an opaque token.
fn looks_like_token(w: &str) -> (r: bool)
    ensures
        r == spec_looks_like_token(w@),
{
    let n = w.unicode_len();
    if n < 24 {
        return false;
    }
    let mut any_digit = false;
    let mut i: usize = 0;
    while i < n
        invariant
            n == w@.len(),
            i <= n,
            forall|j: int| 0 <= j < i ==> is_token_char(#[trigger] w@[j]),
            any_digit == exists|j: int| 0 <= j < i && is_digit(#[trigger] w@[j]),
        decreases n - i,
    {
        let c = w.get_char(i);
        let ok = ('0' <= c && c <= '9') || ('a' <= c && c <= 'z') || ('A' <= c && c <= 'Z') || c
            == '_' || c == '-' || c == '+' || c == '/';
        if !ok {
            return false;
        }
        if '0' <= c && c <= '9' {
            any_digit = true;
        }
        i = i + 1;
    }
    any_digit
}

/// The replacement a word gets: `[redacted]` for emails and tokens, the word
/// itself otherwise.
pub open spec fn scrub_word(w: Seq<char>) -> Seq<char> {
    if spec_looks_like_email(w) || spec_looks_like_token(w) {
        "[redacted]"@
    } else {
        w
    }
}

/// The first white-space position at or after `from`.
pub open spec fn find_ws_from(s: Seq<char>, from: int) -> Option<int>
    decreases s.len() - from,
{
    if from < 0 || from >= s.len() {
        None
    } else if is_white_space(s[from]) {
        Some(from)
    } else {
        find_ws_from(s, from + 1)
    }
}

/// A free-text string with every white-space-delimited word scrubbed; the
/// white space itself is kept as it was.
pub open spec fn scrub_spec(s: Seq<char>) -> Seq<char>
    decreases s.len(),
{
    if s.len() == 0 {
        s
    } else {
        match find_ws_from(s, 0) {
            None => scrub_word(s),
            Some(k) => {
                if 0 <= k < s.len() {
                    scrub_word(s.subrange(0, k)) + seq![s[k]] + scrub_spec(
                        s.subrange(k + 1, s.len() as int),
                    )
                } else {
                    s
                }
            },
        }
    }
}

proof fn lemma_find_ws_bounds(s: Seq<char>, from: int)
    requires
        0 <= from,
    ensures
        find_ws_from(s, from) matches Some(i) ==> from <= i < s.len() && is_white_space(s[i])
            && forall|j: int| from <= j < i ==> !is_white_space(s[j]),
        find_ws_from(s, from) is None ==> forall|j: int| from <= j < s.len() ==> !is_white_space(
            s[j],
        ),
    decreases s.len() - from,
{
    if from < s.len() && !is_white_space(s[from]) {
        lemma_find_ws_bounds(s, from + 1);
    }
}

/// Scrub one word into `out`.
fn push_scrubbed_word(out: &mut String, w: &str)
    ensures
        final(out)@ == old(out)@ + scrub_word(w@),
{
    if looks_like_email(w) || looks_like_token(w) {
        out.append("[redacted]");
    } else {
        out.append(w);
    }
}

/// Scrub emails and long opaque tokens out of a free-text string. A second
/// line of defence only; the allowlist is the first.
pub fn scrub_string(s: &str) -> (r: String)
    ensures
        r@ == scrub_spec(s@),
{
    let n = s.unicode_len();
    let mut out = String::new();
    let mut start: usize = 0;
    let mut i: usize = 0;
    assert(s@.subrange(0, n as int) =~= s@);
    while i < n
        invariant
            n == s@.len(),
            start <= i <= n,
            forall|j: int| start <= j < i ==> !is_white_space(#[trigger] s@[j]),
            out@ + scrub_spec(s@.subrange(start as int, n as int)) == scrub_spec(s@),
        decreases n - i,
    {
        let c = s.get_char(i);
        if white_space(c) {
            let ghost rest = s@.subrange(start as int, n as int);
            proof {
                lemma_find_ws_bounds(rest, 0);
                assert forall|j: int| 0 <= j < i - start implies !is_white_space(rest[j]) by {
                    assert(rest[j] == s@[start + j]);
                }
                assert(is_white_space(rest[i - start]));
                if find_ws_from(rest, 0) != Some((i - start) as int) {
                    lemma_find_ws_skip(rest, 0, (i - start) as int);
                }
                assert(rest.subrange(0, i - start) =~= s@.subrange(start as int, i as int));
                assert(rest.subrange(i - start + 1, rest.len() as int) =~= s@.subrange(
                    i + 1,
                    n as int,
                ));
            }
            let w = s.substring_char(start, i);
            let ghost o = out@;
            push_scrubbed_word(&mut out, w);
            out.append(s.substring_char(i, i + 1));
            proof {
                assert(s@.subrange(i as int, i + 1) =~= seq![s@[i as int]]);
                assert(o + (scrub_word(w@) + seq![rest[i - start]] + scrub_spec(
                    s@.subrange(i + 1, n as int),
                )) =~= out@ + scrub_spec(s@.subrange(i + 1, n as int)));
            }
            start = i + 1;
        }
        i = i + 1;
    }
    let ghost rest = s@.subrange(start as int, n as int);
    proof {
        lemma_find_ws_bounds(rest, 0);
        assert forall|j: int| 0 <= j < rest.len() implies !is_white_space(rest[j]) by {
            assert(rest[j] == s@[start + j]);
        }
        if rest.len() > 0 {
            if find_ws_from(rest, 0) is Some {
                let k = find_ws_from(rest, 0)->0;
                assert(!is_white_space(rest[k]));
            }
        }
    }
    let w = s.substring_char(start, n);
    if n > start {
        push_scrubbed_word(&mut out, w);
    }
    assert(rest.len() == 0 ==> scrub_spec(rest) =~= Seq::<char>::empty());
    out
}

/// A white-space search from a point with none before `k` finds the same as
/// one from `k`.
proof fn lemma_find_ws_skip(s: Seq<char>, from: int, k: int)
    requires
        0 <= from <= k <= s.len(),
        forall|j: int| from <= j < k ==> !is_white_space(s[j]),
    ensures
        find_ws_from(s, from) == find_ws_from(s, k),
    decreases k - from,
{
    if from < k {
        lemma_find_ws_skip(s, from + 1, k);
    }
}

/// `out` is the redaction of `inp`: in objects only allowlisted members are
/// kept (in order) with their values redacted; arrays keep every element,
/// redacted; strings are scrubbed; other values are kept as they are.
pub open spec fn redacted(out: Json, inp: Json) -> bool
    decreases inp,
{
    match inp {
        Json::Null => out == Json::Null,
        Json::Bool(b) => out == Json::Bool(b),
        Json::Number(n) => out matches Json::Number(m) && m@ == n@,
        Json::Str(s) => out matches Json::Str(t) && t@ == scrub_spec(s@),
        Json::Array(items) => out matches Json::Array(o) && o@.len() == items@.len() && forall|
            i: int,
        |
            0 <= i < items@.len() ==> redacted(#[trigger] o@[i], items@[i]),
        Json::Object(members) => out matches Json::Object(o) && redacted_members(
            o@,
            members@,
            members@.len() as int,
        ),
    }
}

/// The first `n` input members, allowlist-filtered and redacted, are `out`.
pub open spec fn redacted_members(
    out: Seq<(String, Json)>,
    inp: Seq<(String, Json)>,
    n: int,
) -> bool
    decreases inp, n,
{
    if n <= 0 || n > inp.len() {
        n <= 0 && out.len() == 0
    } else if is_safe_key(inp[n - 1].0@) {
        out.len() > 0 && out.last().0@ == inp[n - 1].0@ && redacted(out.last().1, inp[n - 1].1)
            && redacted_members(out.drop_last(), inp, n - 1)
    } else {
        redacted_members(out, inp, n - 1)
    }
}

/// Every object key anywhere in `v` is allowlisted.
pub open spec fn only_safe_keys(v: Json) -> bool
    decreases v,
{
    match v {
        Json::Array(items) => forall|i: int|
            0 <= i < items@.len() ==> only_safe_keys(#[trigger] items@[i]),
        Json::Object(members) => forall|i: int|
            0 <= i < members@.len() ==> is_safe_key((#[trigger] members@[i]).0@) && only_safe_keys(
                members@[i].1,
            ),
        _ => true,
    }
}

/// Redact a diagnostic payload: keep only allowlisted keys (recursively),
/// string-scrubbing the values that survive.
pub fn redact(value: &Json) -> (r: Json)
    ensures
        redacted(r, *value),
    decreases value,
{
    match value {
        Json::Null => Json::Null,
        Json::Bool(b) => Json::Bool(*b),
        Json::Number(n) => Json::Number(n.clone()),
        Json::Str(s) => Json::Str(scrub_string(s.as_str())),
        Json::Array(items) => {
            let mut out: Vec<Json> = Vec::new();
            let mut i: usize = 0;
            while i < items.len()
                invariant
                    *value == Json::Array(*items),
                    i <= items@.len(),
                    out@.len() == i,
                    forall|j: int| 0 <= j < i ==> redacted(#[trigger] out@[j], items@[j]),
                decreases items@.len() - i,
            {
                proof {
                    broadcast use vstd::std_specs::vec::axiom_vec_index_decreases;
                    assert(decreases_to!(value->Array_0 => value->Array_0[i as int]));
                    assert(decreases_to!(*value => value->Array_0));
                }
                out.push(redact(&items[i]));
                i = i + 1;
            }
            Json::Array(out)
        },
        Json::Object(members) => {
            let mut out: Vec<(String, Json)> = Vec::new();
            let mut i: usize = 0;
            while i < members.len()
                invariant
                    *value == Json::Object(*members),
                    i <= members@.len(),
                    redacted_members(out@, members@, i as int),
                decreases members@.len() - i,
            {
                let (k, v) = &members[i];
                if safe_key(k.as_str()) {
                    proof {
                        broadcast use vstd::std_specs::vec::axiom_vec_index_decreases;
                        assert(decreases_to!(value->Object_0 => value->Object_0[i as int]));
                        assert(decreases_to!(*value => value->Object_0));
                        assert(decreases_to!(value->Object_0[i as int] => value->Object_0[i as int].1));
                    }
                    let rv = redact(v);
                    let ghost before = out@;
                    out.push((k.clone(), rv));
                    assert(out@.drop_last() =~= before);
                }
                i = i + 1;
            }
            Json::Object(out)
        },
    }
}

/// Redacted members hold only allowlisted keys, given that their values do.
proof fn lemma_members_safe(out: Seq<(String, Json)>, inp: Seq<(String, Json)>, n: int)
    requires
        redacted_members(out, inp, n),
        forall|i: int|
            0 <= i < inp.len() ==> forall|o: Json| #[trigger]
                redacted(o, (#[trigger] inp[i]).1) ==> only_safe_keys(o),
    ensures
        forall|i: int|
            0 <= i < out.len() ==> is_safe_key((#[trigger] out[i]).0@) && only_safe_keys(
                out[i].1,
            ),
    decreases n,
{
    if n > 0 && n <= inp.len() {
        if is_safe_key(inp[n - 1].0@) {
            lemma_members_safe(out.drop_last(), inp, n - 1);
            assert forall|i: int| 0 <= i < out.len() implies is_safe_key(
                (#[trigger] out[i]).0@,
            ) && only_safe_keys(out[i].1) by {
                if i < out.len() - 1 {
                    assert(out[i] == out.drop_last()[i]);
                } else {
                    let x = inp[n - 1];
                    assert(redacted(out.last().1, x.1));
                    assert(only_safe_keys(out.last().1));
                }
            }
        } else {
            lemma_members_safe(out, inp, n - 1);
        }
    }
}

/// No business field survives redaction: every object key anywhere in a
/// redacted payload is on the allowlist.
pub proof fn lemma_redacted_only_safe_keys(out: Json, inp: Json)
    requires
        redacted(out, inp),
    ensures
        only_safe_keys(out),
    decreases inp,
{
    match inp {
        Json::Array(items) => {
            let o = out->Array_0;
            assert forall|i: int| 0 <= i < o@.len() implies only_safe_keys(#[trigger] o@[i]) by {
                broadcast use vstd::std_specs::vec::axiom_vec_index_decreases;
                assert(decreases_to!(inp->Array_0 => inp->Array_0[i]));
                assert(decreases_to!(inp => inp->Array_0));
                lemma_redacted_only_safe_keys(o@[i], items@[i]);
            }
        },
        Json::Object(members) => {
            let o = out->Object_0;
            assert forall|i: int| 0 <= i < members@.len() implies forall|x: Json| #[trigger]
                redacted(x, (#[trigger] members@[i]).1) ==> only_safe_keys(x) by {
                assert forall|x: Json| #[trigger] redacted(x, members@[i].1) implies only_safe_keys(
                    x,
                ) by {
                    broadcast use vstd::std_specs::vec::axiom_vec_index_decreases;
                    assert(decreases_to!(inp->Object_0 => inp->Object_0[i]));
                    assert(decreases_to!(inp => inp->Object_0));
                    assert(decreases_to!(inp->Object_0[i] => inp->Object_0[i].1));
                    lemma_redacted_only_safe_keys(x, members@[i].1);
                }
            }
            lemma_members_safe(o@, members@, members@.len() as int);
        },
        _ => {},
    }
}

/// `w` holds no white space.
pub open spec fn no_white_space(w: Seq<char>) -> bool {
    forall|i: int| 0 <= i < w.len() ==> !is_white_space(#[trigger] w[i])
}

proof fn lemma_find_none(w: Seq<char>, c: char, from: int)
    requires
        0 <= from,
        forall|i: int| from <= i < w.len() ==> w[i] != c,
    ensures
        find_from(w, c, from) is None,
    decreases w.len() - from,
{
    if from < w.len() {
        lemma_find_none(w, c, from + 1);
    }
}

/// The replacement text is left alone by a second scrub, and has no white
/// space.
proof fn lemma_replacement_is_clean()
    ensures
        scrub_word("[redacted]"@) == "[redacted]"@,
        no_white_space("[redacted]"@),
        "[redacted]"@.len() > 0,
{
    let r = "[redacted]"@;
    reveal_strlit("[redacted]");
    assert(r.len() == 10);
    assert forall|i: int| 0 <= i < r.len() implies r[i] != '@' && !is_white_space(#[trigger] r[i]) by {
        assert(r[0] == '[' && r[1] == 'r' && r[2] == 'e' && r[3] == 'd' && r[4] == 'a');
        assert(r[5] == 'c' && r[6] == 't' && r[7] == 'e' && r[8] == 'd' && r[9] == ']');
    }
    lemma_find_none(r, '@', 0);
}

/// A scrubbed word is clean: scrubbing it again leaves it, and it has no
/// white space when the word had none.
proof fn lemma_scrub_word_clean(w: Seq<char>)
    requires
        no_white_space(w),
    ensures
        scrub_word(scrub_word(w)) == scrub_word(w),
        no_white_space(scrub_word(w)),
        w.len() > 0 ==> scrub_word(w).len() > 0,
{
    lemma_replacement_is_clean();
}

/// In `a + [c] + b`, with no white space in `a` and `c` white space, the
/// first white space is `c`.
proof fn lemma_find_ws_concat(a: Seq<char>, c: char, b: Seq<char>)
    requires
        no_white_space(a),
        is_white_space(c),
    ensures
        find_ws_from(a + seq![c] + b, 0) == Some(a.len() as int),
{
    let t = a + seq![c] + b;
    assert forall|j: int| 0 <= j < a.len() implies !is_white_space(t[j]) by {
        assert(t[j] == a[j]);
    }
    lemma_find_ws_skip(t, 0, a.len() as int);
    assert(t[a.len() as int] == c);
}

/// Scrubbing is idempotent: a scrubbed text holds no email-like or token-like
/// word, so scrubbing it again changes nothing.
pub proof fn lemma_scrub_idempotent(s: Seq<char>)
    ensures
        scrub_spec(scrub_spec(s)) == scrub_spec(s),
    decreases s.len(),
{
    if s.len() > 0 {
        lemma_find_ws_bounds(s, 0);
        match find_ws_from(s, 0) {
            None => {
                assert(no_white_space(s));
                lemma_scrub_word_clean(s);
                let w = scrub_word(s);
                lemma_find_ws_bounds(w, 0);
                assert(find_ws_from(w, 0) is None) by {
                    if let Some(i) = find_ws_from(w, 0) {
                        assert(is_white_space(w[i]));
                    }
                }
            },
            Some(k) => {
                let w0 = s.subrange(0, k);
                let c = s[k];
                let rest = s.subrange(k + 1, s.len() as int);
                assert(no_white_space(w0)) by {
                    assert forall|i: int| 0 <= i < w0.len() implies !is_white_space(#[trigger] w0[i]) by {
                        assert(w0[i] == s[i]);
                    }
                }
                lemma_scrub_word_clean(w0);
                let sw = scrub_word(w0);
                let sr = scrub_spec(rest);
                let t = sw + seq![c] + sr;
                assert(scrub_spec(s) == t);
                lemma_find_ws_concat(sw, c, sr);
                lemma_scrub_idempotent(rest);
                assert(t.len() > 0);
                assert(t.subrange(0, sw.len() as int) =~= sw);
                assert(t[sw.len() as int] == c);
                assert(t.subrange(sw.len() as int + 1, t.len() as int) =~= sr);
                assert(scrub_spec(t) == scrub_word(sw) + seq![c] + scrub_spec(sr));
            },
        }
    }
}

/// What survives in redacted members: each came from an input member with the
/// same key and is its redaction.
proof fn lemma_members_from(out: Seq<(String, Json)>, inp: Seq<(String, Json)>, n: int)
    requires
        redacted_members(out, inp, n),
    ensures
        forall|i: int|
            0 <= i < out.len() ==> exists|j: int|
                0 <= j < n && j < inp.len() && (#[trigger] out[i]).0@ == inp[j].0@ && redacted(out[i].1, inp[j].1),
    decreases n,
{
    if n > 0 && n <= inp.len() {
        if is_safe_key(inp[n - 1].0@) {
            lemma_members_from(out.drop_last(), inp, n - 1);
            assert forall|i: int| 0 <= i < out.len() implies exists|j: int|
                0 <= j < n && j < inp.len() && (#[trigger] out[i]).0@ == inp[j].0@ && redacted(out[i].1, inp[j].1) by {
                if i < out.len() - 1 {
                    assert(out[i] == out.drop_last()[i]);
                    let j = choose|j: int|
                        0 <= j < n - 1 && j < inp.len() && (#[trigger] out.drop_last()[i]).0@ == inp[j].0@
                            && redacted(out.drop_last()[i].1, inp[j].1);
                } else {
                    assert(out[i] == out.last());
                }
            }
        } else {
            lemma_members_from(out, inp, n - 1);
        }
    }
}

/// Redacting members whose keys are all allowlisted keeps every one of them.
proof fn lemma_members_all_safe(out: Seq<(String, Json)>, inp: Seq<(String, Json)>, n: int)
    requires
        redacted_members(out, inp, n),
        0 <= n <= inp.len(),
        forall|i: int| 0 <= i < inp.len() ==> is_safe_key((#[trigger] inp[i]).0@),
    ensures
        out.len() == n,
        forall|i: int| 0 <= i < n ==> (#[trigger] out[i]).0@ == inp[i].0@ && redacted(out[i].1, inp[i].1),
    decreases n,
{
    if n > 0 {
        assert(is_safe_key(inp[n - 1].0@));
        lemma_members_all_safe(out.drop_last(), inp, n - 1);
        assert forall|i: int| 0 <= i < n implies (#[trigger] out[i]).0@ == inp[i].0@ && redacted(out[i].1, inp[i].1) by {
            if i < n - 1 {
                assert(out[i] == out.drop_last()[i]);
            }
        }
    }
}

/// Redaction is idempotent: redacting a redacted payload gives the same
/// document again.
pub proof fn lemma_redact_idempotent(x: Json, y: Json, z: Json)
    requires
        redacted(y, x),
        redacted(z, y),
    ensures
        same_json(y, z),
    decreases x,
{
    match x {
        Json::Str(s) => {
            lemma_scrub_idempotent(s@);
        },
        Json::Array(items) => {
            let yo = y->Array_0;
            let zo = z->Array_0;
            assert forall|i: int| 0 <= i < yo@.len() implies same_json(#[trigger] yo@[i], zo@[i]) by {
                broadcast use vstd::std_specs::vec::axiom_vec_index_decreases;
                assert(decreases_to!(x->Array_0 => x->Array_0[i]));
                assert(decreases_to!(x => x->Array_0));
                lemma_redact_idempotent(items@[i], yo@[i], zo@[i]);
            }
        },
        Json::Object(members) => {
            let yo = y->Object_0;
            let zo = z->Object_0;
            lemma_members_from(yo@, members@, members@.len() as int);
            lemma_redacted_only_safe_keys(y, x);
            assert forall|i: int| 0 <= i < yo@.len() implies is_safe_key((#[trigger] yo@[i]).0@) by {}
            lemma_members_all_safe(zo@, yo@, yo@.len() as int);
            assert forall|i: int| 0 <= i < yo@.len() implies (#[trigger] yo@[i]).0@ == zo@[i].0@ && same_json(
                yo@[i].1,
                zo@[i].1,
            ) by {
                let j = choose|j: int|
                    0 <= j < members@.len() && j < members@.len() && (#[trigger] yo@[i]).0@ == members@[j].0@
                        && redacted(yo@[i].1, members@[j].1);
                broadcast use vstd::std_specs::vec::axiom_vec_index_decreases;
                assert(decreases_to!(x->Object_0 => x->Object_0[j]));
                assert(decreases_to!(x => x->Object_0));
                assert(decreases_to!(x->Object_0[j] => x->Object_0[j].1));
                lemma_redact_idempotent(members@[j].1, yo@[i].1, zo@[i].1);
            }
        },
        _ => {},
    }
}

} // verus!
