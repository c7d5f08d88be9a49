//! Small helpers: reading a key out of `.env` text, and naming WiFi
//! disconnect reasons.

use vstd::prelude::*;
use crate::text::{chars_of, has_prefix, split_chars, split_on, starts_with_chars};

verus! {

/// Whether `c` is white space as `char::is_whitespace` defines it (the
/// Unicode `White_Space` property).
pub open spec fn is_space(c: char) -> bool {
    ||| c == '\t' || c == '\n' || c == '\u{0B}' || c == '\u{0C}' || c == '\r' || c == ' '
    ||| c == '\u{85}' || c == '\u{A0}' || c == '\u{1680}'
    ||| ('\u{2000}' <= c && c <= '\u{200A}')
    ||| c == '\u{2028}' || c == '\u{2029}' || c == '\u{202F}' || c == '\u{205F}' || c == '\u{3000}'
}

fn space(c: char) -> (r: bool)
    ensures
        r == is_space(c),
{
    c == '\t' || c == '\n' || c == '\u{0B}' || c == '\u{0C}' || c == '\r' || c == ' ' || c
        == '\u{85}' || c == '\u{A0}' || c == '\u{1680}' || ('\u{2000}' <= c && c <= '\u{200A}')
        || c == '\u{2028}' || c == '\u{2029}' || c == '\u{202F}' || c == '\u{205F}' || c
        == '\u{3000}'
}

/// `s` without leading characters that satisfy `p`.
pub open spec fn trim_start_by(s: Seq<char>, p: spec_fn(char) -> bool) -> Seq<char>
    decreases s.len(),
{
    if s.len() > 0 && p(s[0]) {
        trim_start_by(s.drop_first(), p)
    } else {
        s
    }
}

/// `s` without trailing characters that satisfy `p`.
pub open spec fn trim_end_by(s: Seq<char>, p: spec_fn(char) -> bool) -> Seq<char>
    decreases s.len(),
{
    if s.len() > 0 && p(s.last()) {
        trim_end_by(s.drop_last(), p)
    } else {
        s
    }
}

/// `s` without leading and trailing characters that satisfy `p`.
pub open spec fn trim_by(s: Seq<char>, p: spec_fn(char) -> bool) -> Seq<char> {
    trim_end_by(trim_start_by(s, p), p)
}

pub open spec fn space_pred() -> spec_fn(char) -> bool {
    |c: char| is_space(c)
}

pub open spec fn char_pred(x: char) -> spec_fn(char) -> bool {
    |c: char| c == x
}

/// A value with surrounding double quotes, then single quotes, removed.
pub open spec fn unquote(v: Seq<char>) -> Seq<char> {
    trim_by(trim_by(v, char_pred('"')), char_pred('\''))
}

/// The value a `.env` line gives for `key`, if it is not a comment and
/// starts with `key=`.
pub open spec fn line_value(line: Seq<char>, key: Seq<char>) -> Option<Seq<char>> {
    let t = trim_by(line, space_pred());
    if t.len() == 0 || t[0] == '#' || !has_prefix(t, key.push('=')) {
        None
    } else {
        Some(unquote(t.skip((key.len() + 1) as int)))
    }
}

/// The value of the first line among `lines` that gives one for `key`.
pub open spec fn env_lookup(lines: Seq<Seq<char>>, key: Seq<char>) -> Option<Seq<char>>
    decreases lines.len(),
{
    if lines.len() == 0 {
        None
    } else if line_value(lines[0], key) is Some {
        line_value(lines[0], key)
    } else {
        env_lookup(lines.drop_first(), key)
    }
}

fn strips(c: char, strip_space: bool, x: char) -> (r: bool)
    ensures
        r == if strip_space {
            space_pred()(c)
        } else {
            char_pred(x)(c)
        },
{
    if strip_space {
        space(c)
    } else {
        c == x
    }
}

fn trim_chars(s: &Vec<char>, strip_space: bool, x: char) -> (r: Vec<char>)
    ensures
        strip_space ==> r@ == trim_by(s@, space_pred()),
        !strip_space ==> r@ == trim_by(s@, char_pred(x)),
{
    let ghost p = if strip_space {
        space_pred()
    } else {
        char_pred(x)
    };
    let mut start: usize = 0;
    assert(s@.skip(0) =~= s@);
    while start < s.len() && strips(s[start], strip_space, x)
        invariant
            start <= s@.len(),
            p == if strip_space {
                space_pred()
            } else {
                char_pred(x)
            },
            trim_start_by(s@, p) == trim_start_by(s@.skip(start as int), p),
        decreases s@.len() - start,
    {
        assert(s@.skip(start as int).drop_first() =~= s@.skip(start + 1));
        start = start + 1;
    }
    let mut end: usize = s.len();
    assert(s@.skip(start as int) =~= s@.subrange(start as int, end as int));
    while end > start && strips(s[end - 1], strip_space, x)
        invariant
            start <= end <= s@.len(),
            p == if strip_space {
                space_pred()
            } else {
                char_pred(x)
            },
            trim_by(s@, p) == trim_end_by(s@.subrange(start as int, end as int), p),
        decreases end,
    {
        assert(s@.subrange(start as int, end as int).drop_last() =~= s@.subrange(
            start as int,
            end - 1,
        ));
        end = end - 1;
    }
    let mut r: Vec<char> = Vec::new();
    let mut i: usize = start;
    while i < end
        invariant
            start <= i <= end <= s@.len(),
            r@ == s@.subrange(start as int, i as int),
        decreases end - i,
    {
        r.push(s[i]);
        i = i + 1;
        assert(r@ =~= s@.subrange(start as int, i as int));
    }
    r
}

/// The value of `key` in `.env` text: the first line that is not a comment
/// and reads `key=value`, with the value's surrounding quotes removed. The
/// text must hold such a line (the firmware's build embeds one for every key
/// it asks for).
pub fn get_embedded_env_value(content: &str, key: &str) -> (r: String)
    requires
        env_lookup(split_on(content@, '\n'), key@) is Some,
    ensures
        env_lookup(split_on(content@, '\n'), key@) == Some(r@),
{
    let text = chars_of(content);
    let lines = split_chars(&text, '\n');
    let mut pattern = chars_of(key);
    pattern.push('=');
    let ghost all = split_on(content@, '\n');
    assert(lines@.map_values(|p: Vec<char>| p@) == all);
    let mut i: usize = 0;
    assert(all.skip(0) =~= all);
    while i < lines.len()
        invariant
            i <= lines@.len(),
            lines@.map_values(|p: Vec<char>| p@) == all,
            pattern@ == key@.push('='),
            all == split_on(content@, '\n'),
            env_lookup(all, key@) == env_lookup(all.skip(i as int), key@),
        decreases lines@.len() - i,
    {
        assert(lines@[i as int]@ == all[i as int]);
        assert(all.skip(i as int)[0] == all[i as int]);
        assert(all.skip(i as int).drop_first() =~= all.skip(i + 1));
        let t = trim_chars(&lines[i], true, ' ');
        if t.len() > 0 && t[0] != '#' && starts_with_chars(&t, &pattern) {
            let rest = crate::text::tail_chars(&t, pattern.len());
            assert(rest@ =~= t@.skip((key@.len() + 1) as int));
            let once = trim_chars(&rest, false, '"');
            let twice = trim_chars(&once, false, '\'');
            let mut out = String::new();
            let mut k: usize = 0;
            while k < twice.len()
                invariant
                    k <= twice@.len(),
                    out@ == twice@.take(k as int),
                decreases twice@.len() - k,
            {
                out.push(twice[k]);
                k = k + 1;
                assert(out@ =~= twice@.take(k as int));
            }
            assert(twice@.take(twice@.len() as int) =~= twice@);
            assert(line_value(all[i as int], key@) == Some(twice@));
            assert(env_lookup(all.skip(i as int), key@) == Some(twice@));
            return out;
        }
        i = i + 1;
    }
    assert(all.skip(i as int) =~= Seq::<Seq<char>>::empty());
    String::new()
}

/// The name of a WiFi disconnect reason code.
pub open spec fn disconnect_reason_name(reason: u8) -> Seq<char> {
    match reason {
        2 => "AUTH_EXPIRE"@,
        3 => "AUTH_LEAVE"@,
        4 => "ASSOC_EXPIRE"@,
        5 => "ASSOC_TOOMANY"@,
        6 => "NOT_AUTHED"@,
        7 => "NOT_ASSOCED"@,
        8 => "ASSOC_LEAVE"@,
        9 => "ASSOC_NOT_AUTHED"@,
        10 => "DISASSOC_PWRCAP_BAD"@,
        11 => "DISASSOC_SUPCHAN_BAD"@,
        13 => "IE_INVALID"@,
        14 => "MIC_FAILURE"@,
        15 => "4WAY_HANDSHAKE_TIMEOUT"@,
        16 => "GROUP_KEY_UPDATE_TIMEOUT"@,
        17 => "IE_IN_4WAY_DIFFERS"@,
        18 => "GROUP_CIPHER_INVALID"@,
        19 => "PAIRWISE_CIPHER_INVALID"@,
        20 => "AKMP_INVALID"@,
        21 => "UNSUPP_RSN_IE_VERSION"@,
        22 => "INVALID_RSN_IE_CAP"@,
        23 => "802_1X_AUTH_FAILED"@,
        24 => "CIPHER_SUITE_REJECTED"@,
        200 => "BEACON_TIMEOUT"@,
        201 => "NO_AP_FOUND"@,
        202 => "AUTH_FAIL"@,
        203 => "ASSOC_FAIL"@,
        204 => "HANDSHAKE_TIMEOUT"@,
        205 => "CONNECTION_FAIL"@,
        206 => "AP_TSF_RESET"@,
        207 => "ROAMING"@,
        208 => "ASSOC_COMEBACK_TIME_TOO_LONG"@,
        209 => "SA_QUERY_TIMEOUT"@,
        210 => "NO_AP_FOUND_W_COMPATIBLE_SECURITY"@,
        211 => "NO_AP_FOUND_IN_AUTHMODE_THRESHOLD"@,
        212 => "NO_AP_FOUND_IN_RSSI_THRESHOLD"@,
        _ => "UNKNOWN"@,
    }
}

/// The name of a WiFi disconnect reason code, `UNKNOWN` for codes without one.
pub fn get_disconnect_reason_string(reason: u8) -> (r: &'static str)
    ensures
        r@ == disconnect_reason_name(reason),
{
    match reason {
        2 => "AUTH_EXPIRE",
        3 => "AUTH_LEAVE",
        4 => "ASSOC_EXPIRE",
        5 => "ASSOC_TOOMANY",
        6 => "NOT_AUTHED",
        7 => "NOT_ASSOCED",
        8 => "ASSOC_LEAVE",
        9 => "ASSOC_NOT_AUTHED",
        10 => "DISASSOC_PWRCAP_BAD",
        11 => "DISASSOC_SUPCHAN_BAD",
        13 => "IE_INVALID",
        14 => "MIC_FAILURE",
        15 => "4WAY_HANDSHAKE_TIMEOUT",
        16 => "GROUP_KEY_UPDATE_TIMEOUT",
        17 => "IE_IN_4WAY_DIFFERS",
        18 => "GROUP_CIPHER_INVALID",
        19 => "PAIRWISE_CIPHER_INVALID",
        20 => "AKMP_INVALID",
        21 => "UNSUPP_RSN_IE_VERSION",
        22 => "INVALID_RSN_IE_CAP",
        23 => "802_1X_AUTH_FAILED",
        24 => "CIPHER_SUITE_REJECTED",
        200 => "BEACON_TIMEOUT",
        201 => "NO_AP_FOUND",
        202 => "AUTH_FAIL",
        203 => "ASSOC_FAIL",
        204 => "HANDSHAKE_TIMEOUT",
        205 => "CONNECTION_FAIL",
        206 => "AP_TSF_RESET",
        207 => "ROAMING",
        208 => "ASSOC_COMEBACK_TIME_TOO_LONG",
        209 => "SA_QUERY_TIMEOUT",
        210 => "NO_AP_FOUND_W_COMPATIBLE_SECURITY",
        211 => "NO_AP_FOUND_IN_AUTHMODE_THRESHOLD",
        212 => "NO_AP_FOUND_IN_RSSI_THRESHOLD",
        _ => "UNKNOWN",
    }
}

} // verus!
