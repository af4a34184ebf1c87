//! The decisions of the send cycle: the text of a notice's message, how long
//! to wait after a refused send, and when to give up.
use vstd::prelude::*;
use crate::dates::{date_text_of, datetime_text_of};
use crate::entity::{NoticeSent, category_name};
use crate::text::{
    concat2, concat3, is_ws, is_whitespace, trim_start, occurs_at, first_occurrence_from, find_from,
};

verus! {

// ---------------------------------------------------------------------------
// The message.

/// How one character is written in HTML text: `&`, `<` and `>` as entities.
pub open spec fn escape_char(c: char) -> Seq<char> {
    if c == '&' {
        "&amp;"@
    } else if c == '<' {
        "&lt;"@
    } else if c == '>' {
        "&gt;"@
    } else {
        seq![c]
    }
}

/// `s` written as HTML text.
pub open spec fn escape_text(s: Seq<char>) -> Seq<char>
    decreases s.len(),
{
    if s.len() == 0 {
        seq![]
    } else {
        escape_text(s.drop_last()) + escape_char(s.last())
    }
}

/// `html_escape::encode_text`: replaces each `&`, `<` and `>` by its entity
/// and keeps every other character (stated exactly by `escape_text`).
#[verifier::external_body]
fn encode_text(s: &str) -> (r: String)
    ensures
        r@ == escape_text(s@),
{
    html_escape::encode_text(s).into_owned()
}

/// The message sent for a notice (Telegram HTML): a hashtag of the category,
/// the escaped title in bold, the date (`N/A` without one), the details
/// (`No details` without a body), and the time the notice was stamped.
pub open spec fn message_text(n: NoticeSent) -> Seq<char> {
    "#"@ + category_name(n.main_category) + "\n<b>"@ + escape_text(n.title@) + "</b>\n<b>Date:</b> "@
        + (match n.published_date {
            Some(d) => date_text_of(d@.0, d@.1, d@.2),
            None => "N/A"@,
        }) + "\n<b>Details:</b>\n"@
        + (match n.body {
            Some(b) => b@,
            None => "No details"@,
        }) + "\n<i>Sent at: "@
        + datetime_text_of(n.sent_at@.0, n.sent_at@.1, n.sent_at@.2, n.sent_at@.3, n.sent_at@.4, n.sent_at@.5, n.sent_at@.6)
        + "</i>"@
}

/// The text of the message that announces `notice`.
pub fn notice_message(notice: &NoticeSent) -> (r: String)
    ensures
        r@ == message_text(*notice),
{
    let date = match &notice.published_date {
        Some(d) => d.to_string(),
        None => String::from_str("N/A"),
    };
    let body = match &notice.body {
        Some(b) => b.clone(),
        None => String::from_str("No details"),
    };
    let sent_at = notice.sent_at.to_seconds_string();
    let title = encode_text(notice.title.as_str());
    let mut r = concat3("#", notice.main_category.name(), "\n<b>");
    r.append(title.as_str());
    r.append("</b>\n<b>Date:</b> ");
    r.append(date.as_str());
    r.append("\n<b>Details:</b>\n");
    r.append(body.as_str());
    r.append("\n<i>Sent at: ");
    r.append(sent_at.as_str());
    r.append("</i>");
    r
}

// ---------------------------------------------------------------------------
// Waiting after a refused send.

/// What `str::to_lowercase` returns for a string.
pub uninterp spec fn lowercase_of(s: Seq<char>) -> Seq<char>;

/// `str::to_lowercase` (Unicode lowercase mapping); its result is named.
#[verifier::external_body]
fn to_lowercase(s: &str) -> (r: String)
    ensures
        r@ == lowercase_of(s@),
{
    s.to_lowercase()
}

/// The text between the first occurrence of `pat` and the next one (or the
/// end): the second piece of `str::split(pat)`.
pub open spec fn second_piece(s: Seq<char>, pat: Seq<char>) -> Option<Seq<char>> {
    match first_occurrence_from(s, pat, 0) {
        None => None,
        Some(i) => match first_occurrence_from(s, pat, i + pat.len()) {
            Some(j) => Some(s.subrange(i + pat.len(), j)),
            None => Some(s.subrange(i + pat.len(), s.len() as int)),
        },
    }
}

/// The non-whitespace characters at the start of `s`.
pub open spec fn leading_word(s: Seq<char>) -> Seq<char>
    decreases s.len(),
{
    if s.len() == 0 || is_ws(s[0]) {
        seq![]
    } else {
        seq![s[0]] + leading_word(s.drop_first())
    }
}

/// The first whitespace-separated word of `s` (what
/// `split_whitespace().next()` gives).
pub open spec fn first_word(s: Seq<char>) -> Option<Seq<char>> {
    if trim_start(s).len() == 0 {
        None
    } else {
        Some(leading_word(trim_start(s)))
    }
}

/// `s` without its trailing `c` characters (`trim_end_matches(c)`).
pub open spec fn strip_trailing(s: Seq<char>, c: char) -> Seq<char>
    decreases s.len(),
{
    if s.len() > 0 && s.last() == c {
        strip_trailing(s.drop_last(), c)
    } else {
        s
    }
}

/// An ASCII decimal digit.
pub open spec fn is_digit(c: char) -> bool {
    '0' <= c && c <= '9'
}

/// The value of a string of decimal digits.
pub open spec fn digits_value(s: Seq<char>) -> int
    decreases s.len(),
{
    if s.len() == 0 {
        0
    } else {
        digits_value(s.drop_last()) * 10 + (s.last() as int - '0' as int)
    }
}

/// Every character of `d` is a decimal digit.
pub open spec fn all_digits(d: Seq<char>) -> bool {
    forall|k: int| 0 <= k < d.len() ==> is_digit(#[trigger] d[k])
}

/// `s` without one leading `+`.
pub open spec fn unsigned_digits(s: Seq<char>) -> Seq<char> {
    if s.len() > 0 && s[0] == '+' { s.drop_first() } else { s }
}

/// The unsigned 64-bit number `s` writes (as `str::parse::<u64>`): an
/// optional `+`, then one or more decimal digits, of value at most `u64::MAX`.
pub open spec fn parse_u64(s: Seq<char>) -> Option<u64> {
    let d = unsigned_digits(s);
    if d.len() == 0 || !all_digits(d) {
        None
    } else if digits_value(d) > u64::MAX {
        None
    } else {
        Some(digits_value(d) as u64)
    }
}

/// The delay that a flood-control error asks for: the word after the first
/// `retry after` (in the lower-cased message), without trailing `s`, read as a number.
pub open spec fn retry_after_of(lowered: Seq<char>) -> Option<u64> {
    match second_piece(lowered, "retry after"@) {
        None => None,
        Some(p) => match first_word(p) {
            None => None,
            Some(w) => parse_u64(strip_trailing(w, 's')),
        },
    }
}

proof fn lemma_digits_value_nonneg(s: Seq<char>)
    requires
        forall|k: int| 0 <= k < s.len() ==> is_digit(#[trigger] s[k]),
    ensures
        digits_value(s) >= 0,
    decreases s.len(),
{
    if s.len() > 0 {
        lemma_digits_value_nonneg(s.drop_last());
    }
}

proof fn lemma_digits_value_prefix(s: Seq<char>, k: int)
    requires
        0 <= k <= s.len(),
        forall|m: int| 0 <= m < s.len() ==> is_digit(#[trigger] s[m]),
    ensures
        digits_value(s.take(k)) <= digits_value(s),
    decreases s.len() - k,
{
    if k < s.len() {
        assert(s.drop_last().take(k) =~= s.take(k));
        lemma_digits_value_prefix(s.drop_last(), k);
        lemma_digits_value_nonneg(s.drop_last());
    } else {
        assert(s.take(k) =~= s);
    }
}

/// Reads the number written by the characters `a..b` of `s` (see [`parse_u64`]).
fn parse_u64_range(s: &str, a: usize, b: usize) -> (r: Option<u64>)
    requires
        a <= b <= s@.len(),
    ensures
        r == parse_u64(s@.subrange(a as int, b as int)),
{
    let ghost w = s@.subrange(a as int, b as int);
    let mut i = a;
    if i < b && s.get_char(i) == '+' {
        i = i + 1;
    }
    let ghost d = s@.subrange(i as int, b as int);
    assert(d =~= unsigned_digits(w));
    if i == b {
        return None;
    }
    let mut v: u64 = 0;
    let mut k = i;
    while k < b
        invariant
            a <= i <= k <= b <= s@.len(),
            i < b,
            d == s@.subrange(i as int, b as int),
            w == s@.subrange(a as int, b as int),
            d == unsigned_digits(w),
            forall|m: int| i <= m < k ==> is_digit(#[trigger] s@[m]),
            v as int == digits_value(s@.subrange(i as int, k as int)),
        decreases b - k,
    {
        let c = s.get_char(k);
        assert(d[k - i] == s@[k as int]);
        if !('0' <= c && c <= '9') {
            assert(!is_digit(d[k - i]));
            assert(!all_digits(d));
            return None;
        }
        let dv: u64 = (c as u32 - '0' as u32) as u64;
        let ghost pre = s@.subrange(i as int, k + 1);
        proof {
            assert(pre.drop_last() =~= s@.subrange(i as int, k as int));
            assert(pre.last() == c);
            assert(d.take(k - i + 1) =~= pre);
            assert forall|m: int| 0 <= m <= k - i implies is_digit(#[trigger] d[m]) by {
                assert(d[m] == s@[i + m]);
            }
            assert(digits_value(pre) == v * 10 + dv);
        }
        match v.checked_mul(10) {
            None => {
                proof { lemma_too_large(d, (k - i) as int); }
                return None;
            },
            Some(t) => match t.checked_add(dv) {
                None => {
                    proof { lemma_too_large(d, (k - i) as int); }
                    return None;
                },
                Some(nv) => v = nv,
            },
        }
        k = k + 1;
    }
    assert(s@.subrange(i as int, b as int) =~= d);
    Some(v)
}

/// A number whose prefix up to and including position `k` already exceeds
/// `u64::MAX` (while the prefix before it does not) is not a `u64`.
proof fn lemma_too_large(d: Seq<char>, k: int)
    requires
        0 <= k < d.len(),
        forall|m: int| 0 <= m <= k ==> is_digit(#[trigger] d[m]),
        digits_value(d.take(k + 1)) > u64::MAX,
    ensures
        parse_u64_tail_fails(d),
{
    if all_digits(d) {
        lemma_digits_value_prefix(d, k + 1);
    }
}

/// `d` is not a string of digits of value at most `u64::MAX`.
pub open spec fn parse_u64_tail_fails(d: Seq<char>) -> bool {
    !all_digits(d) || digits_value(d) > u64::MAX
}


proof fn lemma_first_occurrence(hay: Seq<char>, needle: Seq<char>, from: int, r: Option<int>)
    requires
        match r {
            Some(i) => from <= i && occurs_at(hay, needle, i)
                && forall|k: int| from <= k < i ==> !occurs_at(hay, needle, k),
            None => forall|k: int| from <= k ==> !occurs_at(hay, needle, k),
        },
    ensures
        first_occurrence_from(hay, needle, from) == r,
{
    match r {
        Some(i) => {
            let j = choose|j: int| from <= j && occurs_at(hay, needle, j)
                && forall|k: int| from <= k < j ==> !occurs_at(hay, needle, k);
            assert(from <= j && occurs_at(hay, needle, j)
                && forall|k: int| from <= k < j ==> !occurs_at(hay, needle, k));
            if j < i {
                assert(!occurs_at(hay, needle, j));
            } else if j > i {
                assert(!occurs_at(hay, needle, i));
            }
        },
        None => {},
    }
}

/// Bounds in `s` of the second piece of `s.split(pat)`.
fn second_piece_range(s: &str, pat: &str) -> (r: Option<(usize, usize)>)
    requires
        pat@.len() > 0,
    ensures
        match second_piece(s@, pat@) {
            None => r is None,
            Some(p) => r matches Some((a, b)) && a <= b <= s@.len() && s@.subrange(a as int, b as int) == p,
        },
{
    let n = s.unicode_len();
    let plen = pat.unicode_len();
    let first = find_from(s, pat, 0);
    proof { lemma_first_occurrence(s@, pat@, 0, match first { Some(i) => Some(i as int), None => None }); }
    match first {
        None => None,
        Some(i) => {
            let start = i + plen;
            let next = find_from(s, pat, start);
            proof { lemma_first_occurrence(s@, pat@, start as int, match next { Some(j) => Some(j as int), None => None }); }
            match next {
                Some(j) => Some((start, j)),
                None => Some((start, n)),
            }
        },
    }
}

proof fn lemma_leading_word(t: Seq<char>, m: int)
    requires
        0 <= m <= t.len(),
        forall|k: int| 0 <= k < m ==> !is_ws(#[trigger] t[k]),
        m == t.len() || is_ws(t[m]),
    ensures
        leading_word(t) == t.take(m),
    decreases m,
{
    if m == 0 {
        assert(t.take(0) =~= Seq::<char>::empty());
    } else {
        lemma_leading_word(t.drop_first(), m - 1);
        assert(seq![t[0]] + t.drop_first().take(m - 1) =~= t.take(m));
    }
}

proof fn lemma_strip_trailing(w: Seq<char>, j: int, c: char)
    requires
        0 <= j <= w.len(),
        forall|k: int| j <= k < w.len() ==> #[trigger] w[k] == c,
        j == 0 || w[j - 1] != c,
    ensures
        strip_trailing(w, c) == w.take(j),
    decreases w.len() - j,
{
    if j < w.len() {
        assert(w.drop_last().take(j) =~= w.take(j));
        lemma_strip_trailing(w.drop_last(), j, c);
    } else {
        assert(w.take(j) =~= w);
    }
}

/// Bounds in `s` of the first word of `s[a..b]`.
fn first_word_range(s: &str, a: usize, b: usize) -> (r: Option<(usize, usize)>)
    requires
        a <= b <= s@.len(),
    ensures
        match first_word(s@.subrange(a as int, b as int)) {
            None => r is None,
            Some(w) => r matches Some((x, y)) && a <= x <= y <= b && s@.subrange(x as int, y as int) == w,
        },
{
    let ghost seg = s@.subrange(a as int, b as int);
    let mut x = a;
    while x < b && is_whitespace(s.get_char(x))
        invariant
            a <= x <= b <= s@.len(),
            seg == s@.subrange(a as int, b as int),
            forall|k: int| 0 <= k < x - a ==> is_ws(#[trigger] seg[k]),
        decreases b - x,
    {
        assert(seg[x - a] == s@[x as int]);
        x = x + 1;
    }
    let ghost t = s@.subrange(x as int, b as int);
    proof {
        crate::text::lemma_trim_start_skip(seg, x - a);
        assert(seg.subrange(x - a, seg.len() as int) =~= t);
        if t.len() > 0 {
            assert(t[0] == s@[x as int]);
        }
        assert(trim_start(t) == t);
    }
    if x == b {
        return None;
    }
    let mut y = x;
    while y < b && !is_whitespace(s.get_char(y))
        invariant
            x <= y <= b <= s@.len(),
            t == s@.subrange(x as int, b as int),
            forall|k: int| 0 <= k < y - x ==> !is_ws(#[trigger] t[k]),
        decreases b - y,
    {
        assert(t[y - x] == s@[y as int]);
        y = y + 1;
    }
    proof {
        if y < b {
            assert(t[y - x] == s@[y as int]);
        }
        lemma_leading_word(t, y - x);
        assert(t.take(y - x) =~= s@.subrange(x as int, y as int));
    }
    Some((x, y))
}

/// The delay, in seconds, that a lower-cased flood-control error asks for
/// (see [`retry_after_of`]).
pub fn retry_after_secs(lowered: &str) -> (r: Option<u64>)
    ensures
        r == retry_after_of(lowered@),
{
    proof { reveal_strlit("retry after"); }
    let (a, b) = match second_piece_range(lowered, "retry after") {
        None => return None,
        Some(p) => p,
    };
    let (x, y) = match first_word_range(lowered, a, b) {
        None => return None,
        Some(p) => p,
    };
    let ghost w = lowered@.subrange(x as int, y as int);
    let mut z = y;
    while z > x && lowered.get_char(z - 1) == 's'
        invariant
            x <= z <= y <= lowered@.len(),
            w == lowered@.subrange(x as int, y as int),
            forall|k: int| z - x <= k < w.len() ==> #[trigger] w[k] == 's',
        decreases z,
    {
        assert(w[z - 1 - x] == lowered@[z - 1]);
        z = z - 1;
    }
    proof {
        if z > x {
            assert(w[z - 1 - x] == lowered@[z - 1]);
        }
        lemma_strip_trailing(w, z - x, 's');
        assert(w.take(z - x) =~= lowered@.subrange(x as int, z as int));
    }
    parse_u64_range(lowered, x, z)
}

/// Seconds to wait after a refused send: one more than the delay the error
/// asks for, or 5 when it asks for none.
pub open spec fn wait_secs_spec(retry_after: Option<u64>) -> int {
    match retry_after {
        Some(n) => n + 1,
        None => 5,
    }
}

/// Seconds to wait after a refused send, given the delay the error asks for.
pub fn wait_secs_for(retry_after: Option<u64>) -> (r: u64)
    requires
        retry_after != Some(u64::MAX),
    ensures
        r == wait_secs_spec(retry_after),
{
    match retry_after {
        Some(n) => n + 1,
        None => 5,
    }
}

/// Seconds to wait after a send refused with the error text `err`; `None`
/// when the requested delay is `u64::MAX`, one second more than which has
/// no `u64`.
pub fn retry_wait_secs(err: &str) -> (r: Option<u64>)
    ensures
        retry_after_of(lowercase_of(err@)) == Some(u64::MAX) ==> r is None,
        retry_after_of(lowercase_of(err@)) != Some(u64::MAX)
            ==> r == Some(wait_secs_spec(retry_after_of(lowercase_of(err@))) as u64),
{
    let lowered = to_lowercase(err);
    let n = retry_after_secs(lowered.as_str());
    if n == Some(u64::MAX) {
        None
    } else {
        Some(wait_secs_for(n))
    }
}

// ---------------------------------------------------------------------------
// Giving up.

/// Sends of one notice that may fail before it is given up.
pub const MAX_SEND_ATTEMPTS: u32 = 5;

/// What to do after a send failed.
#[derive(Clone, Copy, Debug, PartialEq, Eq, Structural)]
pub enum SendStep {
    /// Wait `wait_secs` seconds and send again; `failures` sends have failed.
    Retry { failures: u32, wait_secs: u64 },
    /// Stop sending this notice after `failures` failed sends.
    GiveUp { failures: u32 },
}

/// The step after a send failed when `failures` earlier sends of the same
/// notice had failed: the fifth failure gives up, any earlier one waits
/// `wait_secs` and retries.
pub fn after_send_failure(failures: u32, wait_secs: u64) -> (r: SendStep)
    requires
        failures < MAX_SEND_ATTEMPTS,
    ensures
        failures + 1 >= MAX_SEND_ATTEMPTS ==> r == (SendStep::GiveUp { failures: (failures + 1) as u32 }),
        failures + 1 < MAX_SEND_ATTEMPTS ==> r == (SendStep::Retry { failures: (failures + 1) as u32, wait_secs }),
{
    let failures = failures + 1;
    if failures >= MAX_SEND_ATTEMPTS {
        SendStep::GiveUp { failures }
    } else {
        SendStep::Retry { failures, wait_secs }
    }
}

} // verus!
