//! The market handler: answers the market commands with a summary of two
//! indices and three crypto pairs, each against its previous value.
//!
//! Collaborators hand prices back as decimal text; here they are parsed
//! into hundredths (two decimal places, truncated) so every comparison
//! and every rendered percentage is verified integer arithmetic.

use vstd::prelude::*;
use vstd::string::StrSliceExecFns;
use vstd::string::StringExecFns;
use crate::error::Error;
use crate::handler::Handler;
use crate::handler::HandlerStep;
use crate::jsonio::json_array_len;
use crate::jsonio::json_array_len_of;
use crate::jsonio::json_has;
use crate::jsonio::json_has_path;
use crate::jsonio::json_read_str;
use crate::jsonio::json_str_of;
use crate::jsonio::json_wf;
use crate::jsonio::parse_json_check;
use crate::text::dec_digit;
use crate::text::dec_spec;
use crate::text::int_dec_spec;
use crate::text::i64_to_string;
use crate::text::push_char;
use crate::text::str_eq;
use crate::text::u64_to_string;
use crate::upstream::UpstreamEvent;
use crate::upstream::UpstreamRequest;

verus! {

/// The largest price this handler accepts, in hundredths.
pub const MAX_PRICE_SCALED: u64 = 100000000000000;

/// The largest integer part of an accepted price.
pub const MAX_PRICE_INT: u64 = 1000000000000;

// ------------------------------------------------------------------
// Decimal price text, read as hundredths.
// ------------------------------------------------------------------
/// A decimal digit character.
pub open spec fn is_digit(c: char) -> bool {
    48 <= c as u32 && c as u32 <= 57
}

/// The value of a decimal digit character.
pub open spec fn digit_val(c: char) -> int {
    c as u32 - 48
}

/// Every character of the text is a decimal digit.
pub open spec fn all_digits(s: Seq<char>) -> bool {
    forall|i: int| 0 <= i < s.len() ==> is_digit(s[i])
}

/// The value of a run of decimal digits.
pub open spec fn digits_val(s: Seq<char>) -> int
    decreases s.len(),
{
    if s.len() == 0 {
        0
    } else {
        digits_val(s.take(s.len() - 1)) * 10 + digit_val(s[s.len() - 1])
    }
}

/// The text splits at position `i` into digits, a dot, and digits.
pub open spec fn price_split_at(s: Seq<char>, i: int) -> bool {
    &&& 0 < i < s.len()
    &&& s[i] == '.'
    &&& all_digits(s.take(i))
    &&& all_digits(s.skip(i + 1))
}

/// The text is a plain decimal number: digits, optionally followed by a
/// dot and further digits.
pub open spec fn price_shape(s: Seq<char>) -> bool {
    ||| (s.len() > 0 && all_digits(s))
    ||| (exists|i: int| price_split_at(s, i))
}

/// The value of the first two digits after the dot, in hundredths.
pub open spec fn frac2_val(f: Seq<char>) -> int {
    if f.len() == 0 {
        0
    } else if f.len() == 1 {
        digit_val(f[0]) * 10
    } else {
        digit_val(f[0]) * 10 + digit_val(f[1])
    }
}

/// The price in hundredths; further decimal places are dropped.
pub open spec fn price_scaled(s: Seq<char>) -> int {
    if s.len() > 0 && all_digits(s) {
        digits_val(s) * 100
    } else {
        let i = choose|i: int| price_split_at(s, i);
        digits_val(s.take(i)) * 100 + frac2_val(s.skip(i + 1))
    }
}

proof fn lemma_digits_val_bounds(s: Seq<char>)
    requires
        all_digits(s),
    ensures
        digits_val(s) >= 0,
    decreases s.len(),
{
    if s.len() > 0 {
        lemma_digits_val_bounds(s.take(s.len() - 1));
    }
}

proof fn lemma_digits_val_prefix_mono(s: Seq<char>, i: int)
    requires
        all_digits(s),
        0 <= i <= s.len(),
    ensures
        digits_val(s.take(i)) <= digits_val(s),
    decreases s.len() - i,
{
    if i == s.len() {
        assert(s.take(i) =~= s);
    } else {
        let t = s.take(i + 1);
        assert(t.take(i) =~= s.take(i));
        assert(t[t.len() - 1] == s[i]);
        lemma_digits_val_bounds(s.take(i));
        assert(digits_val(t) == digits_val(s.take(i)) * 10 + digit_val(s[i]));
        assert(digits_val(s.take(i)) <= digits_val(t));
        lemma_digits_val_prefix_mono(s, i + 1);
    }
}

proof fn lemma_split_unique(s: Seq<char>, i: int, j: int)
    requires
        price_split_at(s, i),
        price_split_at(s, j),
    ensures
        i == j,
{
    if i < j {
        assert(is_digit(s.skip(i + 1)[j - i - 1]));
        assert(s.skip(i + 1)[j - i - 1] == s[j]);
        assert(false);
    }
    if j < i {
        assert(is_digit(s.skip(j + 1)[i - j - 1]));
        assert(s.skip(j + 1)[i - j - 1] == s[i]);
        assert(false);
    }
}

proof fn lemma_bad_char_no_shape(s: Seq<char>, i: int)
    requires
        0 <= i < s.len(),
        !is_digit(s[i]),
        s[i] != '.',
    ensures
        !price_shape(s),
{
    assert(!all_digits(s));
    assert forall|k: int| !price_split_at(s, k) by {
        if price_split_at(s, k) {
            if k == i {
                assert(s[i] == '.');
            } else if i < k {
                assert(is_digit(s.take(k)[i]));
            } else {
                assert(is_digit(s.skip(k + 1)[i - k - 1]));
                assert(s.skip(k + 1)[i - k - 1] == s[i]);
            }
        }
    }
}

proof fn lemma_two_dots_no_shape(s: Seq<char>, i: int, j: int)
    requires
        0 <= i < j < s.len(),
        s[i] == '.',
        s[j] == '.',
    ensures
        !price_shape(s),
{
    assert(!is_digit('.')) by {
        assert('.' as u32 == 46);
    }
    assert(!all_digits(s));
    assert forall|k: int| !price_split_at(s, k) by {
        if price_split_at(s, k) {
            if k < i {
                assert(is_digit(s.skip(k + 1)[i - k - 1]));
                assert(s.skip(k + 1)[i - k - 1] == s[i]);
            } else if k == i {
                assert(is_digit(s.skip(i + 1)[j - i - 1]));
                assert(s.skip(i + 1)[j - i - 1] == s[j]);
            } else {
                assert(is_digit(s.take(k)[i]));
            }
        }
    }
}

proof fn lemma_leading_dot_no_shape(s: Seq<char>)
    requires
        s.len() > 0,
        s[0] == '.',
    ensures
        !price_shape(s),
{
    assert(!is_digit('.')) by {
        assert('.' as u32 == 46);
    }
    assert(!all_digits(s));
    assert forall|k: int| !price_split_at(s, k) by {
        if price_split_at(s, k) {
            assert(is_digit(s.take(k)[0]));
        }
    }
}

/// Reads a decimal price text as hundredths, truncating past two decimal
/// places.  Exactly the plain shapes are accepted, up to the size bound.
pub fn parse_price(s: &str) -> (r: Result<u64, Error>)
    ensures
        (price_shape(s@) && price_scaled(s@) <= MAX_PRICE_SCALED as int) ==> (r matches Ok(v) && v
            == price_scaled(s@)),
        !(price_shape(s@) && price_scaled(s@) <= MAX_PRICE_SCALED as int) ==> (r matches Err(e)
            && e is JsonError),
{
    let n = s.unicode_len();
    if n == 0 {
        return Err(Error::JsonError(String::from_str("empty number")));
    }
    let mut dot: usize = n;
    let mut i: usize = 0;
    while i < n
        invariant
            i <= n,
            n == s@.len(),
            n > 0,
            dot <= n,
            dot < n ==> 0 < dot < i && s@[dot as int] == '.',
            forall|j: int| 0 <= j < i && j != dot ==> is_digit(#[trigger] s@[j]),
        decreases n - i,
    {
        let c = s.get_char(i);
        let cu = c as u32;
        if c == '.' {
            if i == 0 {
                proof {
                    lemma_leading_dot_no_shape(s@);
                }
                return Err(Error::JsonError(String::from_str("number starts with a dot")));
            }
            if dot < n {
                proof {
                    lemma_two_dots_no_shape(s@, dot as int, i as int);
                }
                return Err(Error::JsonError(String::from_str("number with two dots")));
            }
            dot = i;
        } else if cu < 48 || cu > 57 {
            proof {
                lemma_bad_char_no_shape(s@, i as int);
            }
            return Err(Error::JsonError(String::from_str("not a number")));
        }
        i = i + 1;
    }
    let int_end: usize = if dot < n {
        dot
    } else {
        n
    };
    proof {
        if dot == n {
            assert forall|j: int| 0 <= j < s@.len() implies is_digit(#[trigger] s@[j]) by {
                assert(j != dot);
            }
            assert(all_digits(s@));
        } else {
            assert(all_digits(s@.take(dot as int))) by {
                assert forall|j: int|
                    0 <= j < s@.take(dot as int).len() implies is_digit(#[trigger] s@.take(
                    dot as int,
                )[j]) by {
                    assert(s@.take(dot as int)[j] == s@[j]);
                }
            }
            let f = s@.skip(dot as int + 1);
            assert forall|j: int| 0 <= j < f.len() implies is_digit(#[trigger] f[j]) by {
                assert(f[j] == s@[j + dot + 1]);
            }
            assert(all_digits(f));
            assert(price_split_at(s@, dot as int));
        }
        assert(price_shape(s@));
        assert(all_digits(s@.take(int_end as int))) by {
            assert forall|j: int|
                0 <= j < s@.take(int_end as int).len() implies is_digit(#[trigger] s@.take(
                int_end as int,
            )[j]) by {
                assert(s@.take(int_end as int)[j] == s@[j]);
                assert(j != dot);
            }
        }
    }
    let ghost int_part = s@.take(int_end as int);
    let mut v: u64 = 0;
    let mut j: usize = 0;
    proof {
        assert(s@.take(0) =~= Seq::<char>::empty());
    }
    while j < int_end
        invariant
            j <= int_end,
            int_end <= n,
            n == s@.len(),
            int_part == s@.take(int_end as int),
            all_digits(int_part),
            forall|k: int| 0 <= k < int_end ==> is_digit(s@[k]),
            v == digits_val(s@.take(j as int)),
            v <= MAX_PRICE_INT,
            price_shape(s@),
            dot <= n,
            dot < n ==> price_split_at(s@, dot as int),
            dot < n ==> int_end == dot,
            dot == n ==> int_end == n && all_digits(s@),
        decreases int_end - j,
    {
        let c = s.get_char(j);
        let d = (c as u32 - 48) as u64;
        proof {
            assert(is_digit(s@[j as int]));
            assert(d < 10);
        }
        let w = v * 10 + d;
        proof {
            assert(s@.take(j as int + 1).take(j as int) =~= s@.take(j as int));
            assert(s@.take(j as int + 1)[j as int] == s@[j as int]);
            assert(digits_val(s@.take(j as int + 1)) == digits_val(s@.take(j as int)) * 10
                + digit_val(s@[j as int]));
        }
        if w > MAX_PRICE_INT {
            proof {
                assert(s@.take(j as int + 1) =~= int_part.take(j as int + 1));
                lemma_digits_val_prefix_mono(int_part, j as int + 1);
                assert(digits_val(int_part) > MAX_PRICE_INT);
                if dot == n {
                    assert(int_part =~= s@);
                    assert(price_scaled(s@) == digits_val(s@) * 100);
                } else {
                    let c = choose|i: int| price_split_at(s@, i);
                    lemma_split_unique(s@, c, dot as int);
                    assert(all_digits(s@.skip(dot as int + 1)));
                    if s@.skip(dot as int + 1).len() > 0 {
                        assert(is_digit(s@.skip(dot as int + 1)[0]));
                    }
                    if s@.skip(dot as int + 1).len() > 1 {
                        assert(is_digit(s@.skip(dot as int + 1)[1]));
                    }
                    assert(frac2_val(s@.skip(dot as int + 1)) >= 0);
                }
                assert(price_scaled(s@) > MAX_PRICE_SCALED as int);
            }
            return Err(Error::JsonError(String::from_str("number out of range")));
        }
        v = w;
        j = j + 1;
    }
    let mut frac: u64 = 0;
    if dot < n {
        if dot + 1 < n {
            let c1 = s.get_char(dot + 1);
            proof {
                assert(is_digit(s@[dot as int + 1]));
            }
            frac = ((c1 as u32 - 48) as u64) * 10;
            if dot + 2 < n {
                let c2 = s.get_char(dot + 2);
                proof {
                    assert(is_digit(s@[dot as int + 2]));
                }
                frac = frac + ((c2 as u32 - 48) as u64);
            }
        }
        proof {
            let f = s@.skip(dot as int + 1);
            assert(f.len() == n - dot - 1);
            if f.len() > 0 {
                assert(f[0] == s@[dot as int + 1]);
            }
            if f.len() > 1 {
                assert(f[1] == s@[dot as int + 2]);
            }
            assert(frac == frac2_val(f));
        }
    }
    let scaled = v * 100 + frac;
    proof {
        if dot == n {
            assert(s@.take(n as int) =~= s@);
            assert(scaled == price_scaled(s@));
        } else {
            let c = choose|i: int| price_split_at(s@, i);
            lemma_split_unique(s@, c, dot as int);
            assert(!(s@.len() > 0 && all_digits(s@))) by {
                assert(!is_digit('.')) by {
                    assert('.' as u32 == 46);
                }
                assert(!is_digit(s@[dot as int]));
            }
            assert(scaled == price_scaled(s@));
        }
    }
    if scaled > MAX_PRICE_SCALED {
        return Err(Error::JsonError(String::from_str("number out of range")));
    }
    Ok(scaled)
}

// ------------------------------------------------------------------
// Rendering values and changes.
// ------------------------------------------------------------------
/// A value in hundredths rendered with two decimal places.
pub open spec fn dec2_spec(v: int) -> Seq<char> {
    dec_spec(v / 100) + seq!['.', dec_digit((v % 100) / 10), dec_digit(v % 10)]
}

/// Renders a value in hundredths with two decimal places.
pub fn dec2_string(v: u64) -> (r: String)
    ensures
        r@ == dec2_spec(v as int),
{
    let mut r = u64_to_string(v / 100);
    push_char(&mut r, '.');
    push_char(&mut r, crate::text::digit_char(v % 100 / 10));
    push_char(&mut r, crate::text::digit_char(v % 10));
    proof {
        assert(r@ =~= dec2_spec(v as int));
    }
    r
}

/// The day-on-day change in percent, truncated to two decimal places; the
/// degenerate previous value of zero renders as the floating-point
/// artefacts would.
pub open spec fn diff_spec(cur: int, prev: int) -> Seq<char> {
    if prev == 0 {
        if cur == 0 {
            "NaN"@
        } else {
            "inf"@
        }
    } else if cur >= prev {
        dec2_spec((cur - prev) * 10000 / prev)
    } else {
        seq!['-'] + dec2_spec((prev - cur) * 10000 / prev)
    }
}

/// Renders the day-on-day change in percent.
pub fn diff_string(cur: u64, prev: u64) -> (r: String)
    requires
        cur <= MAX_PRICE_SCALED,
        prev <= MAX_PRICE_SCALED,
    ensures
        r@ == diff_spec(cur as int, prev as int),
{
    if prev == 0 {
        if cur == 0 {
            String::from_str("NaN")
        } else {
            String::from_str("inf")
        }
    } else if cur >= prev {
        dec2_string((cur - prev) * 10000 / prev)
    } else {
        let mut r = String::new();
        push_char(&mut r, '-');
        let body = dec2_string((prev - cur) * 10000 / prev);
        r.append(body.as_str());
        proof {
            assert(r@ =~= seq!['-'] + dec2_spec((prev - cur) as int * 10000 / prev as int));
        }
        r
    }
}

// ------------------------------------------------------------------
// The market summary.
// ------------------------------------------------------------------
/// The mood lines for a rising market.
pub open spec fn good_prompt_spec(k: int) -> Seq<char> {
    if k == 0 {
        "买了。我买回了我卖掉的一切。我拥有的每一枚硬币都回来了。我完全重返了市场，激进的购买、巨大的泵，一切都那么享受。市场起飞了，我入场了。"@
    } else if k == 1 {
        "出10wu"@
    } else if k == 2 {
        "狂暴大牛牛"@
    } else {
        "洗脚去了"@
    }
}

/// The mood lines for a falling market.
pub open spec fn bad_prompt_spec(k: int) -> Seq<char> {
    if k == 0 {
        "卖了。我卖掉了我所有的一切，我完全退出了加密货币市场，我再也受不了了。激进的倾销、操纵，巨大的崩，一切都那么激烈。加密结束了，我离开了。"@
    } else if k == 1 {
        "不怕，现货不怕"@
    } else if k == 2 {
        "先套住，再研究"@
    } else if k == 3 {
        "这是价值投资"@
    } else {
        "没关系，技术性回调, 跟他耍耍"@
    }
}

/// The mood line for a mixed market.
pub open spec fn normal_prompt_spec(k: int) -> Seq<char> {
    "沉淀"@
}

fn good_prompt(k: usize) -> (r: String)
    requires
        k < 4,
    ensures
        r@ == good_prompt_spec(k as int),
{
    if k == 0 {
        String::from_str("买了。我买回了我卖掉的一切。我拥有的每一枚硬币都回来了。我完全重返了市场，激进的购买、巨大的泵，一切都那么享受。市场起飞了，我入场了。")
    } else if k == 1 {
        String::from_str("出10wu")
    } else if k == 2 {
        String::from_str("狂暴大牛牛")
    } else {
        String::from_str("洗脚去了")
    }
}

fn bad_prompt(k: usize) -> (r: String)
    requires
        k < 5,
    ensures
        r@ == bad_prompt_spec(k as int),
{
    if k == 0 {
        String::from_str("卖了。我卖掉了我所有的一切，我完全退出了加密货币市场，我再也受不了了。激进的倾销、操纵，巨大的崩，一切都那么激烈。加密结束了，我离开了。")
    } else if k == 1 {
        String::from_str("不怕，现货不怕")
    } else if k == 2 {
        String::from_str("先套住，再研究")
    } else if k == 3 {
        String::from_str("这是价值投资")
    } else {
        String::from_str("没关系，技术性回调, 跟他耍耍")
    }
}

fn normal_prompt(k: usize) -> (r: String)
    requires
        k < 1,
    ensures
        r@ == normal_prompt_spec(k as int),
{
    String::from_str("沉淀")
}

/// Relies on `rand::random_range`: a uniform index below the bound, from
/// the thread-local generator.
#[verifier::external_body]
fn pick_index(n: usize) -> (r: usize)
    requires
        n >= 1,
    ensures
        r < n,
{
    rand::random_range(0..n)
}

/// Relies on `chrono::Utc::now`: the clock reading in milliseconds since
/// the epoch.  Nothing is assumed of it.
#[verifier::external_body]
fn now_millis() -> i64 {
    chrono::Utc::now().timestamp_millis()
}

/// The display name of each tracked asset, in report order.
pub open spec fn asset_name(i: int) -> Seq<char> {
    if i == 0 {
        "纳指"@
    } else if i == 1 {
        "恒指"@
    } else if i == 2 {
        "BTC"@
    } else if i == 3 {
        "ETH"@
    } else {
        "SOL"@
    }
}

fn asset_name_str(i: usize) -> (r: String)
    ensures
        r@ == asset_name(i as int),
{
    if i == 0 {
        String::from_str("纳指")
    } else if i == 1 {
        String::from_str("恒指")
    } else if i == 2 {
        String::from_str("BTC")
    } else if i == 3 {
        String::from_str("ETH")
    } else {
        String::from_str("SOL")
    }
}

/// One report line: the asset, its value, and its change in percent.
pub open spec fn line_spec(name: Seq<char>, cur: int, prev: int) -> Seq<char> {
    name + seq![' '] + dec2_spec(cur) + seq![' '] + diff_spec(cur, prev) + seq!['%', '\n']
}

/// The report lines for the quotes gathered so far.
pub open spec fn lines_spec(q: Seq<(u64, u64)>) -> Seq<char>
    decreases q.len(),
{
    if q.len() == 0 {
        Seq::empty()
    } else {
        lines_spec(q.take(q.len() - 1)) + line_spec(
            asset_name(q.len() - 1),
            q.last().0 as int,
            q.last().1 as int,
        )
    }
}

/// How many assets stand above their previous value.
pub open spec fn riser_count(q: Seq<(u64, u64)>) -> int
    decreases q.len(),
{
    if q.len() == 0 {
        0
    } else {
        riser_count(q.take(q.len() - 1)) + if q.last().0 > q.last().1 {
            1int
        } else {
            0int
        }
    }
}

/// The full report: the lines, then a mood line picked for the count of
/// risers.
pub open spec fn market_text_ok(q: Seq<(u64, u64)>, out: Seq<char>) -> bool {
    let cnt = riser_count(q);
    ||| (cnt >= 3 && exists|k: int| 0 <= k < 4 && out == lines_spec(q) + good_prompt_spec(k))
    ||| (cnt < 3 && exists|k: int| 0 <= k < 5 && out == lines_spec(q) + bad_prompt_spec(k))
}

/// Builds one report line.
pub fn summary_line(i: usize, cur: u64, prev: u64) -> (r: String)
    requires
        cur <= MAX_PRICE_SCALED,
        prev <= MAX_PRICE_SCALED,
    ensures
        r@ == line_spec(asset_name(i as int), cur as int, prev as int),
{
    let mut r = asset_name_str(i);
    push_char(&mut r, ' ');
    let value = dec2_string(cur);
    r.append(value.as_str());
    push_char(&mut r, ' ');
    let change = diff_string(cur, prev);
    r.append(change.as_str());
    push_char(&mut r, '%');
    push_char(&mut r, '\n');
    proof {
        assert(r@ =~= line_spec(asset_name(i as int), cur as int, prev as int));
    }
    r
}

/// Builds the full market report for the five quotes, with a mood line
/// picked at random for the market's direction.
pub fn market_summary(quotes: &Vec<(u64, u64)>) -> (r: String)
    requires
        quotes@.len() == 5,
        forall|i: int|
            0 <= i < 5 ==> (#[trigger] quotes@[i]).0 <= MAX_PRICE_SCALED && quotes@[i].1
                <= MAX_PRICE_SCALED,
    ensures
        market_text_ok(quotes@, r@),
{
    let mut text = String::new();
    let mut cnt: usize = 0;
    let mut i: usize = 0;
    proof {
        assert(quotes@.take(0) =~= Seq::<(u64, u64)>::empty());
    }
    while i < 5
        invariant
            i <= 5,
            quotes@.len() == 5,
            forall|k: int|
                0 <= k < 5 ==> (#[trigger] quotes@[k]).0 <= MAX_PRICE_SCALED && quotes@[k].1
                    <= MAX_PRICE_SCALED,
            text@ == lines_spec(quotes@.take(i as int)),
            cnt == riser_count(quotes@.take(i as int)),
            cnt <= i,
        decreases 5 - i,
    {
        let (cur, prev) = quotes[i];
        let line = summary_line(i, cur, prev);
        text.append(line.as_str());
        if cur > prev {
            cnt = cnt + 1;
        }
        proof {
            let t = quotes@.take(i as int + 1);
            assert(t.take(i as int) =~= quotes@.take(i as int));
            assert(t.last() == quotes@[i as int]);
            assert(t.len() - 1 == i as int);
        }
        i = i + 1;
    }
    proof {
        assert(quotes@.take(5) =~= quotes@);
    }
    if cnt >= 3 {
        let k = pick_index(4);
        let mood = good_prompt(k);
        text.append(mood.as_str());
        text
    } else if cnt <= 2 {
        let k = pick_index(5);
        let mood = bad_prompt(k);
        text.append(mood.as_str());
        text
    } else {
        let mood = normal_prompt(0);
        text.append(mood.as_str());
        text
    }
}

// ------------------------------------------------------------------
// Reading collaborator answers.
// ------------------------------------------------------------------
/// The market-index lookup URL.
pub open spec fn index_url_spec(inxid: int, appkey: Seq<char>, token: Seq<char>) -> Seq<char> {
    "https://sapi.k780.com/?app=finance.globalindex&inxids="@ + dec_spec(inxid) + "&appkey="@
        + appkey + "&sign="@ + token + "&format=json"@
}

/// The crypto candle-history URL for a pair and a time bound.
pub open spec fn candles_url_spec(ticker: Seq<char>, ts: int) -> Seq<char> {
    "https://www.okx.com/api/v5/market/history-candles?instId="@ + ticker + "&after="@
        + int_dec_spec(ts)
}

/// The JSON pointer path of one index's entry in a market-index answer.
pub open spec fn index_entry_path(inxid: int) -> Seq<char> {
    "/result/lists/"@ + dec_spec(inxid)
}

/// The price text is a plain decimal within the accepted bound.
pub open spec fn price_text_ok(t: Seq<char>) -> bool {
    price_shape(t) && price_scaled(t) <= MAX_PRICE_SCALED as int
}

/// Exactly how a market-index answer body is reduced: the current and
/// previous value read at the index's entry when every read succeeds,
/// else the error naming the first missing piece.
pub open spec fn index_conclude_ok(body: Seq<char>, inxid: int, r: Result<(u64, u64), Error>) -> bool {
    let entry = index_entry_path(inxid);
    let prev_path = entry + "/yesy_price"@;
    let cur_path = entry + "/last_price"@;
    if !json_wf(body) {
        r matches Err(e) && e is JsonError
    } else if !json_has(body, entry) {
        r matches Err(e) && (e matches Error::ResultError(m) && m@
            == "failed to get result for index"@)
    } else if !json_has(body, prev_path) {
        r matches Err(e) && (e matches Error::ResultError(m) && m@ == "no previous info"@)
    } else if json_str_of(body, prev_path) is None {
        r matches Err(e) && (e matches Error::JsonError(m) && m@ == "previous price is not text"@)
    } else if !price_text_ok(json_str_of(body, prev_path)->Some_0) {
        r matches Err(e) && e is JsonError
    } else if !json_has(body, cur_path) {
        r matches Err(e) && (e matches Error::ResultError(m) && m@ == "no cur info"@)
    } else if json_str_of(body, cur_path) is None {
        r matches Err(e) && (e matches Error::JsonError(m) && m@ == "current price is not text"@)
    } else if !price_text_ok(json_str_of(body, cur_path)->Some_0) {
        r matches Err(e) && e is JsonError
    } else {
        r matches Ok(p) && p.0 as int == price_scaled(json_str_of(body, cur_path)->Some_0) && p.1
            as int == price_scaled(json_str_of(body, prev_path)->Some_0)
    }
}

/// The (current, previous) pair of one market-index answer, present
/// exactly when the whole read chain succeeds.
pub open spec fn index_pair_of(body: Seq<char>, inxid: int) -> Option<(int, int)> {
    let entry = index_entry_path(inxid);
    let prev_path = entry + "/yesy_price"@;
    let cur_path = entry + "/last_price"@;
    if json_wf(body) && json_has(body, entry) && json_has(body, prev_path) && json_str_of(
        body,
        prev_path,
    ) is Some && price_text_ok(json_str_of(body, prev_path)->Some_0) && json_has(body, cur_path)
        && json_str_of(body, cur_path) is Some && price_text_ok(
        json_str_of(body, cur_path)->Some_0,
    ) {
        Some(
            (
                price_scaled(json_str_of(body, cur_path)->Some_0),
                price_scaled(json_str_of(body, prev_path)->Some_0),
            ),
        )
    } else {
        None
    }
}

/// Reads the current and previous value of one index out of an answer
/// body, exactly as `index_conclude_ok` says.
pub fn index_conclude(body: &str, inxid: u64) -> (r: Result<(u64, u64), Error>)
    ensures
        index_conclude_ok(body@, inxid as int, r),
{
    if let Err(detail) = parse_json_check(body) {
        return Err(Error::JsonError(detail));
    }
    let mut entry = String::from_str("/result/lists/");
    let digits = u64_to_string(inxid);
    entry.append(digits.as_str());
    if !json_has_path(body, entry.as_str()) {
        return Err(Error::ResultError(String::from_str("failed to get result for index")));
    }
    let mut prev_path = entry.clone();
    prev_path.append("/yesy_price");
    if !json_has_path(body, prev_path.as_str()) {
        return Err(Error::ResultError(String::from_str("no previous info")));
    }
    let prev_text = match json_read_str(body, prev_path.as_str()) {
        Some(t) => t,
        None => {
            return Err(Error::JsonError(String::from_str("previous price is not text")));
        },
    };
    let prev = match parse_price(prev_text.as_str()) {
        Ok(v) => v,
        Err(e) => {
            return Err(e);
        },
    };
    let mut cur_path = entry.clone();
    cur_path.append("/last_price");
    if !json_has_path(body, cur_path.as_str()) {
        return Err(Error::ResultError(String::from_str("no cur info")));
    }
    let cur_text = match json_read_str(body, cur_path.as_str()) {
        Some(t) => t,
        None => {
            return Err(Error::JsonError(String::from_str("current price is not text")));
        },
    };
    let cur = match parse_price(cur_text.as_str()) {
        Ok(v) => v,
        Err(e) => {
            return Err(e);
        },
    };
    Ok((cur, prev))
}

/// Exactly how a crypto candle answer body is reduced: the newest
/// candle's price field when every read succeeds, else the error naming
/// the first missing piece.
pub open spec fn candle_conclude_ok(body: Seq<char>, r: Result<u64, Error>) -> bool {
    if !json_wf(body) {
        r matches Err(e) && e is JsonError
    } else if !json_has(body, "/data"@) {
        r matches Err(e) && (e matches Error::ResultError(m) && m@ == "failed to get data"@)
    } else if json_array_len_of(body, "/data"@) is None {
        r matches Err(e) && (e matches Error::JsonError(m) && m@ == "failed to parse data"@)
    } else if json_array_len_of(body, "/data"@) == Some(0int) {
        r matches Err(e) && (e matches Error::ResultError(m) && m@ == "no data"@)
    } else if json_array_len_of(body, "/data/0"@) is None {
        r matches Err(e) && (e matches Error::JsonError(m) && m@ == "candle is not an array"@)
    } else if json_array_len_of(body, "/data/0"@)->Some_0 < 2 {
        r matches Err(e) && (e matches Error::JsonError(m) && m@ == "candle too short"@)
    } else if json_str_of(body, "/data/0/1"@) is None {
        r matches Err(e) && (e matches Error::JsonError(m) && m@ == "candle price is not text"@)
    } else if !price_text_ok(json_str_of(body, "/data/0/1"@)->Some_0) {
        r matches Err(e) && e is JsonError
    } else {
        r matches Ok(v) && v as int == price_scaled(json_str_of(body, "/data/0/1"@)->Some_0)
    }
}

/// The newest candle price of one answer, present exactly when the whole
/// read chain succeeds.
pub open spec fn candle_val_of(body: Seq<char>) -> Option<int> {
    if json_wf(body) && json_has(body, "/data"@) && json_array_len_of(body, "/data"@) is Some
        && json_array_len_of(body, "/data"@) != Some(0int) && json_array_len_of(body, "/data/0"@)
        is Some && json_array_len_of(body, "/data/0"@)->Some_0 >= 2 && json_str_of(
        body,
        "/data/0/1"@,
    ) is Some && price_text_ok(json_str_of(body, "/data/0/1"@)->Some_0) {
        Some(price_scaled(json_str_of(body, "/data/0/1"@)->Some_0))
    } else {
        None
    }
}

/// Reads the newest candle price of one crypto pair out of an answer
/// body, exactly as `candle_conclude_ok` says.
pub fn candle_conclude(body: &str) -> (r: Result<u64, Error>)
    ensures
        candle_conclude_ok(body@, r),
{
    if let Err(detail) = parse_json_check(body) {
        return Err(Error::JsonError(detail));
    }
    if !json_has_path(body, "/data") {
        return Err(Error::ResultError(String::from_str("failed to get data")));
    }
    let rows = match json_array_len(body, "/data") {
        Some(n) => n,
        None => {
            return Err(Error::JsonError(String::from_str("failed to parse data")));
        },
    };
    if rows == 0 {
        return Err(Error::ResultError(String::from_str("no data")));
    }
    let fields = match json_array_len(body, "/data/0") {
        Some(n) => n,
        None => {
            return Err(Error::JsonError(String::from_str("candle is not an array")));
        },
    };
    if fields < 2 {
        return Err(Error::JsonError(String::from_str("candle too short")));
    }
    let price_text = match json_read_str(body, "/data/0/1") {
        Some(t) => t,
        None => {
            return Err(Error::JsonError(String::from_str("candle price is not text")));
        },
    };
    match parse_price(price_text.as_str()) {
        Ok(v) => Ok(v),
        Err(e) => Err(e),
    }
}

/// The text an event carries; empty for a transport failure.
pub open spec fn event_text(ev: UpstreamEvent) -> Seq<char> {
    match ev {
        UpstreamEvent::Body(b) => b@,
        UpstreamEvent::Failure { .. } => Seq::empty(),
    }
}

/// The body of one gathered event, or the transport failure it carried.
fn body_at<'a>(events: &'a Vec<UpstreamEvent>, i: usize) -> (r: Result<&'a String, Error>)
    requires
        i < events@.len(),
    ensures
        r matches Ok(b) ==> events@[i as int] is Body && b@ == event_text(events@[i as int]),
        r matches Err(e) ==> e is HttpError && events@[i as int] is Failure,
{
    match &events[i] {
        UpstreamEvent::Body(b) => Ok(b),
        UpstreamEvent::Failure { status, url, detail } => Err(
            Error::HttpError { status: *status, url: url.clone(), response: detail.clone() },
        ),
    }
}

/// Every one of the eight gathered answers arrived and reads as its
/// handler expects: two index answers, then a (current, day-ago) candle
/// pair for each of the three crypto pairs.
pub open spec fn market_reads_ok(events: Seq<UpstreamEvent>) -> bool {
    &&& events.len() >= 8
    &&& events[0] is Body && index_pair_of(event_text(events[0]), 1114) is Some
    &&& events[1] is Body && index_pair_of(event_text(events[1]), 1015) is Some
    &&& events[2] is Body && candle_val_of(event_text(events[2])) is Some
    &&& events[3] is Body && candle_val_of(event_text(events[3])) is Some
    &&& events[4] is Body && candle_val_of(event_text(events[4])) is Some
    &&& events[5] is Body && candle_val_of(event_text(events[5])) is Some
    &&& events[6] is Body && candle_val_of(event_text(events[6])) is Some
    &&& events[7] is Body && candle_val_of(event_text(events[7])) is Some
}

/// The five (current, previous) quotes read out of the eight answers, in
/// report order; meaningful exactly when `market_reads_ok` holds.
pub open spec fn market_quotes(events: Seq<UpstreamEvent>) -> Seq<(u64, u64)> {
    let q0 = index_pair_of(event_text(events[0]), 1114)->Some_0;
    let q1 = index_pair_of(event_text(events[1]), 1015)->Some_0;
    seq![
        (q0.0 as u64, q0.1 as u64),
        (q1.0 as u64, q1.1 as u64),
        (
            candle_val_of(event_text(events[2]))->Some_0 as u64,
            candle_val_of(event_text(events[3]))->Some_0 as u64,
        ),
        (
            candle_val_of(event_text(events[4]))->Some_0 as u64,
            candle_val_of(event_text(events[5]))->Some_0 as u64,
        ),
        (
            candle_val_of(event_text(events[6]))->Some_0 as u64,
            candle_val_of(event_text(events[7]))->Some_0 as u64,
        ),
    ]
}

/// What the handler settles with once all eight answers are in: the
/// report over exactly the quotes the answers carry, or a failure exactly
/// when one of them cannot be read.
pub open spec fn market_done_ok(events: Seq<UpstreamEvent>, res: Result<String, Error>) -> bool {
    &&& (res is Ok) <==> market_reads_ok(events)
    &&& (res matches Ok(v) ==> market_text_ok(market_quotes(events), v@))
    &&& (res matches Err(e) ==> e !is NotMatchError)
}

/// Reduces the eight gathered answers to the market report, exactly as
/// `market_done_ok` says.
pub fn get_basic_info(events: &Vec<UpstreamEvent>) -> (r: Result<String, Error>)
    requires
        events@.len() >= 8,
    ensures
        market_done_ok(events@, r),
{
    let b0 = match body_at(events, 0) {
        Ok(b) => b,
        Err(e) => {
            return Err(e);
        },
    };
    let q0 = match index_conclude(b0.as_str(), 1114) {
        Ok(p) => p,
        Err(e) => {
            proof {
                assert(index_pair_of(event_text(events@[0]), 1114) is None);
            }
            return Err(e);
        },
    };
    proof {
        assert(index_pair_of(event_text(events@[0]), 1114) == Some((q0.0 as int, q0.1 as int)));
    }
    let b1 = match body_at(events, 1) {
        Ok(b) => b,
        Err(e) => {
            return Err(e);
        },
    };
    let q1 = match index_conclude(b1.as_str(), 1015) {
        Ok(p) => p,
        Err(e) => {
            proof {
                assert(index_pair_of(event_text(events@[1]), 1015) is None);
            }
            return Err(e);
        },
    };
    proof {
        assert(index_pair_of(event_text(events@[1]), 1015) == Some((q1.0 as int, q1.1 as int)));
    }
    let mut quotes: Vec<(u64, u64)> = Vec::new();
    quotes.push(q0);
    quotes.push(q1);
    let mut k: usize = 2;
    while k < 8
        invariant
            2 <= k <= 8,
            k % 2 == 0,
            events@.len() >= 8,
            quotes@.len() == 1 + k / 2,
            quotes@[0] == (index_pair_of(event_text(events@[0]), 1114)->Some_0.0 as u64,
                index_pair_of(event_text(events@[0]), 1114)->Some_0.1 as u64),
            quotes@[1] == (index_pair_of(event_text(events@[1]), 1015)->Some_0.0 as u64,
                index_pair_of(event_text(events@[1]), 1015)->Some_0.1 as u64),
            index_pair_of(event_text(events@[0]), 1114) is Some,
            index_pair_of(event_text(events@[1]), 1015) is Some,
            events@[0] is Body,
            events@[1] is Body,
            forall|j: int|
                2 <= j < k ==> #[trigger] events@[j] is Body && candle_val_of(
                    event_text(events@[j]),
                ) is Some,
            forall|j: int|
                2 <= j < quotes@.len() ==> (#[trigger] quotes@[j]) == (
                    candle_val_of(event_text(events@[2 * j - 2]))->Some_0 as u64,
                    candle_val_of(event_text(events@[2 * j - 1]))->Some_0 as u64,
                ),
            forall|i: int|
                0 <= i < quotes@.len() ==> (#[trigger] quotes@[i]).0 <= MAX_PRICE_SCALED
                    && quotes@[i].1 <= MAX_PRICE_SCALED,
        decreases 8 - k,
    {
        let bn = match body_at(events, k) {
            Ok(b) => b,
            Err(e) => {
                return Err(e);
            },
        };
        let cur = match candle_conclude(bn.as_str()) {
            Ok(v) => v,
            Err(e) => {
                proof {
                    assert(candle_val_of(event_text(events@[k as int])) is None);
                }
                return Err(e);
            },
        };
        let ba = match body_at(events, k + 1) {
            Ok(b) => b,
            Err(e) => {
                return Err(e);
            },
        };
        let prev = match candle_conclude(ba.as_str()) {
            Ok(v) => v,
            Err(e) => {
                proof {
                    assert(candle_val_of(event_text(events@[k as int + 1])) is None);
                }
                return Err(e);
            },
        };
        proof {
            assert(candle_val_of(event_text(events@[k as int])) == Some(cur as int));
            assert(candle_val_of(event_text(events@[k as int + 1])) == Some(prev as int));
        }
        quotes.push((cur, prev));
        k = k + 2;
    }
    proof {
        assert(market_reads_ok(events@));
        assert(quotes@ =~= market_quotes(events@));
    }
    let text = market_summary(&quotes);
    Ok(text)
}

// ------------------------------------------------------------------
// The handler.
// ------------------------------------------------------------------
pub struct BasicMakertInfo {
    pub nowapi_appkey: String,
    pub nowapi_token: String,
}

impl BasicMakertInfo {
    pub fn new(nowapi_appkey: String, nowapi_token: String) -> (r: Self)
        ensures
            r.nowapi_appkey == nowapi_appkey,
            r.nowapi_token == nowapi_token,
    {
        BasicMakertInfo { nowapi_appkey, nowapi_token }
    }

    fn index_url(&self, inxid: u64) -> (r: String)
        ensures
            r@ == index_url_spec(inxid as int, self.nowapi_appkey@, self.nowapi_token@),
    {
        let mut r = String::from_str("https://sapi.k780.com/?app=finance.globalindex&inxids=");
        let digits = u64_to_string(inxid);
        r.append(digits.as_str());
        r.append("&appkey=");
        r.append(self.nowapi_appkey.as_str());
        r.append("&sign=");
        r.append(self.nowapi_token.as_str());
        r.append("&format=json");
        r
    }
}

fn candles_url(ticker: &str, ts: i64) -> (r: String)
    ensures
        r@ == candles_url_spec(ticker@, ts as int),
{
    let mut r = String::from_str("https://www.okx.com/api/v5/market/history-candles?instId=");
    r.append(ticker);
    r.append("&after=");
    let digits = i64_to_string(ts);
    r.append(digits.as_str());
    r
}

/// The time bound of the day-ago candle request for a clock reading.
fn day_before(now: i64) -> i64 {
    if now >= i64::MIN + 86400000 {
        now - 86400000
    } else {
        now
    }
}

/// The crypto pair asked about at the given even step.
pub open spec fn pair_name(k: int) -> Seq<char> {
    if k < 4 {
        "BTC-USDT"@
    } else if k < 6 {
        "ETH-USDT"@
    } else {
        "SOL-USDT"@
    }
}

fn pair_name_str(k: usize) -> (r: String)
    ensures
        r@ == pair_name(k as int),
{
    if k < 4 {
        String::from_str("BTC-USDT")
    } else if k < 6 {
        String::from_str("ETH-USDT")
    } else {
        String::from_str("SOL-USDT")
    }
}

impl Handler for BasicMakertInfo {
    open spec fn claims_spec(&self, msg: Seq<char>) -> bool {
        msg == "牛回"@ || msg == "牛死"@
    }

    open spec fn describe_spec(&self) -> Seq<char> {
        "/牛回 或 /牛死 - 炒股biss"@
    }

    open spec fn step_ok(&self, msg: Seq<char>, events: Seq<UpstreamEvent>, r: HandlerStep) -> bool {
        if events.len() == 0 {
            r matches HandlerStep::Fetch(req) && (req matches UpstreamRequest::Get { url } && url@
                == index_url_spec(1114, self.nowapi_appkey@, self.nowapi_token@))
        } else {
            match events.last() {
                UpstreamEvent::Failure { status, url: fu, detail: d } => r matches HandlerStep::Done(
                    res,
                ) && res matches Err(e) && (e matches Error::HttpError {
                    status: st,
                    url: u,
                    response: rs,
                } && st == status && u@ == fu@ && rs@ == d@),
                UpstreamEvent::Body(_) => {
                    if events.len() >= 8 {
                        r matches HandlerStep::Done(res) && market_done_ok(events, res)
                    } else if events.len() == 1 {
                        r matches HandlerStep::Fetch(req) && (req matches UpstreamRequest::Get {
                            url,
                        } && url@ == index_url_spec(
                            1015,
                            self.nowapi_appkey@,
                            self.nowapi_token@,
                        ))
                    } else {
                        r matches HandlerStep::Fetch(req) && (req matches UpstreamRequest::Get {
                            url,
                        } && exists|ts: i64|
                            url@ == candles_url_spec(pair_name(events.len() as int), ts as int))
                    }
                },
            }
        }
    }

    fn claims(&self, msg: &str) -> (r: bool) {
        str_eq(msg, "牛回") || str_eq(msg, "牛死")
    }

    fn describe(&self) -> (r: String) {
        String::from_str("/牛回 或 /牛死 - 炒股biss")
    }

    fn step(&self, msg: &str, events: &Vec<UpstreamEvent>) -> (r: HandlerStep) {
        if events.len() == 0 {
            return HandlerStep::Fetch(UpstreamRequest::Get { url: self.index_url(1114) });
        }
        let last = &events[events.len() - 1];
        match last {
            UpstreamEvent::Failure { status, url, detail } => HandlerStep::Done(
                Err(
                    Error::HttpError {
                        status: *status,
                        url: url.clone(),
                        response: detail.clone(),
                    },
                ),
            ),
            UpstreamEvent::Body(_) => {
                if events.len() >= 8 {
                    HandlerStep::Done(get_basic_info(events))
                } else if events.len() == 1 {
                    HandlerStep::Fetch(UpstreamRequest::Get { url: self.index_url(1015) })
                } else {
                    let now = now_millis();
                    let ts = if events.len() % 2 == 0 {
                        now
                    } else {
                        day_before(now)
                    };
                    let pair = pair_name_str(events.len());
                    let url = candles_url(pair.as_str(), ts);
                    HandlerStep::Fetch(UpstreamRequest::Get { url })
                }
            },
        }
    }
}

} // verus!
