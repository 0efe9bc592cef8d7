use vstd::prelude::*;

use crate::abs_i;
use crate::character::{Character, GameKey};

verus! {

// The replay log: append-only text lines of `<elapsedSeconds> <actionCode>`,
// one action each, replayed by re-issuing the same key events against a
// character at matching elapsed times.  A line's elapsed time is written
// with exactly three fractional digits, so a line is the canonical text
// of a millisecond timestamp.

/// Left pressed, right pressed, throw, dash, left released, right
/// released — the action codes a log line may carry.
pub open spec fn act_ok(a: int) -> bool {
    a == 1 || a == 2 || a == 3 || a == 4 || a == -1 || a == -2
}

/// Timestamps a log line can carry, in milliseconds.
pub open spec fn time_ok(t: int) -> bool {
    0 <= t <= 3_600_000_000
}

/// The digit character of a value below ten.
pub open spec fn digit_of(n: int) -> u8 {
    (48 + n) as u8
}

/// The decimal text of a nonnegative number, most significant digit
/// first, without leading zeros.
pub open spec fn dec_str(n: int) -> Seq<u8>
    decreases n,
{
    if n < 10 {
        seq![digit_of(n)]
    } else {
        dec_str(n / 10).push(digit_of(n % 10))
    }
}

/// Three-digit, zero-padded decimal text of a value below a thousand.
pub open spec fn pad3(n: int) -> Seq<u8> {
    seq![digit_of(n / 100), digit_of((n / 10) % 10), digit_of(n % 10)]
}

/// The text of an action code.
pub open spec fn act_str(a: int) -> Seq<u8> {
    if a < 0 {
        seq![45u8] + dec_str(-a)
    } else {
        dec_str(a)
    }
}

/// The canonical log line of a timestamp and an action code: seconds,
/// a dot, three millisecond digits, a space, the action code.
pub open spec fn line_of(t: int, a: int) -> Seq<u8> {
    dec_str(t / 1_000) + seq![46u8] + pad3(t % 1_000) + seq![32u8] + act_str(a)
}

/// Writes the decimal text of a nonnegative number.
fn push_dec(out: &mut Vec<u8>, n: i64)
    requires
        0 <= n,
    ensures
        final(out)@ == old(out)@ + dec_str(n as int),
    decreases n,
{
    if n < 10 {
        out.push(48 + n as u8);
        proof {
            assert(old(out)@ + dec_str(n as int) =~= old(out)@.push(digit_of(n as int)));
        }
    } else {
        push_dec(out, n / 10);
        out.push(48 + (n % 10) as u8);
        proof {
            assert(old(out)@ + dec_str(n as int) =~= (old(out)@ + dec_str(n as int / 10)).push(
                digit_of(n as int % 10),
            ));
        }
    }
}

/// Writes one replay log line: the elapsed time with exactly three
/// fractional digits, a space, and the action code.
pub fn format_replay_line(time_ms: i64, act: i32) -> (r: Vec<u8>)
    requires
        time_ok(time_ms as int),
        act_ok(act as int),
    ensures
        r@ == line_of(time_ms as int, act as int),
{
    let mut out: Vec<u8> = Vec::new();
    push_dec(&mut out, time_ms / 1_000);
    let ms = time_ms % 1_000;
    out.push(46);
    out.push(48 + (ms / 100) as u8);
    out.push(48 + ((ms / 10) % 10) as u8);
    out.push(48 + (ms % 10) as u8);
    out.push(32);
    let ghost mid = out@;
    if act < 0 {
        out.push(45);
        push_dec(&mut out, -(act as i64));
        proof {
            assert(out@ =~= mid + act_str(act as int));
        }
    } else {
        push_dec(&mut out, act as i64);
        proof {
            assert(out@ =~= mid + act_str(act as int));
        }
    }
    proof {
        assert(out@ =~= line_of(time_ms as int, act as int));
    }
    out
}

/// Whether a byte is a decimal digit.
fn is_ascii_digit(b: u8) -> (r: bool)
    ensures
        r == (48 <= b <= 57),
{
    48 <= b && b <= 57
}

/// The value of a run of digit bytes, most significant first.
pub open spec fn digits_val(s: Seq<u8>) -> int
    decreases s.len(),
{
    if s.len() == 0 {
        0
    } else {
        digits_val(s.drop_last()) * 10 + (s.last() - 48)
    }
}

/// Powers of ten.
pub open spec fn pow10(n: int) -> int
    decreases n,
{
    if n <= 0 {
        1
    } else {
        10 * pow10(n - 1)
    }
}

proof fn lemma_pow10_pos(n: int)
    ensures
        1 <= pow10(n),
    decreases n,
{
    if n > 0 {
        lemma_pow10_pos(n - 1);
    }
}

proof fn lemma_pow10_le(m: int, n: int)
    requires
        m <= n,
    ensures
        pow10(m) <= pow10(n),
    decreases n - m,
{
    if m < n {
        lemma_pow10_le(m, n - 1);
        lemma_pow10_pos(n - 1);
    }
}

/// Every byte of a decimal text is a digit, and the text of a positive
/// number does not start with a zero.
proof fn lemma_dec_str_digits(n: int)
    requires
        0 <= n,
    ensures
        1 <= dec_str(n).len(),
        forall|k: int| 0 <= k < dec_str(n).len() ==> 48 <= #[trigger] dec_str(n)[k] <= 57,
        n >= 1 ==> dec_str(n)[0] >= 49,
    decreases n,
{
    if n < 10 {
        assert(dec_str(n)[0] == digit_of(n));
    } else {
        lemma_dec_str_digits(n / 10);
        assert forall|k: int| 0 <= k < dec_str(n).len() implies 48 <= #[trigger] dec_str(n)[k]
            <= 57 by {
            if k < dec_str(n / 10).len() {
                assert(dec_str(n)[k] == dec_str(n / 10)[k]);
            } else {
                assert(dec_str(n)[k] == digit_of(n % 10));
            }
        }
        assert(dec_str(n)[0] == dec_str(n / 10)[0]);
    }
}

/// The decimal text of a value reads back as that value.
proof fn lemma_digits_val_dec(n: int)
    requires
        0 <= n,
    ensures
        digits_val(dec_str(n)) == n,
    decreases n,
{
    if n < 10 {
        assert(dec_str(n).drop_last() =~= Seq::<u8>::empty());
        assert(dec_str(n).last() == digit_of(n));
        assert(digit_of(n) == 48 + n);
        assert(digits_val(Seq::<u8>::empty()) == 0);
        assert(digits_val(dec_str(n)) == digits_val(dec_str(n).drop_last()) * 10 + (dec_str(
            n,
        ).last() - 48));
    } else {
        lemma_digits_val_dec(n / 10);
        assert(dec_str(n).drop_last() =~= dec_str(n / 10));
        assert(dec_str(n).last() == digit_of(n % 10));
        assert(digit_of(n % 10) == 48 + n % 10);
        assert(digits_val(dec_str(n)) == digits_val(dec_str(n).drop_last()) * 10 + (dec_str(
            n,
        ).last() - 48));
    }
}

/// A value below the `n`th power of ten prints in at most `n` digits.
proof fn lemma_dec_str_len(v: int, n: int)
    requires
        0 <= v,
        1 <= n,
        v < pow10(n),
    ensures
        dec_str(v).len() <= n,
    decreases n,
{
    if v >= 10 {
        assert(pow10(n) == 10 * pow10(n - 1));
        assert(v == 10 * (v / 10) + v % 10);
        assert(v / 10 < pow10(n - 1));
        lemma_dec_str_len(v / 10, n - 1);
    }
}

/// Reads a run of up to ten decimal digits starting at `i`: their value
/// and the position after them.  Stops at the first non-digit, at the
/// end of the bytes, or after ten digits.
fn scan_digits(s: &Vec<u8>, i: usize) -> (r: (i64, usize))
    requires
        i <= s@.len(),
    ensures
        ({
            let (v, j) = r;
            &&& i <= j <= s@.len()
            &&& j - i <= 10
            &&& (forall|k: int| i <= k < j ==> 48 <= #[trigger] s@[k] <= 57)
            &&& v == digits_val(s@.subrange(i as int, j as int))
            &&& 0 <= v < 10_000_000_000
            &&& (j < s@.len() && j - i < 10 ==> !(48 <= s@[j as int] <= 57))
        }),
{
    let mut v: i64 = 0;
    let mut j: usize = i;
    proof {
        assert(s@.subrange(i as int, i as int) =~= Seq::<u8>::empty());
    }
    while j < s.len() && j - i < 10 && is_ascii_digit(s[j])
        invariant
            i <= j <= s@.len(),
            j - i <= 10,
            forall|k: int| i <= k < j ==> 48 <= #[trigger] s@[k] <= 57,
            v == digits_val(s@.subrange(i as int, j as int)),
            0 <= v < pow10(j - i),
        decreases s@.len() - j,
    {
        let b = s[j];
        proof {
            lemma_pow10_le(j - i, 9);
            assert(pow10(9) == 1_000_000_000) by {
                reveal_with_fuel(pow10, 10);
            }
            assert(s@.subrange(i as int, j + 1).drop_last() =~= s@.subrange(i as int, j as int));
            assert(s@.subrange(i as int, j + 1).last() == s@[j as int]);
        }
        v = v * 10 + (b - 48) as i64;
        j = j + 1;
    }
    proof {
        lemma_pow10_le(j - i, 10);
        assert(pow10(10) == 10_000_000_000) by {
            reveal_with_fuel(pow10, 11);
        }
    }
    (v, j)
}

/// Whether two byte strings hold the same bytes.
fn bytes_eq(a: &Vec<u8>, b: &Vec<u8>) -> (r: bool)
    ensures
        r == (a@ == b@),
{
    if a.len() != b.len() {
        return false;
    }
    let mut k: usize = 0;
    while k < a.len()
        invariant
            0 <= k <= a@.len(),
            a@.len() == b@.len(),
            forall|m: int| 0 <= m < k ==> a@[m] == b@[m],
        decreases a@.len() - k,
    {
        if a[k] != b[k] {
            return false;
        }
        k = k + 1;
    }
    proof {
        assert(a@ =~= b@);
    }
    true
}

/// Where each part of a canonical log line sits in it.
proof fn lemma_line_parts(s: Seq<u8>, t: int, a: int)
    requires
        time_ok(t),
        act_ok(a),
        s == line_of(t, a),
    ensures
        ({
            let ld = dec_str(t / 1_000).len() as int;
            &&& 1 <= ld <= 7
            &&& s.len() == ld + 5 + (if a < 0 {
                2int
            } else {
                1int
            })
            &&& s.subrange(0, ld) == dec_str(t / 1_000)
            &&& (forall|k: int| 0 <= k < ld ==> 48 <= #[trigger] s[k] <= 57)
            &&& s[ld] == 46
            &&& s[ld + 1] == digit_of((t % 1_000) / 100)
            &&& s[ld + 2] == digit_of(((t % 1_000) / 10) % 10)
            &&& s[ld + 3] == digit_of((t % 1_000) % 10)
            &&& s[ld + 4] == 32
            &&& (a > 0 ==> s.subrange(ld + 5, s.len() as int) == dec_str(a))
            &&& (a < 0 ==> s[ld + 5] == 45 && s.subrange(ld + 6, s.len() as int) == dec_str(-a))
        }),
{
    lemma_dec_str_digits(t / 1_000);
    assert(pow10(7) == 10_000_000) by {
        reveal_with_fuel(pow10, 8);
    }
    lemma_dec_str_len(t / 1_000, 7);
    let ld = dec_str(t / 1_000).len() as int;
    assert(s.subrange(0, ld) =~= dec_str(t / 1_000));
    assert forall|k: int| 0 <= k < ld implies 48 <= #[trigger] s[k] <= 57 by {
        assert(s[k] == dec_str(t / 1_000)[k]);
    }
    if a > 0 {
        assert(act_str(a) == dec_str(a));
        assert(s.subrange(ld + 5, s.len() as int) =~= dec_str(a));
    } else {
        assert(act_str(a) == seq![45u8] + dec_str(-a));
        assert(s.subrange(ld + 6, s.len() as int) =~= dec_str(-a));
    }
}

/// On a canonical line, a digit scan from the start stops exactly at
/// the dot, having read the seconds value.
proof fn lemma_scan_seconds(s: Seq<u8>, t: int, a: int, v: int, p: int)
    requires
        time_ok(t),
        act_ok(a),
        s == line_of(t, a),
        0 <= p <= s.len(),
        p <= 10,
        forall|k: int| 0 <= k < p ==> 48 <= #[trigger] s[k] <= 57,
        v == digits_val(s.subrange(0, p)),
        p < s.len() && p < 10 ==> !(48 <= s[p] <= 57),
    ensures
        p == dec_str(t / 1_000).len(),
        v == t / 1_000,
{
    lemma_line_parts(s, t, a);
    let ld = dec_str(t / 1_000).len() as int;
    if p < ld {
        assert(48 <= s[p] <= 57);
        assert(false);
    }
    if p > ld {
        assert(48 <= s[ld] <= 57);
        assert(false);
    }
    assert(s.subrange(0, p) == dec_str(t / 1_000));
    lemma_digits_val_dec(t / 1_000);
}

/// On a canonical line, a digit scan from the start of the action code
/// reads the code's digits and stops at the end of the line.
proof fn lemma_scan_action(s: Seq<u8>, t: int, a: int, start: int, v: int, e: int)
    requires
        time_ok(t),
        act_ok(a),
        s == line_of(t, a),
        start == dec_str(t / 1_000).len() + (if a < 0 {
            6int
        } else {
            5int
        }),
        start <= e <= s.len(),
        e - start <= 10,
        forall|k: int| start <= k < e ==> 48 <= #[trigger] s[k] <= 57,
        v == digits_val(s.subrange(start, e)),
        e < s.len() && e - start < 10 ==> !(48 <= s[e] <= 57),
    ensures
        e == s.len(),
        e == start + 1,
        v == abs_i(a),
{
    lemma_line_parts(s, t, a);
    let ld = dec_str(t / 1_000).len() as int;
    let body = if a < 0 {
        -a
    } else {
        a
    };
    lemma_dec_str_digits(body);
    assert(s.subrange(start, s.len() as int) == dec_str(body));
    assert(s.len() == start + 1);
    if e == start {
        assert(48 <= s[start] <= 57) by {
            assert(s[start] == dec_str(body)[0]);
        }
        assert(false);
    }
    assert(s.subrange(start, e) == dec_str(body));
    lemma_digits_val_dec(body);
}

/// The three millisecond digits reassemble the millisecond value.
proof fn lemma_ms_digits(m: int)
    requires
        0 <= m < 1_000,
    ensures
        m == (m / 100) * 100 + ((m / 10) % 10) * 10 + m % 10,
{
    assert(m == 10 * (m / 10) + m % 10);
    assert(m / 10 / 10 == m / 100) by (nonlinear_arith)
        requires
            0 <= m,
    ;
    assert(m / 10 == 10 * (m / 10 / 10) + (m / 10) % 10);
}

/// Parses one replay log line.  The line must be the canonical text of
/// a timestamp and a known action code — seconds, a dot, exactly three
/// millisecond digits, one space, the code — else nothing is returned,
/// and every canonical line is accepted.
#[verifier::rlimit(100)]
pub fn parse_replay_line(s: &Vec<u8>) -> (r: Option<(i64, i32)>)
    ensures
        r matches Some((t, a)) ==> {
            &&& time_ok(t as int)
            &&& act_ok(a as int)
            &&& s@ == line_of(t as int, a as int)
        },
        forall|t: int, a: int|
            time_ok(t) && act_ok(a) && s@ == #[trigger] line_of(t, a) ==> r == Some(
                (t as i64, a as i32),
            ),
{
    let (secs, p) = scan_digits(s, 0);
    if p == 0 || p >= s.len() || s[p] != 46 {
        proof {
            assert forall|t: int, a: int|
                !(time_ok(t) && act_ok(a) && s@ == #[trigger] line_of(t, a)) by {
                if time_ok(t) && act_ok(a) && s@ == line_of(t, a) {
                    lemma_scan_seconds(s@, t, a, secs as int, p as int);
                    lemma_line_parts(s@, t, a);
                }
            }
        }
        return None;
    }
    if s.len() - p < 6 {
        proof {
            assert forall|t: int, a: int|
                !(time_ok(t) && act_ok(a) && s@ == #[trigger] line_of(t, a)) by {
                if time_ok(t) && act_ok(a) && s@ == line_of(t, a) {
                    lemma_scan_seconds(s@, t, a, secs as int, p as int);
                    lemma_line_parts(s@, t, a);
                }
            }
        }
        return None;
    }
    let d0 = s[p + 1];
    let d1 = s[p + 2];
    let d2 = s[p + 3];
    if !(48 <= d0 && d0 <= 57 && 48 <= d1 && d1 <= 57 && 48 <= d2 && d2 <= 57) {
        proof {
            assert forall|t: int, a: int|
                !(time_ok(t) && act_ok(a) && s@ == #[trigger] line_of(t, a)) by {
                if time_ok(t) && act_ok(a) && s@ == line_of(t, a) {
                    lemma_scan_seconds(s@, t, a, secs as int, p as int);
                    lemma_line_parts(s@, t, a);
                }
            }
        }
        return None;
    }
    if s[p + 4] != 32 {
        proof {
            assert forall|t: int, a: int|
                !(time_ok(t) && act_ok(a) && s@ == #[trigger] line_of(t, a)) by {
                if time_ok(t) && act_ok(a) && s@ == line_of(t, a) {
                    lemma_scan_seconds(s@, t, a, secs as int, p as int);
                    lemma_line_parts(s@, t, a);
                }
            }
        }
        return None;
    }
    let neg = s[p + 5] == 45;
    let astart = if neg {
        p + 6
    } else {
        p + 5
    };
    let (av, aend) = scan_digits(s, astart);
    if aend != s.len() || aend == astart || (neg && !(av == 1 || av == 2)) || (!neg && !(av == 1
        || av == 2 || av == 3 || av == 4)) {
        proof {
            assert forall|t: int, a: int|
                !(time_ok(t) && act_ok(a) && s@ == #[trigger] line_of(t, a)) by {
                if time_ok(t) && act_ok(a) && s@ == line_of(t, a) {
                    lemma_scan_seconds(s@, t, a, secs as int, p as int);
                    lemma_line_parts(s@, t, a);
                    lemma_dec_str_digits(if a < 0 {
                        -a
                    } else {
                        a
                    });
                    lemma_scan_action(s@, t, a, astart as int, av as int, aend as int);
                }
            }
        }
        return None;
    }
    let a_cand: i32 = if neg {
        if av == 1 {
            -1
        } else {
            -2
        }
    } else {
        if av == 1 {
            1
        } else if av == 2 {
            2
        } else if av == 3 {
            3
        } else {
            4
        }
    };
    let ms: i64 = ((d0 - 48) as i64) * 100 + ((d1 - 48) as i64) * 10 + ((d2 - 48) as i64);
    if secs > 3_600_000 {
        proof {
            assert forall|t: int, a: int|
                !(time_ok(t) && act_ok(a) && s@ == #[trigger] line_of(t, a)) by {
                if time_ok(t) && act_ok(a) && s@ == line_of(t, a) {
                    lemma_scan_seconds(s@, t, a, secs as int, p as int);
                }
            }
        }
        return None;
    }
    let t_cand: i64 = secs * 1_000 + ms;
    if t_cand > 3_600_000_000 {
        proof {
            assert forall|t: int, a: int|
                !(time_ok(t) && act_ok(a) && s@ == #[trigger] line_of(t, a)) by {
                if time_ok(t) && act_ok(a) && s@ == line_of(t, a) {
                    lemma_scan_seconds(s@, t, a, secs as int, p as int);
                    lemma_line_parts(s@, t, a);
                    lemma_ms_digits(t % 1_000);
                }
            }
        }
        return None;
    }
    let canon = format_replay_line(t_cand, a_cand);
    let same = bytes_eq(&canon, s);
    proof {
        assert forall|t: int, a: int|
            time_ok(t) && act_ok(a) && s@ == #[trigger] line_of(t, a) implies (t_cand as int == t
            && a_cand as int == a && same) by {
            lemma_scan_seconds(s@, t, a, secs as int, p as int);
            lemma_line_parts(s@, t, a);
            lemma_ms_digits(t % 1_000);
            lemma_dec_str_digits(if a < 0 {
                -a
            } else {
                a
            });
            lemma_scan_action(s@, t, a, astart as int, av as int, aend as int);
        }
    }
    if !same {
        return None;
    }
    Some((t_cand, a_cand))
}

/// A recorded input script: event times (in milliseconds, sorted by the
/// recorder) and action codes, replayed in order against a character.
pub struct ReplayCursor {
    pub times: Vec<i64>,
    pub acts: Vec<i32>,
    pub idx: usize,
    pub left_press: bool,
    pub right_press: bool,
}

impl ReplayCursor {
    pub open spec fn wf(self) -> bool {
        &&& self.times@.len() == self.acts@.len()
        &&& self.idx <= self.times@.len()
    }

    /// An empty script.
    pub fn new() -> (c: ReplayCursor)
        ensures
            c.wf(),
            c.times@.len() == 0,
            c.idx == 0,
            !c.left_press,
            !c.right_press,
    {
        ReplayCursor { times: Vec::new(), acts: Vec::new(), idx: 0, left_press: false, right_press: false }
    }

    /// Appends one recorded event.
    pub fn push_event(&mut self, time_ms: i64, act: i32)
        requires
            old(self).wf(),
        ensures
            final(self).wf(),
            final(self).times@ == old(self).times@.push(time_ms),
            final(self).acts@ == old(self).acts@.push(act),
            final(self).idx == old(self).idx,
    {
        self.times.push(time_ms);
        self.acts.push(act);
    }

    /// Re-issues every event due by `now_ms` to the character, through
    /// the same key entry points that live input uses, tracking which
    /// movement keys the script holds down.  Events strictly after
    /// `now_ms` stay for later calls.
    pub fn drive(&mut self, c: &mut Character, now_ms: i64)
        requires
            old(self).wf(),
            old(c).wf(),
        ensures
            final(self).wf(),
            final(c).wf(),
            old(self).idx <= final(self).idx <= final(self).times@.len(),
            final(self).times@ == old(self).times@,
            final(self).acts@ == old(self).acts@,
            ({
                let post = *final(self);
                post.idx < post.times@.len() ==> post.times@[post.idx as int] > now_ms
            }),
    {
        while self.idx < self.times.len() && self.times[self.idx] <= now_ms
            invariant
                self.wf(),
                c.wf(),
                self.times@ == old(self).times@,
                self.acts@ == old(self).acts@,
                old(self).idx <= self.idx,
            decreases self.times@.len() - self.idx,
        {
            let act = self.acts[self.idx];
            if act == 1 {
                self.left_press = true;
                c.key_down_event(GameKey::Left, self.left_press, self.right_press);
            } else if act == 2 {
                self.right_press = true;
                c.key_down_event(GameKey::Right, self.left_press, self.right_press);
            } else if act == 3 {
                c.key_down_event(GameKey::Throw, self.left_press, self.right_press);
            } else if act == 4 {
                c.key_down_event(GameKey::Dash, self.left_press, self.right_press);
            } else if act == -1 {
                self.left_press = false;
                c.key_up_event(GameKey::Left, self.left_press, self.right_press);
            } else if act == -2 {
                self.right_press = false;
                c.key_up_event(GameKey::Right, self.left_press, self.right_press);
            }
            self.idx = self.idx + 1;
        }
    }
}

} // verus!
