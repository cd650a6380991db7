//! Decoding of clock-style duration tokens (`H:M:S[.fff]`, `M:S[.fff]`, `S[.fff]`).

use vstd::prelude::*;

use crate::text::chars_of;

verus! {

/// An elapsed time span: whole seconds plus a sub-second part in nanoseconds.
#[derive(Clone, Copy, Debug, PartialEq, Eq, Structural)]
pub struct Duration {
    pub secs: u64,
    pub nanos: u32,
}

impl Duration {
    /// The sub-second part is below one second.
    pub open spec fn wf(self) -> bool {
        self.nanos < 1_000_000_000
    }

    /// A span of `secs` whole seconds.
    pub fn from_secs(secs: u64) -> (r: Duration)
        ensures
            r == (Duration { secs, nanos: 0 }),
    {
        Duration { secs, nanos: 0 }
    }
}

pub open spec fn is_digit(c: char) -> bool {
    '0' <= c && c <= '9'
}

pub open spec fn digit_value(c: char) -> nat {
    ((c as u32) as int - 48) as nat
}

/// A non-empty run of decimal digits.
pub open spec fn is_numeral(s: Seq<char>) -> bool {
    s.len() > 0 && forall|i: int| 0 <= i < s.len() ==> is_digit(#[trigger] s[i])
}

/// The value of a run of decimal digits, most significant first.
pub open spec fn numeral_value(s: Seq<char>) -> nat
    decreases s.len(),
{
    if s.len() == 0 {
        0
    } else {
        numeral_value(s.drop_last()) * 10 + digit_value(s.last())
    }
}

/// The pieces of `s` between occurrences of `sep` (always at least one piece).
pub open spec fn split_on(s: Seq<char>, sep: char) -> Seq<Seq<char>>
    decreases s.len(),
{
    if s.len() == 0 {
        seq![Seq::<char>::empty()]
    } else {
        let init = split_on(s.drop_last(), sep);
        if s.last() == sep {
            init.push(Seq::<char>::empty())
        } else {
            init.update(init.len() - 1, init.last().push(s.last()))
        }
    }
}

pub open spec fn pow10(n: nat) -> nat
    decreases n,
{
    if n == 0 {
        1
    } else {
        10 * pow10((n - 1) as nat)
    }
}

/// One to three numerals: seconds, minutes:seconds or hours:minutes:seconds.
pub open spec fn clock_fields_valid(fields: Seq<Seq<char>>) -> bool {
    1 <= fields.len() <= 3 && forall|i: int| 0 <= i < fields.len() ==> is_numeral(#[trigger] fields[i])
}

/// Total seconds of the clock fields, read from the right as seconds, minutes, hours.
pub open spec fn clock_seconds(fields: Seq<Seq<char>>) -> nat {
    if fields.len() == 3 {
        3600 * numeral_value(fields[0]) + 60 * numeral_value(fields[1]) + numeral_value(fields[2])
    } else if fields.len() == 2 {
        60 * numeral_value(fields[0]) + numeral_value(fields[1])
    } else {
        numeral_value(fields[0])
    }
}

/// Whole seconds of the part before the fraction, when it is well formed and fits in `u64`.
pub open spec fn clock_secs(body: Seq<char>) -> Option<u64> {
    let fields = split_on(body, ':');
    if clock_fields_valid(fields) && clock_seconds(fields) <= u64::MAX {
        Some(clock_seconds(fields) as u64)
    } else {
        None
    }
}

/// The first nine fraction digits, padded with zeros on the right.
pub open spec fn nine_places(frac: Seq<char>) -> Seq<char> {
    (frac + Seq::new(9, |_i: int| '0')).take(9)
}

/// Nanoseconds of a fraction of a second; digits past the ninth are dropped.
pub open spec fn fraction_nanos(frac: Seq<char>) -> Option<u32> {
    if is_numeral(frac) {
        Some(numeral_value(nine_places(frac)) as u32)
    } else {
        None
    }
}

/// The span that a clock token denotes, or `None` when the token is malformed
/// or its whole seconds do not fit in `u64`.
pub open spec fn npt_duration(s: Seq<char>) -> Option<Duration> {
    let parts = split_on(s, '.');
    if parts.len() == 1 {
        match clock_secs(parts[0]) {
            Some(secs) => Some(Duration { secs, nanos: 0 }),
            None => None,
        }
    } else if parts.len() == 2 {
        match (clock_secs(parts[0]), fraction_nanos(parts[1])) {
            (Some(secs), Some(nanos)) => Some(Duration { secs, nanos }),
            _ => None,
        }
    } else {
        None
    }
}

pub proof fn lemma_split_len(s: Seq<char>, sep: char)
    ensures
        split_on(s, sep).len() >= 1,
    decreases s.len(),
{
    if s.len() > 0 {
        lemma_split_len(s.drop_last(), sep);
    }
}

/// The pieces of a prefix agree with those of the whole, the last one being cut short.
pub proof fn lemma_split_prefix(s: Seq<char>, i: int, sep: char)
    requires
        0 <= i <= s.len(),
    ensures
        ({
            let a = split_on(s.take(i), sep);
            let b = split_on(s, sep);
            &&& a.len() <= b.len()
            &&& forall|j: int| 0 <= j < a.len() - 1 ==> a[j] == b[j]
            &&& a.last().len() <= b[a.len() - 1].len()
            &&& a.last() == b[a.len() - 1].take(a.last().len() as int)
        }),
    decreases s.len() - i,
{
    let a = split_on(s.take(i), sep);
    let b = split_on(s, sep);
    lemma_split_len(s.take(i), sep);
    if i == s.len() {
        assert(s.take(i) =~= s);
        assert(a.last() =~= b[a.len() - 1].take(a.last().len() as int));
    } else {
        lemma_split_prefix(s, i + 1, sep);
        let c = split_on(s.take(i + 1), sep);
        assert(s.take(i + 1).drop_last() =~= s.take(i));
        assert(s.take(i + 1).last() == s[i]);
        if s[i] == sep {
            assert(c[a.len() - 1] == a.last());
            assert(a.last() =~= b[a.len() - 1].take(a.last().len() as int));
        } else {
            let k = a.len() - 1;
            assert(c[k] == a.last().push(s[i]));
            assert(a.last() =~= c[k].take(a.last().len() as int));
            assert(a.last() =~= b[k].take(a.last().len() as int));
        }
    }
}

/// Splitting at a separator splits the pieces there.
pub proof fn lemma_split_concat(a: Seq<char>, b: Seq<char>, sep: char)
    ensures
        split_on(a + seq![sep] + b, sep) == split_on(a, sep) + split_on(b, sep),
    decreases b.len(),
{
    let s = a + seq![sep] + b;
    if b.len() == 0 {
        assert(s.drop_last() =~= a);
        assert(split_on(a, sep).push(Seq::<char>::empty()) =~= split_on(a, sep) + split_on(b, sep));
    } else {
        lemma_split_concat(a, b.drop_last(), sep);
        lemma_split_len(b.drop_last(), sep);
        assert(s.drop_last() =~= a + seq![sep] + b.drop_last());
        assert(s.last() == b.last());
        let x = split_on(a, sep);
        let y = split_on(b.drop_last(), sep);
        if b.last() == sep {
            assert((x + y).push(Seq::<char>::empty()) =~= x + y.push(Seq::<char>::empty()));
        } else {
            let v = y.last().push(b.last());
            assert((x + y).last() == y.last());
            assert((x + y).update((x + y).len() - 1, v) =~= x + y.update(y.len() - 1, v));
        }
    }
}

/// Without a separator there is a single piece.
pub proof fn lemma_split_no_sep(a: Seq<char>, sep: char)
    requires
        forall|i: int| 0 <= i < a.len() ==> a[i] != sep,
    ensures
        split_on(a, sep) == seq![a],
    decreases a.len(),
{
    if a.len() > 0 {
        lemma_split_no_sep(a.drop_last(), sep);
        assert(a.drop_last().push(a.last()) =~= a);
        assert(seq![a.drop_last()].update(0, a) =~= seq![a]);
    } else {
        assert(a =~= Seq::<char>::empty());
    }
}

/// A separator anywhere gives at least two pieces.
pub proof fn lemma_split_has_sep(a: Seq<char>, k: int, sep: char)
    requires
        0 <= k < a.len(),
        a[k] == sep,
    ensures
        split_on(a, sep).len() >= 2,
{
    assert(a =~= a.take(k) + seq![sep] + a.skip(k + 1));
    lemma_split_concat(a.take(k), a.skip(k + 1), sep);
    lemma_split_len(a.take(k), sep);
    lemma_split_len(a.skip(k + 1), sep);
}

pub proof fn lemma_pow10_mono(a: nat, b: nat)
    requires
        a <= b,
    ensures
        pow10(a) <= pow10(b),
    decreases b,
{
    if a < b {
        lemma_pow10_mono(a, (b - 1) as nat);
    }
}

/// A prefix of a numeral is worth no more than the numeral.
pub proof fn lemma_numeral_prefix(s: Seq<char>, k: int)
    requires
        0 <= k <= s.len(),
    ensures
        numeral_value(s.take(k)) <= numeral_value(s),
    decreases s.len(),
{
    if k == s.len() {
        assert(s.take(k) =~= s);
    } else {
        lemma_numeral_prefix(s.drop_last(), k);
        assert(s.drop_last().take(k) =~= s.take(k));
    }
}

fn is_digit_char(c: char) -> (r: bool)
    ensures
        r == is_digit(c),
{
    '0' <= c && c <= '9'
}

fn digit_of(c: char) -> (r: u64)
    requires
        is_digit(c),
    ensures
        r == digit_value(c),
        r <= 9,
{
    (c as u32 - 48) as u64
}

/// Index of the first `c` in `cs`, or the length when there is none.
fn find_char(cs: &Vec<char>, c: char) -> (r: usize)
    ensures
        r <= cs.len(),
        forall|j: int| 0 <= j < r ==> cs@[j] != c,
        r < cs.len() ==> cs@[r as int] == c,
{
    let mut i: usize = 0;
    while i < cs.len()
        invariant
            i <= cs.len(),
            forall|j: int| 0 <= j < i ==> cs@[j] != c,
        decreases cs.len() - i,
    {
        if cs[i] == c {
            return i;
        }
        i += 1;
    }
    i
}

/// Nanoseconds of the fraction digits `cs[start..]`.
fn parse_fraction(cs: &Vec<char>, start: usize) -> (r: Option<u32>)
    requires
        start <= cs.len(),
    ensures
        r == fraction_nanos(cs@.skip(start as int)),
        r matches Some(n) ==> n < 1_000_000_000,
{
    let ghost f = cs@.skip(start as int);
    let n = cs.len() - start;
    if n == 0 {
        return None;
    }
    let mut i: usize = start;
    while i < cs.len()
        invariant
            start <= i <= cs.len(),
            f == cs@.skip(start as int),
            forall|k: int| 0 <= k < i - start ==> is_digit(#[trigger] f[k]),
        decreases cs.len() - i,
    {
        if !is_digit_char(cs[i]) {
            assert(f[i - start] == cs@[i as int]);
            return None;
        }
        i += 1;
    }
    let ghost p = nine_places(f);
    let mut nanos: u64 = 0;
    let mut j: usize = 0;
    while j < 9
        invariant
            j <= 9,
            n == f.len(),
            f == cs@.skip(start as int),
            p == nine_places(f),
            is_numeral(f),
            start <= cs.len(),
            n == cs.len() - start,
            nanos == numeral_value(p.take(j as int)),
            nanos < pow10(j as nat),
        decreases 9 - j,
    {
        let c = if j < n {
            cs[start + j]
        } else {
            '0'
        };
        assert(c == p[j as int]) by {
            if j < n {
                assert(f[j as int] == cs@[start + j]);
            }
        }
        let d = digit_of(c);
        proof {
            lemma_pow10_mono((j + 1) as nat, 9);
        }
        assert(p.take(j + 1).drop_last() =~= p.take(j as int));
        proof {
            assert(nanos * 10 + d < 10 * pow10(j as nat)) by (nonlinear_arith)
                requires
                    nanos < pow10(j as nat),
                    d <= 9,
            ;
            assert(pow10((j + 1) as nat) == 10 * pow10(j as nat));
            reveal_with_fuel(pow10, 10);
        }
        nanos = nanos * 10 + d;
        j += 1;
    }
    assert(p.take(9) =~= p);
    proof {
        reveal_with_fuel(pow10, 10);
    }
    assert(pow10(9) == 1_000_000_000);
    Some(nanos as u32)
}

/// Whole seconds of the clock part `cs[..end]`.
fn parse_clock(cs: &Vec<char>, end: usize) -> (r: Option<u64>)
    requires
        end <= cs.len(),
    ensures
        r == clock_secs(cs@.take(end as int)),
{
    let ghost body = cs@.take(end as int);
    let mut done: Vec<u64> = Vec::new();
    let mut cur: u64 = 0;
    let mut cur_len: usize = 0;
    let mut i: usize = 0;
    while i < end
        invariant
            i <= end <= cs.len(),
            body == cs@.take(end as int),
            ({
                let a = split_on(body.take(i as int), ':');
                &&& a.len() == done.len() + 1
                &&& done.len() <= 2
                &&& forall|j: int|
                    0 <= j < done.len() ==> is_numeral(#[trigger] a[j]) && done@[j] == numeral_value(
                        a[j],
                    )
                &&& forall|k: int| 0 <= k < a.last().len() ==> is_digit(#[trigger] a.last()[k])
                &&& cur == numeral_value(a.last())
                &&& cur_len == a.last().len()
            }),
            cur_len <= i,
        decreases end - i,
    {
        let c = cs[i];
        let ghost a = split_on(body.take(i as int), ':');
        let ghost b = split_on(body, ':');
        proof {
            lemma_split_len(body.take(i as int), ':');
            assert(body.take(i + 1).drop_last() =~= body.take(i as int));
            assert(body.take(i + 1).last() == c);
            lemma_split_prefix(body, i + 1, ':');
        }
        let ghost e = split_on(body.take(i + 1), ':');
        if c == ':' {
            if cur_len == 0 || done.len() == 2 {
                if cur_len == 0 {
                    assert(e[a.len() - 1] == a.last());
                    assert(b[a.len() - 1].len() == 0);
                    assert(!is_numeral(b[a.len() - 1]));
                }
                return None;
            }
            done.push(cur);
            cur = 0;
            cur_len = 0;
            proof {
                assert forall|j: int| 0 <= j < done.len() implies is_numeral(#[trigger] e[j])
                    && done@[j] == numeral_value(e[j]) by {
                    if j < done.len() - 1 {
                        assert(e[j] == a[j]);
                    } else {
                        assert(e[j] == a.last());
                    }
                }
            }
        } else if is_digit_char(c) {
            let d = digit_of(c);
            let next: u128 = cur as u128 * 10 + d as u128;
            assert(e.last() == a.last().push(c));
            assert(e.last().drop_last() =~= a.last());
            if next > u64::MAX as u128 {
                proof {
                    let k = e.len() - 1;
                    lemma_numeral_prefix(b[k], e.last().len() as int);
                }
                return None;
            }
            cur = next as u64;
            cur_len += 1;
            proof {
                assert forall|j: int| 0 <= j < done.len() implies is_numeral(#[trigger] e[j])
                    && done@[j] == numeral_value(e[j]) by {
                    assert(e[j] == a[j]);
                }
                assert forall|k: int| 0 <= k < e.last().len() implies is_digit(
                    #[trigger] e.last()[k],
                ) by {
                    if k < a.last().len() {
                        assert(e.last()[k] == a.last()[k]);
                    }
                }
            }
        } else {
            proof {
                let k = e.len() - 1;
                assert(e.last() == a.last().push(c));
                assert(e.last() == b[k].take(e.last().len() as int));
                assert(e.last()[e.last().len() - 1] == c);
                assert(b[k][e.last().len() - 1] == c);
            }
            return None;
        }
        i += 1;
    }
    assert(body.take(end as int) =~= body);
    if cur_len == 0 {
        return None;
    }
    let total: u128 = if done.len() == 0 {
        cur as u128
    } else if done.len() == 1 {
        done[0] as u128 * 60 + cur as u128
    } else {
        done[0] as u128 * 3600 + done[1] as u128 * 60 + cur as u128
    };
    if total > u64::MAX as u128 {
        None
    } else {
        Some(total as u64)
    }
}

/// Decodes a clock-style duration token: up to three colon-separated
/// numerals read from the right as seconds, minutes and hours, with an
/// optional fraction of a second after a `.` at the end.
pub fn parse_npt(text: &str) -> (r: Option<Duration>)
    ensures
        r == npt_duration(text@),
        r matches Some(d) ==> d.wf(),
{
    let cs = chars_of(text);
    let dot = find_char(&cs, '.');
    let secs = parse_clock(&cs, dot);
    if dot == cs.len() {
        proof {
            lemma_split_no_sep(cs@, '.');
            assert(cs@.take(dot as int) =~= cs@);
        }
        match secs {
            Some(secs) => Some(Duration { secs, nanos: 0 }),
            None => None,
        }
    } else {
        let nanos = parse_fraction(&cs, dot + 1);
        proof {
            let body = cs@.take(dot as int);
            let frac = cs@.skip(dot + 1);
            assert(cs@ =~= body + seq!['.'] + frac);
            lemma_split_concat(body, frac, '.');
            lemma_split_no_sep(body, '.');
            lemma_split_len(frac, '.');
            if exists|k: int| 0 <= k < frac.len() && frac[k] == '.' {
                let k = choose|k: int| 0 <= k < frac.len() && frac[k] == '.';
                lemma_split_has_sep(frac, k, '.');
                assert(!is_digit(frac[k]));
            } else {
                lemma_split_no_sep(frac, '.');
            }
        }
        match (secs, nanos) {
            (Some(secs), Some(nanos)) => Some(Duration { secs, nanos }),
            _ => None,
        }
    }
}

/// Splitting on a separator that does not occur in what is appended keeps the number of pieces.
pub proof fn lemma_split_append_no_sep(a: Seq<char>, b: Seq<char>, sep: char)
    requires
        forall|i: int| 0 <= i < b.len() ==> b[i] != sep,
    ensures
        split_on(a + b, sep).len() == split_on(a, sep).len(),
    decreases b.len(),
{
    if b.len() == 0 {
        assert(a + b =~= a);
    } else {
        lemma_split_append_no_sep(a, b.drop_last(), sep);
        lemma_split_len(a + b.drop_last(), sep);
        assert(b[b.len() - 1] != sep);
        assert((a + b).drop_last() =~= a + b.drop_last());
        assert((a + b).last() == b.last());
    }
}

/// Where there are two pieces or more, there is a first separator.
pub proof fn lemma_split_first(s: Seq<char>, sep: char)
    requires
        split_on(s, sep).len() >= 2,
    ensures
        exists|k: int|
            0 <= k < s.len() && s[k] == sep && forall|j: int| 0 <= j < k ==> s[j] != sep,
    decreases s.len(),
{
    let t = s.drop_last();
    lemma_split_len(t, sep);
    if split_on(t, sep).len() >= 2 {
        lemma_split_first(t, sep);
        let k = choose|k: int|
            0 <= k < t.len() && t[k] == sep && forall|j: int| 0 <= j < k ==> t[j] != sep;
        assert(s[k] == sep);
        assert forall|j: int| 0 <= j < k implies s[j] != sep by {
            assert(s[j] == t[j]);
        }
    } else {
        if exists|j: int| 0 <= j < t.len() && t[j] == sep {
            let j = choose|j: int| 0 <= j < t.len() && t[j] == sep;
            lemma_split_has_sep(t, j, sep);
        }
        assert forall|j: int| 0 <= j < s.len() - 1 implies s[j] != sep by {
            assert(s[j] == t[j]);
        }
        assert(s.last() == sep);
    }
}

/// The clock part of a token is rejected when empty, when it has more than
/// three fields, or when it holds a character other than a digit or `:`.
proof fn lemma_clock_malformed(body: Seq<char>)
    requires
        body.len() == 0 || split_on(body, ':').len() > 3 || exists|i: int|
            0 <= i < body.len() && !is_digit(body[i]) && body[i] != ':',
    ensures
        clock_secs(body) is None,
{
    let b = split_on(body, ':');
    if body.len() == 0 {
        assert(b[0].len() == 0);
    } else if b.len() <= 3 {
        let i = choose|i: int| 0 <= i < body.len() && !is_digit(body[i]) && body[i] != ':';
        let c = body[i];
        lemma_split_prefix(body, i + 1, ':');
        lemma_split_len(body.take(i), ':');
        assert(body.take(i + 1).drop_last() =~= body.take(i));
        assert(body.take(i + 1).last() == c);
        let e = split_on(body.take(i + 1), ':');
        let k = e.len() - 1;
        assert(e.last() == split_on(body.take(i), ':').last().push(c));
        assert(e.last() == b[k].take(e.last().len() as int));
        assert(e.last()[e.last().len() - 1] == c);
        assert(b[k][e.last().len() - 1] == c);
        assert(!is_numeral(b[k]));
    }
}

/// Malformed tokens denote no duration: an empty token, one with more than
/// three colon-separated fields, and one holding a character other than a
/// digit, `:` or `.`.
pub proof fn lemma_malformed_token(s: Seq<char>)
    requires
        s.len() == 0 || split_on(s, ':').len() > 3 || exists|i: int|
            0 <= i < s.len() && !is_digit(s[i]) && s[i] != ':' && s[i] != '.',
    ensures
        npt_duration(s) is None,
{
    let parts = split_on(s, '.');
    lemma_split_len(s, '.');
    if parts.len() == 1 {
        if exists|k: int| 0 <= k < s.len() && s[k] == '.' {
            let k = choose|k: int| 0 <= k < s.len() && s[k] == '.';
            lemma_split_has_sep(s, k, '.');
        }
        lemma_split_no_sep(s, '.');
        lemma_clock_malformed(s);
    } else if parts.len() == 2 {
        lemma_split_first(s, '.');
        let k = choose|k: int|
            0 <= k < s.len() && s[k] == '.' && forall|j: int| 0 <= j < k ==> s[j] != '.';
        let body = s.take(k);
        let frac = s.skip(k + 1);
        assert(s =~= body + seq!['.'] + frac);
        lemma_split_concat(body, frac, '.');
        lemma_split_no_sep(body, '.');
        lemma_split_len(frac, '.');
        if exists|j: int| 0 <= j < frac.len() && frac[j] == '.' {
            let j = choose|j: int| 0 <= j < frac.len() && frac[j] == '.';
            lemma_split_has_sep(frac, j, '.');
        }
        lemma_split_no_sep(frac, '.');
        assert(parts[1] == frac);
        if exists|j: int| 0 <= j < frac.len() && frac[j] == ':' {
            let j = choose|j: int| 0 <= j < frac.len() && frac[j] == ':';
            assert(!is_digit(frac[j]));
        } else if split_on(s, ':').len() > 3 {
            let tail = seq!['.'] + frac;
            assert forall|j: int| 0 <= j < tail.len() implies tail[j] != ':' by {
                if j > 0 {
                    assert(tail[j] == frac[j - 1]);
                }
            }
            assert(s =~= body + tail);
            lemma_split_append_no_sep(body, tail, ':');
            lemma_clock_malformed(body);
        } else {
            let i = choose|i: int|
                0 <= i < s.len() && !is_digit(s[i]) && s[i] != ':' && s[i] != '.';
            if i < k {
                assert(body[i] == s[i]);
                lemma_clock_malformed(body);
            } else {
                assert(frac[i - k - 1] == s[i]);
                assert(!is_numeral(frac));
            }
        }
    }
}

/// `H:M:S` with numerals `H`, `M`, `S` denotes exactly `H*3600 + M*60 + S`
/// seconds, when that fits in `u64`.
pub proof fn lemma_hours_minutes_seconds(h: Seq<char>, m: Seq<char>, s: Seq<char>)
    requires
        is_numeral(h),
        is_numeral(m),
        is_numeral(s),
    ensures
        ({
            let total = 3600 * numeral_value(h) + 60 * numeral_value(m) + numeral_value(s);
            npt_duration(h + seq![':'] + m + seq![':'] + s) == if total <= u64::MAX {
                Some(Duration { secs: total as u64, nanos: 0 })
            } else {
                None
            }
        }),
{
    let t = h + seq![':'] + m + seq![':'] + s;
    assert forall|i: int| 0 <= i < t.len() implies t[i] != '.' by {
        if i < h.len() {
            assert(t[i] == h[i]);
        } else if h.len() < i < h.len() + 1 + m.len() {
            assert(t[i] == m[i - h.len() - 1]);
        } else if i > h.len() + 1 + m.len() {
            assert(t[i] == s[i - h.len() - m.len() - 2]);
        }
    }
    lemma_split_no_sep(t, '.');
    assert(t =~= h + seq![':'] + (m + seq![':'] + s));
    lemma_split_concat(h, m + seq![':'] + s, ':');
    lemma_split_concat(m, s, ':');
    lemma_split_no_sep(h, ':');
    lemma_split_no_sep(m, ':');
    lemma_split_no_sep(s, ':');
    let fields = split_on(t, ':');
    assert(fields =~= seq![h, m, s]);
}

/// `M:S` with numerals `M`, `S` denotes exactly `M*60 + S` seconds, when that
/// fits in `u64`.
pub proof fn lemma_minutes_seconds(m: Seq<char>, s: Seq<char>)
    requires
        is_numeral(m),
        is_numeral(s),
    ensures
        ({
            let total = 60 * numeral_value(m) + numeral_value(s);
            npt_duration(m + seq![':'] + s) == if total <= u64::MAX {
                Some(Duration { secs: total as u64, nanos: 0 })
            } else {
                None
            }
        }),
{
    let t = m + seq![':'] + s;
    assert forall|i: int| 0 <= i < t.len() implies t[i] != '.' by {
        if i < m.len() {
            assert(t[i] == m[i]);
        } else if i > m.len() {
            assert(t[i] == s[i - m.len() - 1]);
        }
    }
    lemma_split_no_sep(t, '.');
    lemma_split_concat(m, s, ':');
    lemma_split_no_sep(m, ':');
    lemma_split_no_sep(s, ':');
    assert(split_on(t, ':') =~= seq![m, s]);
}

/// A lone numeral `S` denotes exactly `S` seconds, when that fits in `u64`.
pub proof fn lemma_seconds(s: Seq<char>)
    requires
        is_numeral(s),
    ensures
        npt_duration(s) == if numeral_value(s) <= u64::MAX {
            Some(Duration { secs: numeral_value(s) as u64, nanos: 0 })
        } else {
            None
        },
{
    lemma_split_no_sep(s, '.');
    lemma_split_no_sep(s, ':');
}

/// A fraction after the clock part adds its first nine digits as
/// nanoseconds and leaves the whole seconds as they are.
pub proof fn lemma_fraction(body: Seq<char>, frac: Seq<char>)
    requires
        forall|i: int| 0 <= i < body.len() ==> body[i] != '.',
        is_numeral(frac),
    ensures
        npt_duration(body + seq!['.'] + frac) == match npt_duration(body) {
            Some(d) => Some(Duration { secs: d.secs, nanos: numeral_value(nine_places(frac)) as u32 }),
            None => None,
        },
{
    lemma_split_concat(body, frac, '.');
    lemma_split_no_sep(body, '.');
    lemma_split_no_sep(frac, '.');
    assert(split_on(body + seq!['.'] + frac, '.') =~= seq![body, frac]);
}

} // verus!
