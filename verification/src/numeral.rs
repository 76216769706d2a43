//! Decimal numerals of arbitrary length.
//!
//! Observed values and question targets are kept as the digit strings they
//! were written with, so that comparing and rendering them is exact whatever
//! their size.

use vstd::prelude::*;

verus! {

/// An ASCII decimal digit.
pub open spec fn is_digit(c: char) -> bool {
    '0' <= c <= '9'
}

/// The number a digit stands for.
pub open spec fn digit_value(c: char) -> nat {
    (c as int - '0' as int) as nat
}

pub open spec fn all_digits(s: Seq<char>) -> bool {
    forall|i: int| 0 <= i < s.len() ==> is_digit(#[trigger] s[i])
}

pub open spec fn all_zero(s: Seq<char>) -> bool {
    forall|i: int| 0 <= i < s.len() ==> #[trigger] s[i] == '0'
}

/// The natural number that a digit string denotes, most significant digit
/// first. The empty string denotes zero.
pub open spec fn natural(s: Seq<char>) -> nat
    decreases s.len(),
{
    if s.len() == 0 {
        0
    } else {
        10 * natural(s.drop_last()) + digit_value(s.last())
    }
}

/// `n` zero digits.
pub open spec fn zeros(n: nat) -> Seq<char> {
    Seq::new(n, |i: int| '0')
}

/// The index at which the run of digits that starts at `from` ends.
pub open spec fn run_end(s: Seq<char>, from: int) -> int
    decreases s.len() - from,
{
    if 0 <= from < s.len() && is_digit(s[from]) {
        run_end(s, from + 1)
    } else {
        from
    }
}

/// A decimal numeral as a mathematical value: sign, integer digits and
/// fraction digits.
pub struct Numeral {
    pub negative: bool,
    pub whole: Seq<char>,
    pub fraction: Seq<char>,
}

impl Numeral {
    /// Every character is a digit.
    pub open spec fn wf(self) -> bool {
        all_digits(self.whole) && all_digits(self.fraction)
    }

    /// The numeral denotes zero (with either sign).
    pub open spec fn is_zero(self) -> bool {
        all_zero(self.whole) && all_zero(self.fraction)
    }

    /// The denoted value is at least the natural number that `target`
    /// denotes. A value below zero never is; for any other value only the
    /// integer part decides, since the target has no fraction.
    pub open spec fn at_least(self, target: Seq<char>) -> bool {
        if self.negative && !self.is_zero() {
            false
        } else {
            natural(self.whole) >= natural(target)
        }
    }

    /// The digits of the magnitude in hundredths, rounded to the nearest
    /// hundredth, a half going up: the integer digits and two fraction
    /// digits, `0` standing for a missing one, stepped to the next number
    /// where the third fraction digit is five or more.
    pub open spec fn hundredths(self) -> Seq<char> {
        let kept = self.whole + seq![
            fraction_digit(self.fraction, 0),
            fraction_digit(self.fraction, 1),
        ];
        if fraction_digit(self.fraction, 2) >= '5' {
            successor(kept)
        } else {
            kept
        }
    }

    /// The numeral with exactly two fraction digits, rounded to the nearest
    /// hundredth: an optional minus sign, the integer digits without leading
    /// zeros (a single `0` if none are left), a point, and two fraction
    /// digits. The rounding is that of the decimal text, a half going up:
    /// `0.125` reads `0.13` and `1.005` reads `1.01`. A binary
    /// floating-point value of the same text, printed with two decimals,
    /// can differ in the last digit.
    pub open spec fn fixed2(self) -> Seq<char> {
        let sign = if self.negative {
            seq!['-']
        } else {
            Seq::<char>::empty()
        };
        let h = self.hundredths();
        sign + canonical(h.take(h.len() - 2)) + seq!['.'] + h.skip(h.len() - 2)
    }
}

/// The digits of the next natural number: the last digit goes up by one,
/// and a nine turns zero and carries.
pub open spec fn successor(d: Seq<char>) -> Seq<char>
    decreases d.len(),
{
    if d.len() == 0 {
        seq!['1']
    } else if d.last() == '9' {
        successor(d.drop_last()).push('0')
    } else {
        d.drop_last().push((d.last() as int + 1) as char)
    }
}

/// The number of leading `0` digits.
pub open spec fn zero_run(s: Seq<char>, from: int) -> int
    decreases s.len() - from,
{
    if 0 <= from < s.len() && s[from] == '0' {
        zero_run(s, from + 1)
    } else {
        from
    }
}

/// A digit string without leading zeros; `0` for the value zero.
pub open spec fn canonical(s: Seq<char>) -> Seq<char> {
    let rest = s.skip(zero_run(s, 0));
    if rest.len() == 0 {
        seq!['0']
    } else {
        rest
    }
}

pub open spec fn fraction_digit(f: Seq<char>, i: int) -> char {
    if 0 <= i < f.len() {
        f[i]
    } else {
        '0'
    }
}

/// Integer and fraction digits after the decimal point has moved `k` places
/// to the right.
pub open spec fn point_moved_right(w: Seq<char>, f: Seq<char>, k: nat) -> (Seq<char>, Seq<char>) {
    if k <= f.len() {
        (w + f.take(k as int), f.skip(k as int))
    } else {
        (w + f + zeros((k - f.len()) as nat), Seq::<char>::empty())
    }
}

/// Integer and fraction digits after the decimal point has moved `k` places
/// to the left.
pub open spec fn point_moved_left(w: Seq<char>, f: Seq<char>, k: nat) -> (Seq<char>, Seq<char>) {
    if k < w.len() {
        (w.take(w.len() - k), w.skip(w.len() - k) + f)
    } else {
        (Seq::<char>::empty(), zeros((k - w.len()) as nat) + w + f)
    }
}

/// The largest exponent magnitude that is read: four digits.
pub const MAX_EXPONENT_DIGITS: usize = 4;

/// Reads a decimal numeral: an optional `-`, integer digits, an optional
/// point with fraction digits, and an optional exponent (`e` or `E`, an
/// optional sign, one to four digits). At least one digit must stand before
/// the exponent, and nothing may follow. The exponent is applied by moving
/// the point.
pub open spec fn numeral(s: Seq<char>) -> Option<Numeral> {
    let start: int = if s.len() > 0 && s[0] == '-' {
        1
    } else {
        0
    };
    let w_end = run_end(s, start);
    let f_start = if w_end < s.len() && s[w_end] == '.' {
        w_end + 1
    } else {
        w_end
    };
    let f_end = run_end(s, f_start);
    let w = s.subrange(start, w_end);
    let f = s.subrange(f_start, f_end);
    if w.len() + f.len() == 0 {
        None
    } else if f_end == s.len() {
        Some(Numeral { negative: start == 1, whole: w, fraction: f })
    } else if s[f_end] == 'e' || s[f_end] == 'E' {
        let sign_at = f_end + 1;
        let signed = sign_at < s.len() && (s[sign_at] == '-' || s[sign_at] == '+');
        let e_start = if signed {
            sign_at + 1
        } else {
            sign_at
        };
        let e_end = run_end(s, e_start);
        let e = s.subrange(e_start, e_end);
        if e_end != s.len() || e.len() == 0 || e.len() > MAX_EXPONENT_DIGITS {
            None
        } else {
            let moved = if signed && s[sign_at] == '-' {
                point_moved_left(w, f, natural(e))
            } else {
                point_moved_right(w, f, natural(e))
            };
            Some(Numeral { negative: start == 1, whole: moved.0, fraction: moved.1 })
        }
    } else {
        None
    }
}

/// A decimal numeral held as digit characters.
pub struct Decimal {
    negative: bool,
    whole: Vec<char>,
    fraction: Vec<char>,
}

impl View for Decimal {
    type V = Numeral;

    closed spec fn view(&self) -> Numeral {
        Numeral { negative: self.negative, whole: self.whole@, fraction: self.fraction@ }
    }
}

impl Decimal {
    #[verifier::type_invariant]
    spec fn digits_only(self) -> bool {
        all_digits(self.whole@) && all_digits(self.fraction@)
    }

    /// Whether the numeral has a minus sign.
    pub fn is_negative(&self) -> (out: bool)
        ensures
            out == self@.negative,
    {
        self.negative
    }

    /// The digits before the point.
    pub fn whole(&self) -> (out: &[char])
        ensures
            out@ == self@.whole,
            self@.wf(),
    {
        proof {
            use_type_invariant(self);
        }
        self.whole.as_slice()
    }

    /// The digits after the point.
    pub fn fraction(&self) -> (out: &[char])
        ensures
            out@ == self@.fraction,
            self@.wf(),
    {
        proof {
            use_type_invariant(self);
        }
        self.fraction.as_slice()
    }

    /// Whether the value is at least the natural number that the integer
    /// digits of `bound` denote.
    pub fn at_least(&self, bound: &Decimal) -> (out: bool)
        ensures
            out == self@.at_least(bound@.whole),
    {
        proof {
            use_type_invariant(self);
            use_type_invariant(bound);
        }
        if self.negative && !(only_zeros(self.whole.as_slice()) && only_zeros(
            self.fraction.as_slice(),
        )) {
            false
        } else {
            natural_at_least(self.whole.as_slice(), bound.whole.as_slice())
        }
    }

    /// The value with two fraction digits, rounded to the nearest
    /// hundredth of the decimal text, a half going up. A binary
    /// floating-point value of the same text, printed with two decimals,
    /// can differ in the last digit.
    pub fn fixed2(&self) -> (out: Vec<char>)
        ensures
            out@ == self@.fixed2(),
    {
        proof {
            use_type_invariant(self);
        }
        let mut h = copy_range(self.whole.as_slice(), 0, self.whole.len());
        assert(self.whole@.subrange(0, self.whole.len() as int) =~= self.whole@);
        h.push(
            if self.fraction.len() > 0 {
                self.fraction[0]
            } else {
                '0'
            },
        );
        h.push(
            if self.fraction.len() > 1 {
                self.fraction[1]
            } else {
                '0'
            },
        );
        assert(h@ =~= self.whole@ + seq![
            fraction_digit(self.fraction@, 0),
            fraction_digit(self.fraction@, 1),
        ]);
        if self.fraction.len() > 2 && self.fraction[2] >= '5' {
            proof {
                lemma_successor_grows(h@);
            }
            increment(&mut h);
        }
        assert(h@ == self@.hundredths());
        let split: usize = h.len() - 2;
        let lead = copy_range(h.as_slice(), 0, split);
        let mut out: Vec<char> = Vec::new();
        if self.negative {
            out.push('-');
        }
        let ghost sign = out@;
        let from = skip_zeros(lead.as_slice());
        if from == lead.len() {
            out.push('0');
        } else {
            append_range(&mut out, lead.as_slice(), from, lead.len());
        }
        assert(out@ =~= sign + canonical(h@.take(split as int)));
        out.push('.');
        out.push(h[split]);
        out.push(h[split + 1]);
        assert(out@ =~= self@.fixed2());
        out
    }
}

/// Where all digits from `i` on are nines, the next number has zeros there,
/// after the digits of the number that follows the first `i` digits.
proof fn lemma_successor_of_nines(d: Seq<char>, i: int)
    requires
        0 <= i <= d.len(),
        forall|j: int| i <= j < d.len() ==> d[j] == '9',
    ensures
        successor(d) == successor(d.take(i)) + zeros((d.len() - i) as nat),
    decreases d.len() - i,
{
    if i == d.len() {
        assert(d.take(i) =~= d);
        assert(successor(d) + zeros(0) =~= successor(d));
    } else {
        lemma_successor_of_nines(d.drop_last(), i);
        assert(d.drop_last().take(i) =~= d.take(i));
        assert((successor(d.take(i)) + zeros((d.len() - 1 - i) as nat)).push('0') =~= successor(
            d.take(i),
        ) + zeros((d.len() - i) as nat));
    }
}

/// The next number has digits only, at least as many as the number, and
/// denotes one more.
pub proof fn lemma_successor_grows(d: Seq<char>)
    requires
        all_digits(d),
    ensures
        all_digits(successor(d)),
        successor(d).len() >= d.len(),
        successor(d).len() >= 1,
        natural(successor(d)) == natural(d) + 1,
    decreases d.len(),
{
    if d.len() == 0 {
        let one = seq!['1'];
        assert(one.drop_last() =~= Seq::<char>::empty());
        assert(one.last() == '1');
        assert(natural(one.drop_last()) == 0);
        assert(natural(one) == 10 * natural(one.drop_last()) + digit_value(one.last()));
    } else if d.last() == '9' {
        lemma_successor_grows(d.drop_last());
        let next = successor(d);
        assert(next.drop_last() =~= successor(d.drop_last()));
        assert(next.last() == '0');
        assert(natural(next) == 10 * natural(next.drop_last()) + digit_value(next.last()));
    } else {
        let up = (d.last() as int + 1) as char;
        let next = d.drop_last().push(up);
        assert(is_digit(d.last()));
        assert(next.drop_last() =~= d.drop_last());
        assert(next.last() == up);
        assert(digit_value(up) == digit_value(d.last()) + 1);
        assert(natural(next) == 10 * natural(next.drop_last()) + digit_value(next.last()));
    }
}

/// Steps a digit string to the next number.
fn increment(d: &mut Vec<char>)
    requires
        all_digits(old(d)@),
    ensures
        final(d)@ == successor(old(d)@),
{
    let n: usize = d.len();
    let mut i: usize = n;
    while i > 0 && d[i - 1] == '9'
        invariant
            i <= n,
            d.len() == n,
            n == old(d)@.len(),
            d@ == old(d)@.take(i as int) + zeros((n - i) as nat),
            forall|j: int| i <= j < n ==> old(d)@[j] == '9',
        decreases i,
    {
        d[i - 1] = '0';
        i -= 1;
        assert(d@ =~= old(d)@.take(i as int) + zeros((n - i) as nat));
    }
    proof {
        lemma_successor_of_nines(old(d)@, i as int);
    }
    if i == 0 {
        d.insert(0, '1');
        assert(old(d)@.take(0) =~= Seq::<char>::empty());
        assert(d@ =~= successor(old(d)@));
    } else {
        let c = d[i - 1];
        assert(c == old(d)@[i - 1]);
        assert(is_digit(c));
        d[i - 1] = ((c as u8) + 1) as char;
        assert(old(d)@.take(i as int).drop_last() =~= old(d)@.take(i - 1));
        assert(d@ =~= successor(old(d)@));
    }
}

/// The numeral of a natural number given by its digits.
pub open spec fn whole_numeral(digits: Seq<char>) -> Numeral {
    Numeral { negative: false, whole: digits, fraction: Seq::<char>::empty() }
}

/// A natural number as a decimal, from its digits followed by `extra` zeros.
pub(crate) fn whole_number(digits: &[char], extra: usize) -> (out: Decimal)
    requires
        all_digits(digits@),
    ensures
        out@ == whole_numeral(digits@ + zeros(extra as nat)),
{
    let mut whole = copy_range(digits, 0, digits.len());
    assert(digits@.subrange(0, digits.len() as int) =~= digits@);
    append_zeros(&mut whole, extra);
    Decimal { negative: false, whole, fraction: Vec::new() }
}

fn only_zeros(s: &[char]) -> (out: bool)
    ensures
        out == all_zero(s@),
{
    let mut i: usize = 0;
    while i < s.len()
        invariant
            i <= s.len(),
            forall|j: int| 0 <= j < i ==> #[trigger] s@[j] == '0',
        decreases s.len() - i,
    {
        if s[i] != '0' {
            return false;
        }
        i += 1;
    }
    true
}

fn skip_zeros(s: &[char]) -> (out: usize)
    ensures
        out == zero_run(s@, 0),
        out <= s.len(),
{
    let mut i: usize = 0;
    while i < s.len() && s[i] == '0'
        invariant
            i <= s.len(),
            zero_run(s@, 0) == zero_run(s@, i as int),
        decreases s.len() - i,
    {
        i += 1;
    }
    i
}

fn digit_at(s: &[char], pad: usize, j: usize) -> (out: u8)
    requires
        all_digits(s@),
        j < pad + s.len(),
    ensures
        out < 10,
        j < pad ==> out == 0,
        j >= pad ==> out == digit_value(s@[j - pad]),
{
    if j < pad {
        0
    } else {
        (s[j - pad] as u32 - '0' as u32) as u8
    }
}

/// The first `n` digits denote ten times what the first `n - 1` denote, plus
/// the last of them.
proof fn lemma_natural_step(s: Seq<char>, n: int)
    requires
        0 < n <= s.len(),
    ensures
        natural(s.take(n)) == 10 * natural(s.take(n - 1)) + digit_value(s[n - 1]),
{
    assert(s.take(n).drop_last() =~= s.take(n - 1));
}

/// Compares the naturals that two digit strings denote, whatever their
/// lengths.
fn natural_at_least(a: &[char], b: &[char]) -> (out: bool)
    requires
        all_digits(a@),
        all_digits(b@),
    ensures
        out == (natural(a@) >= natural(b@)),
{
    let n: usize = if a.len() >= b.len() {
        a.len()
    } else {
        b.len()
    };
    let pad_a: usize = n - a.len();
    let pad_b: usize = n - b.len();
    // -1: the prefix of a denotes less; 0: the same; 1: more
    let mut ord: i8 = 0;
    let mut j: usize = 0;
    while j < n
        invariant
            j <= n,
            n == pad_a + a.len(),
            n == pad_b + b.len(),
            all_digits(a@),
            all_digits(b@),
            -1 <= ord <= 1,
            ord == -1 <==> natural(a@.take(if j < pad_a { 0 } else { j - pad_a })) < natural(
                b@.take(if j < pad_b { 0 } else { j - pad_b }),
            ),
            ord == 1 <==> natural(a@.take(if j < pad_a { 0 } else { j - pad_a })) > natural(
                b@.take(if j < pad_b { 0 } else { j - pad_b }),
            ),
        decreases n - j,
    {
        let da = digit_at(a, pad_a, j);
        let db = digit_at(b, pad_b, j);
        proof {
            if j >= pad_a {
                lemma_natural_step(a@, j - pad_a + 1);
            }
            if j >= pad_b {
                lemma_natural_step(b@, j - pad_b + 1);
            }
            assert(a@.take(0).len() == 0);
            assert(b@.take(0).len() == 0);
        }
        if ord == 0 {
            if da < db {
                ord = -1;
            } else if da > db {
                ord = 1;
            }
        }
        j += 1;
    }
    assert(a@.take(a.len() as int) =~= a@);
    assert(b@.take(b.len() as int) =~= b@);
    ord >= 0
}

/// Appending a zero digit multiplies the denoted natural by ten.
pub proof fn lemma_append_zero(s: Seq<char>)
    ensures
        natural(s.push('0')) == 10 * natural(s),
{
    assert(s.push('0').drop_last() =~= s);
}

/// Appending three zero digits multiplies by a thousand, six by a million.
pub proof fn lemma_append_zeros(s: Seq<char>)
    ensures
        natural(s + zeros(3)) == 1000 * natural(s),
        natural(s + zeros(6)) == 1000000 * natural(s),
{
    let s1 = s.push('0');
    let s2 = s1.push('0');
    let s3 = s2.push('0');
    let s4 = s3.push('0');
    let s5 = s4.push('0');
    let s6 = s5.push('0');
    lemma_append_zero(s);
    lemma_append_zero(s1);
    lemma_append_zero(s2);
    lemma_append_zero(s3);
    lemma_append_zero(s4);
    lemma_append_zero(s5);
    assert(s3 =~= s + zeros(3));
    assert(s6 =~= s + zeros(6));
}

fn scan_digits(s: &[char], from: usize) -> (out: usize)
    requires
        from <= s.len(),
    ensures
        out == run_end(s@, from as int),
        from <= out <= s.len(),
        all_digits(s@.subrange(from as int, out as int)),
{
    let mut i: usize = from;
    while i < s.len() && s[i] >= '0' && s[i] <= '9'
        invariant
            from <= i <= s.len(),
            run_end(s@, from as int) == run_end(s@, i as int),
            forall|j: int| from <= j < i ==> is_digit(#[trigger] s@[j]),
        decreases s.len() - i,
    {
        i += 1;
    }
    i
}

fn copy_range(s: &[char], from: usize, to: usize) -> (out: Vec<char>)
    requires
        from <= to <= s.len(),
    ensures
        out@ == s@.subrange(from as int, to as int),
{
    let mut out: Vec<char> = Vec::new();
    let mut i: usize = from;
    while i < to
        invariant
            from <= i <= to <= s.len(),
            out@ == s@.subrange(from as int, i as int),
        decreases to - i,
    {
        out.push(s[i]);
        i += 1;
    }
    out
}

fn append_range(out: &mut Vec<char>, s: &[char], from: usize, to: usize)
    requires
        from <= to <= s.len(),
    ensures
        final(out)@ == old(out)@ + s@.subrange(from as int, to as int),
{
    let mut i: usize = from;
    while i < to
        invariant
            from <= i <= to <= s.len(),
            out@ == old(out)@ + s@.subrange(from as int, i as int),
        decreases to - i,
    {
        out.push(s[i]);
        i += 1;
    }
}

fn append_zeros(out: &mut Vec<char>, n: usize)
    ensures
        final(out)@ == old(out)@ + zeros(n as nat),
{
    let mut i: usize = 0;
    while i < n
        invariant
            i <= n,
            out@ == old(out)@ + zeros(i as nat),
        decreases n - i,
    {
        out.push('0');
        i += 1;
    }
}

/// The natural that one to four digits denote.
fn small_natural(s: &[char]) -> (out: usize)
    requires
        all_digits(s@),
        s.len() <= MAX_EXPONENT_DIGITS,
    ensures
        out == natural(s@),
        out <= 9999,
{
    let mut acc: usize = 0;
    let mut bound: usize = 1;
    let mut i: usize = 0;
    while i < s.len()
        invariant
            i <= s.len() <= 4,
            all_digits(s@),
            acc == natural(s@.take(i as int)),
            acc < bound,
            i == 0 ==> bound == 1,
            i == 1 ==> bound == 10,
            i == 2 ==> bound == 100,
            i == 3 ==> bound == 1000,
            i == 4 ==> bound == 10000,
        decreases s.len() - i,
    {
        proof {
            lemma_natural_step(s@, i + 1);
        }
        acc = 10 * acc + (s[i] as u32 - '0' as u32) as usize;
        bound = 10 * bound;
        i += 1;
    }
    assert(s@.take(s.len() as int) =~= s@);
    acc
}

/// Moves the decimal point `k` places, to the left or to the right.
fn move_point(w: &[char], f: &[char], k: usize, left: bool) -> (out: (Vec<char>, Vec<char>))
    ensures
        (out.0@, out.1@) == if left {
            point_moved_left(w@, f@, k as nat)
        } else {
            point_moved_right(w@, f@, k as nat)
        },
{
    let mut whole: Vec<char> = Vec::new();
    let mut fraction: Vec<char> = Vec::new();
    if left {
        if k < w.len() {
            append_range(&mut whole, w, 0, w.len() - k);
            append_range(&mut fraction, w, w.len() - k, w.len());
            append_range(&mut fraction, f, 0, f.len());
            assert(whole@ =~= w@.take(w.len() - k));
            assert(fraction@ =~= w@.skip(w.len() - k) + f@);
        } else {
            append_zeros(&mut fraction, k - w.len());
            append_range(&mut fraction, w, 0, w.len());
            append_range(&mut fraction, f, 0, f.len());
            assert(fraction@ =~= zeros((k - w.len()) as nat) + w@ + f@);
        }
    } else {
        if k <= f.len() {
            append_range(&mut whole, w, 0, w.len());
            append_range(&mut whole, f, 0, k);
            append_range(&mut fraction, f, k, f.len());
            assert(whole@ =~= w@ + f@.take(k as int));
            assert(fraction@ =~= f@.skip(k as int));
        } else {
            append_range(&mut whole, w, 0, w.len());
            append_range(&mut whole, f, 0, f.len());
            append_zeros(&mut whole, k - f.len());
            assert(whole@ =~= w@ + f@ + zeros((k - f.len()) as nat));
        }
    }
    (whole, fraction)
}

/// Reads a decimal numeral from characters.
pub fn parse_numeral(s: &[char]) -> (out: Option<Decimal>)
    ensures
        out is Some <==> numeral(s@) is Some,
        out matches Some(d) ==> Some(d@) == numeral(s@) && d@.wf(),
{
    let start: usize = if s.len() > 0 && s[0] == '-' {
        1
    } else {
        0
    };
    let w_end = scan_digits(s, start);
    let f_start: usize = if w_end < s.len() && s[w_end] == '.' {
        w_end + 1
    } else {
        w_end
    };
    let f_end = scan_digits(s, f_start);
    if (w_end - start) + (f_end - f_start) == 0 {
        return None;
    }
    let whole = copy_range(s, start, w_end);
    let fraction = copy_range(s, f_start, f_end);
    if f_end == s.len() {
        return Some(Decimal { negative: start == 1, whole, fraction });
    }
    if s[f_end] != 'e' && s[f_end] != 'E' {
        return None;
    }
    let sign_at: usize = f_end + 1;
    let signed = sign_at < s.len() && (s[sign_at] == '-' || s[sign_at] == '+');
    let e_start: usize = if signed {
        sign_at + 1
    } else {
        sign_at
    };
    let e_end = scan_digits(s, e_start);
    if e_end != s.len() || e_end - e_start == 0 || e_end - e_start > MAX_EXPONENT_DIGITS {
        return None;
    }
    let digits = copy_range(s, e_start, e_end);
    let k = small_natural(digits.as_slice());
    let (moved_whole, moved_fraction) = move_point(
        whole.as_slice(),
        fraction.as_slice(),
        k,
        signed && s[sign_at] == '-',
    );
    proof {
        lemma_moved_digits(whole@, fraction@, k as nat);
    }
    Some(Decimal { negative: start == 1, whole: moved_whole, fraction: moved_fraction })
}

/// Moving the point in a string of digits leaves a string of digits.
proof fn lemma_moved_digits(w: Seq<char>, f: Seq<char>, k: nat)
    requires
        all_digits(w),
        all_digits(f),
    ensures
        all_digits(point_moved_left(w, f, k).0),
        all_digits(point_moved_left(w, f, k).1),
        all_digits(point_moved_right(w, f, k).0),
        all_digits(point_moved_right(w, f, k).1),
{
}

/// Ten to the power of `n`.
pub open spec fn pow10(n: nat) -> nat
    decreases n,
{
    if n == 0 {
        1
    } else {
        10 * pow10((n - 1) as nat)
    }
}

/// Digits written one after the other denote the first number, shifted by
/// the length of the second, plus the second.
pub proof fn lemma_natural_concat(a: Seq<char>, b: Seq<char>)
    ensures
        natural(a + b) == natural(a) * pow10(b.len()) + natural(b),
    decreases b.len(),
{
    if b.len() == 0 {
        assert(a + b =~= a);
        assert(natural(a) * 1 == natural(a)) by (nonlinear_arith);
    } else {
        let rest = b.drop_last();
        lemma_natural_concat(a, rest);
        assert((a + b).drop_last() =~= a + rest);
        assert((a + b).last() == b.last());
        let x = natural(a);
        let p = pow10(rest.len());
        assert(10 * (x * p) == x * (10 * p)) by (nonlinear_arith);
    }
}

/// A string of `n` digits denotes a number below ten to the `n`.
pub proof fn lemma_natural_bound(d: Seq<char>)
    requires
        all_digits(d),
    ensures
        natural(d) < pow10(d.len()),
    decreases d.len(),
{
    if d.len() > 0 {
        lemma_natural_bound(d.drop_last());
        assert(is_digit(d.last()));
    }
}

/// Only the integer part decides a comparison with a natural number: the
/// numeral, taken in units of its last fraction digit, is at least the
/// target in the same units exactly when its integer digits denote at least
/// the target.
pub proof fn lemma_integer_part_decides(n: Numeral, target: Seq<char>)
    requires
        n.wf(),
    ensures
        (natural(n.whole + n.fraction) >= natural(target) * pow10(n.fraction.len())) == (natural(
            n.whole,
        ) >= natural(target)),
{
    lemma_natural_concat(n.whole, n.fraction);
    lemma_natural_bound(n.fraction);
    let w = natural(n.whole) as int;
    let t = natural(target) as int;
    let r = natural(n.fraction) as int;
    let p = pow10(n.fraction.len()) as int;
    assert((w * p + r >= t * p) == (w >= t)) by (nonlinear_arith)
        requires
            0 <= r < p,
            0 <= w,
            0 <= t,
    ;
}

} // verus!
