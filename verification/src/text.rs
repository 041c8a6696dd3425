//! Decimal rendering and small text helpers shared by the path and report code.
use vstd::prelude::*;

verus! {

/// The decimal digit character for `d` (`0 <= d < 10`).
pub open spec fn digit_char(d: nat) -> char {
    if d == 0 { '0' }
    else if d == 1 { '1' }
    else if d == 2 { '2' }
    else if d == 3 { '3' }
    else if d == 4 { '4' }
    else if d == 5 { '5' }
    else if d == 6 { '6' }
    else if d == 7 { '7' }
    else if d == 8 { '8' }
    else { '9' }
}

/// The value of a decimal digit character; `None` for any other character.
pub open spec fn digit_value(c: char) -> Option<nat> {
    if c == '0' { Some(0) }
    else if c == '1' { Some(1) }
    else if c == '2' { Some(2) }
    else if c == '3' { Some(3) }
    else if c == '4' { Some(4) }
    else if c == '5' { Some(5) }
    else if c == '6' { Some(6) }
    else if c == '7' { Some(7) }
    else if c == '8' { Some(8) }
    else if c == '9' { Some(9) }
    else { None }
}

/// The shortest decimal representation of `n`, as `format!("{n}")` prints it.
pub open spec fn dec(n: nat) -> Seq<char>
    decreases n,
{
    if n < 10 {
        seq![digit_char(n)]
    } else {
        dec(n / 10).push(digit_char(n % 10))
    }
}

/// `k` copies of the character `'0'`.
pub open spec fn zeros(k: nat) -> Seq<char> {
    Seq::new(k, |i: int| '0')
}

/// `dec(n)` left-padded with zeros to at least `width` characters,
/// as `format!("{n:0width$}")` prints it.
pub open spec fn zero_padded(n: nat, width: nat) -> Seq<char> {
    let d = dec(n);
    if d.len() < width {
        zeros((width - d.len()) as nat) + d
    } else {
        d
    }
}

/// The number a string of decimal digits stands for (leading zeros allowed).
pub open spec fn digits_value(s: Seq<char>) -> nat
    decreases s.len(),
{
    if s.len() == 0 {
        0
    } else {
        let d = match digit_value(s.last()) {
            Some(v) => v,
            None => 0,
        };
        digits_value(s.drop_last()) * 10 + d
    }
}

/// Every character of `s` is a decimal digit.
pub open spec fn all_digits(s: Seq<char>) -> bool {
    forall|i: int| 0 <= i < s.len() ==> (#[trigger] digit_value(s[i])) is Some
}

pub proof fn lemma_digit_roundtrip(d: nat)
    requires
        d < 10,
    ensures
        digit_value(digit_char(d)) == Some(d),
{
}

/// `dec(n)` is a non-empty string of digits whose value is `n`.
pub proof fn lemma_dec_value(n: nat)
    ensures
        dec(n).len() >= 1,
        all_digits(dec(n)),
        digits_value(dec(n)) == n,
    decreases n,
{
    if n < 10 {
        lemma_digit_roundtrip(n);
        assert(dec(n).drop_last() =~= Seq::<char>::empty());
        assert(digits_value(dec(n).drop_last()) == 0);
        assert(dec(n).last() == digit_char(n));
    } else {
        lemma_dec_value(n / 10);
        lemma_digit_roundtrip(n % 10);
        assert(dec(n).drop_last() =~= dec(n / 10));
        assert(dec(n).last() == digit_char(n % 10));
        assert((n / 10) * 10 + n % 10 == n) by (nonlinear_arith);
        assert forall|i: int| 0 <= i < dec(n).len() implies (#[trigger] digit_value(dec(n)[i])) is Some by {
            if i < dec(n / 10).len() {
                assert(dec(n)[i] == dec(n / 10)[i]);
            }
        }
    }
}

/// Leading zeros do not change the value of a digit string.
pub proof fn lemma_zeros_prefix_value(k: nat, s: Seq<char>)
    ensures
        digits_value(zeros(k) + s) == digits_value(s),
    decreases s.len(),
{
    if s.len() == 0 {
        assert(zeros(k) + s =~= zeros(k));
        lemma_zeros_value(k);
    } else {
        assert((zeros(k) + s).drop_last() =~= zeros(k) + s.drop_last());
        assert((zeros(k) + s).last() == s.last());
        lemma_zeros_prefix_value(k, s.drop_last());
    }
}

/// A run of zeros has value zero.
pub proof fn lemma_zeros_value(k: nat)
    ensures
        digits_value(zeros(k)) == 0,
    decreases k,
{
    if k > 0 {
        assert(zeros(k).drop_last() =~= zeros((k - 1) as nat));
        lemma_zeros_value((k - 1) as nat);
    }
}

/// The zero-padded rendering of `n` still has value `n`.
pub proof fn lemma_zero_padded_value(n: nat, width: nat)
    ensures
        digits_value(zero_padded(n, width)) == n,
        zero_padded(n, width).len() == if dec(n).len() < width { width } else { dec(n).len() },
{
    lemma_dec_value(n);
    if dec(n).len() < width {
        lemma_zeros_prefix_value((width - dec(n).len()) as nat, dec(n));
    }
}

/// Distinct numbers have distinct zero-padded renderings.
pub proof fn lemma_zero_padded_injective(a: nat, b: nat, width: nat)
    requires
        zero_padded(a, width) == zero_padded(b, width),
    ensures
        a == b,
{
    lemma_zero_padded_value(a, width);
    lemma_zero_padded_value(b, width);
}

/// Distinct numbers have distinct decimal renderings.
pub proof fn lemma_dec_injective(a: nat, b: nat)
    requires
        dec(a) == dec(b),
    ensures
        a == b,
{
    lemma_dec_value(a);
    lemma_dec_value(b);
}

/// The number of decimal digits grows with the number.
pub proof fn lemma_dec_len_monotone(a: nat, b: nat)
    requires
        a <= b,
    ensures
        dec(a).len() <= dec(b).len(),
    decreases b,
{
    if b >= 10 && a >= 10 {
        lemma_dec_len_monotone(a / 10, b / 10);
    } else if b >= 10 {
        lemma_dec_value(b / 10);
    }
}

/// A positive number has no more decimal digits than its value.
pub proof fn lemma_dec_len_le(n: nat)
    requires
        n >= 1,
    ensures
        1 <= dec(n).len() <= n,
    decreases n,
{
    if n >= 10 {
        lemma_dec_len_le(n / 10);
    }
}

/// `a` sorts before `b`: they agree up to a position where `a` has the
/// smaller character.
pub open spec fn lex_less(a: Seq<char>, b: Seq<char>) -> bool {
    exists|k: int| 0 <= k < a.len() && k < b.len() && a.take(k) == b.take(k) && a[k] < b[k]
}

/// A digit character's code is `'0'` plus its value.
proof fn lemma_digit_code(c: char)
    requires
        digit_value(c) is Some,
    ensures
        digit_value(c).unwrap() < 10,
        c as u32 == 48 + digit_value(c).unwrap(),
{
}

/// Zero-padded renderings are made of digits only.
pub proof fn lemma_zero_padded_digits(n: nat, width: nat)
    ensures
        all_digits(zero_padded(n, width)),
{
    lemma_dec_value(n);
    let z = zero_padded(n, width);
    let d = dec(n);
    if d.len() < width {
        let k = (width - d.len()) as nat;
        assert forall|i: int| 0 <= i < z.len() implies (#[trigger] digit_value(z[i])) is Some by {
            if i < k {
                assert(z[i] == '0');
            } else {
                assert(z[i] == d[i - k]);
            }
        }
    }
}

/// Digit strings of the same length and value are equal.
proof fn lemma_same_value_equal(a: Seq<char>, b: Seq<char>)
    requires
        all_digits(a),
        all_digits(b),
        a.len() == b.len(),
        digits_value(a) == digits_value(b),
    ensures
        a == b,
    decreases a.len(),
{
    if a.len() > 0 {
        let n = a.len() - 1;
        assert(digit_value(a[n]) is Some);
        assert(digit_value(b[n]) is Some);
        lemma_digit_code(a[n]);
        lemma_digit_code(b[n]);
        assert(a.last() == a[n]);
        assert(b.last() == b[n]);
        assert forall|i: int| 0 <= i < a.drop_last().len() implies (#[trigger] digit_value(a.drop_last()[i])) is Some by {
            assert(a.drop_last()[i] == a[i]);
        }
        assert forall|i: int| 0 <= i < b.drop_last().len() implies (#[trigger] digit_value(b.drop_last()[i])) is Some by {
            assert(b.drop_last()[i] == b[i]);
        }
        lemma_same_value_equal(a.drop_last(), b.drop_last());
        assert(a =~= a.drop_last().push(a[n]));
        assert(b =~= b.drop_last().push(b[n]));
    }
}

/// For digit strings of one length, a smaller value sorts first.
pub proof fn lemma_lex_of_value(a: Seq<char>, b: Seq<char>)
    requires
        all_digits(a),
        all_digits(b),
        a.len() == b.len(),
        digits_value(a) < digits_value(b),
    ensures
        lex_less(a, b),
    decreases a.len(),
{
    let n = a.len() - 1;
    assert(a.len() > 0);
    assert(digit_value(a[n]) is Some);
    assert(digit_value(b[n]) is Some);
    lemma_digit_code(a[n]);
    lemma_digit_code(b[n]);
    assert(a.last() == a[n]);
    assert(b.last() == b[n]);
    let a1 = a.drop_last();
    let b1 = b.drop_last();
    assert forall|i: int| 0 <= i < a1.len() implies (#[trigger] digit_value(a1[i])) is Some by {
        assert(a1[i] == a[i]);
    }
    assert forall|i: int| 0 <= i < b1.len() implies (#[trigger] digit_value(b1[i])) is Some by {
        assert(b1[i] == b[i]);
    }
    if digits_value(a1) < digits_value(b1) {
        lemma_lex_of_value(a1, b1);
        let k = choose|k: int| 0 <= k < a1.len() && k < b1.len() && a1.take(k) == b1.take(k) && a1[k] < b1[k];
        assert(a.take(k) =~= a1.take(k));
        assert(b.take(k) =~= b1.take(k));
        assert(a[k] == a1[k]);
        assert(b[k] == b1[k]);
    } else if digits_value(a1) == digits_value(b1) {
        lemma_same_value_equal(a1, b1);
        assert(a.take(n) =~= a1);
        assert(b.take(n) =~= b1);
        assert(a[n] < b[n]);
    } else {
        assert(false);
    }
}

/// Sorting is kept under a common prefix and any suffixes.
pub proof fn lemma_lex_frame(p: Seq<char>, x: Seq<char>, y: Seq<char>, q1: Seq<char>, q2: Seq<char>)
    requires
        lex_less(x, y),
    ensures
        lex_less(p + x + q1, p + y + q2),
{
    let k = choose|k: int| 0 <= k < x.len() && k < y.len() && x.take(k) == y.take(k) && x[k] < y[k];
    let a = p + x + q1;
    let b = p + y + q2;
    let j = p.len() + k;
    assert(a.take(j) =~= p + x.take(k));
    assert(b.take(j) =~= p + y.take(k));
    assert(a[j] == x[k]);
    assert(b[j] == y[k]);
}

/// The one-character string literal for a decimal digit.
fn digit_str(d: u64) -> (s: &'static str)
    requires
        d < 10,
    ensures
        s@ == seq![digit_char(d as nat)],
{
    if d == 0 {
        proof { reveal_strlit("0"); }
        "0"
    } else if d == 1 {
        proof { reveal_strlit("1"); }
        "1"
    } else if d == 2 {
        proof { reveal_strlit("2"); }
        "2"
    } else if d == 3 {
        proof { reveal_strlit("3"); }
        "3"
    } else if d == 4 {
        proof { reveal_strlit("4"); }
        "4"
    } else if d == 5 {
        proof { reveal_strlit("5"); }
        "5"
    } else if d == 6 {
        proof { reveal_strlit("6"); }
        "6"
    } else if d == 7 {
        proof { reveal_strlit("7"); }
        "7"
    } else if d == 8 {
        proof { reveal_strlit("8"); }
        "8"
    } else {
        proof { reveal_strlit("9"); }
        "9"
    }
}

/// Appends the decimal representation of `n` to `out`.
pub fn push_decimal(out: &mut String, n: u64)
    ensures
        final(out)@ == old(out)@ + dec(n as nat),
    decreases n,
{
    if n < 10 {
        out.append(digit_str(n));
    } else {
        push_decimal(out, n / 10);
        out.append(digit_str(n % 10));
        proof {
            assert(dec(n as nat) == dec((n / 10) as nat).push(digit_char((n % 10) as nat)));
        }
    }
}

/// The decimal representation of `n`.
pub fn decimal(n: u64) -> (s: String)
    ensures
        s@ == dec(n as nat),
{
    let mut s = String::new();
    push_decimal(&mut s, n);
    s
}

/// Appends `n` zero-padded to at least `width` characters.
pub fn push_zero_padded(out: &mut String, n: u64, width: usize)
    ensures
        final(out)@ == old(out)@ + zero_padded(n as nat, width as nat),
{
    let digits = decimal(n);
    let len = digits.as_str().unicode_len();
    let ghost start = out@;
    if len < width {
        let mut k: usize = 0;
        while k < width - len
            invariant
                k <= width - len,
                len < width,
                out@ == start + zeros(k as nat),
            decreases width - len - k,
        {
            proof { reveal_strlit("0"); }
            out.append("0");
            k = k + 1;
            assert(out@ =~= start + zeros(k as nat));
        }
    }
    out.append(digits.as_str());
    assert(out@ =~= start + zero_padded(n as nat, width as nat));
}

/// The characters of `s`, one by one.
pub fn chars_of(s: &str) -> (v: Vec<char>)
    ensures
        v@ == s@,
{
    let n = s.unicode_len();
    let mut v: Vec<char> = Vec::new();
    let mut i: usize = 0;
    while i < n
        invariant
            n == s@.len(),
            i <= n,
            v@ == s@.subrange(0, i as int),
        decreases n - i,
    {
        v.push(s.get_char(i));
        i = i + 1;
        assert(v@ =~= s@.subrange(0, i as int));
    }
    assert(s@.subrange(0, n as int) =~= s@);
    v
}

/// ASCII upper-case letters map to lower case; every other character is kept.
pub open spec fn ascii_lower(c: char) -> char {
    if 'A' <= c && c <= 'Z' {
        ((c as u32) + 32) as char
    } else {
        c
    }
}

/// `str::to_ascii_lowercase` on a character sequence.
pub open spec fn lower(s: Seq<char>) -> Seq<char> {
    s.map_values(|c: char| ascii_lower(c))
}

/// Whether `chars`, lower-cased as ASCII, equal `lit`.
pub fn lower_equals(chars: &Vec<char>, lit: &str) -> (r: bool)
    ensures
        r == (lower(chars@) == lit@),
{
    let n = lit.unicode_len();
    if chars.len() != n {
        proof {
            if lower(chars@) == lit@ {
                assert(lower(chars@).len() == chars@.len());
            }
        }
        return false;
    }
    let mut i: usize = 0;
    while i < n
        invariant
            n == lit@.len(),
            n == chars@.len(),
            i <= n,
            forall|k: int| 0 <= k < i ==> ascii_lower(#[trigger] chars@[k]) == lit@[k],
        decreases n - i,
    {
        let c = chars[i];
        let l = lit.get_char(i);
        let same = if 'A' <= c && c <= 'Z' {
            (c as u32) + 32 == (l as u32)
        } else {
            c == l
        };
        if !same {
            proof {
                assert(ascii_lower(c) != l);
                assert(lower(chars@)[i as int] == ascii_lower(chars@[i as int]));
            }
            return false;
        }
        i = i + 1;
    }
    assert(lower(chars@) =~= lit@);
    true
}

/// Whether two strings hold the same characters.
pub fn str_equals(a: &str, b: &str) -> (r: bool)
    ensures
        r == (a@ == b@),
{
    let n = a.unicode_len();
    if b.unicode_len() != n {
        return false;
    }
    let mut i: usize = 0;
    while i < n
        invariant
            n == a@.len(),
            n == b@.len(),
            i <= n,
            forall|k: int| 0 <= k < i ==> a@[k] == b@[k],
        decreases n - i,
    {
        if a.get_char(i) != b.get_char(i) {
            return false;
        }
        i = i + 1;
    }
    assert(a@ =~= b@);
    true
}

} // verus!
