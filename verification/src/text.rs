//! Characters, decimal numerals and the small string-building blocks that the
//! wire codec and the ledger text format are built from.

use vstd::prelude::*;
use vstd::std_specs::iter::IteratorSpec;

verus! {

/// The ten decimal digit characters, indexable by digit value.
pub const DIGIT_CHARS: [char; 10] = ['0', '1', '2', '3', '4', '5', '6', '7', '8', '9'];

/// True when `c` is a decimal digit character.
pub open spec fn is_digit(c: char) -> bool {
    48 <= c as u32 <= 57
}

/// Numeric value of a digit character.
pub open spec fn digit_val(c: char) -> int
    recommends
        is_digit(c),
{
    c as u32 - 48
}

/// The digit character for a value below ten.
pub open spec fn digit_char(d: int) -> char
    recommends
        0 <= d < 10,
{
    DIGIT_CHARS@[d]
}

/// Decimal numeral of `n`, most significant digit first, no leading zeros.
pub open spec fn dec_chars(n: nat) -> Seq<char>
    decreases n,
{
    if n < 10 {
        seq![digit_char(n as int)]
    } else {
        dec_chars(n / 10).push(digit_char((n % 10) as int))
    }
}

/// Value of a sequence of digit characters, read most significant first.
pub open spec fn dec_val(s: Seq<char>) -> int
    decreases s.len(),
{
    if s.len() == 0 {
        0
    } else {
        dec_val(s.drop_last()) * 10 + digit_val(s.last())
    }
}

/// First position at or after `i` in `s` that does not hold a digit.
pub open spec fn digit_run_end(s: Seq<char>, i: int) -> int
    recommends
        0 <= i <= s.len(),
    decreases s.len() - i,
{
    if i < s.len() && is_digit(s[i]) {
        digit_run_end(s, i + 1)
    } else {
        i
    }
}

/// A digit character carries exactly the value it was chosen for.
pub proof fn lemma_digit_char_val(d: int)
    requires
        0 <= d < 10,
    ensures
        is_digit(digit_char(d)),
        digit_val(digit_char(d)) == d,
{
    if d == 0 {
    } else if d == 1 {
    } else if d == 2 {
    } else if d == 3 {
    } else if d == 4 {
    } else if d == 5 {
    } else if d == 6 {
    } else if d == 7 {
    } else if d == 8 {
    } else {
        assert(d == 9);
    }
}

/// Every character of a decimal numeral is a digit, the numeral is non-empty,
/// and reading it back yields the value it was made from.
pub proof fn lemma_dec_chars_val(n: nat)
    ensures
        dec_chars(n).len() >= 1,
        forall|k: int| 0 <= k < dec_chars(n).len() ==> is_digit(#[trigger] dec_chars(n)[k]),
        dec_val(dec_chars(n)) == n,
    decreases n,
{
    if n < 10 {
        lemma_digit_char_val(n as int);
        let one = seq![digit_char(n as int)];
        assert(dec_chars(n) == one);
        assert(one.drop_last() =~= Seq::<char>::empty());
        assert(one.last() == digit_char(n as int));
        assert(dec_val(Seq::<char>::empty()) == 0);
        assert(dec_val(one) == digit_val(digit_char(n as int)));
    } else {
        lemma_dec_chars_val(n / 10);
        lemma_digit_char_val((n % 10) as int);
        let prefix = dec_chars(n / 10);
        let whole = prefix.push(digit_char((n % 10) as int));
        assert(whole.drop_last() =~= prefix);
        assert(whole.last() == digit_char((n % 10) as int));
        assert(dec_val(whole) == dec_val(prefix) * 10 + digit_val(digit_char((n % 10) as int)));
        assert(dec_val(whole) == (n / 10) * 10 + (n % 10));
        assert((n / 10) * 10 + (n % 10) == n);
        assert(forall|k: int|
            0 <= k < whole.len() ==> is_digit(#[trigger] whole[k]));
    }
}

/// The digit run starting where a numeral was laid down ends exactly at the
/// numeral's end, provided no digit follows it.
pub proof fn lemma_digit_run_end_of(s: Seq<char>, i: int, j: int)
    requires
        0 <= i <= j <= s.len(),
        forall|k: int| i <= k < j ==> is_digit(#[trigger] s[k]),
        j == s.len() || !is_digit(s[j]),
    ensures
        digit_run_end(s, i) == j,
    decreases j - i,
{
    if i < j {
        lemma_digit_run_end_of(s, i + 1, j);
    }
}

/// Reading digits is determined by the digits alone: `dec_val` over a
/// subrange extended by one digit.
pub proof fn lemma_dec_val_snoc(s: Seq<char>, i: int, j: int)
    requires
        0 <= i <= j < s.len(),
    ensures
        dec_val(s.subrange(i, j + 1)) == dec_val(s.subrange(i, j)) * 10 + digit_val(s[j]),
{
    let w = s.subrange(i, j + 1);
    assert(w.drop_last() =~= s.subrange(i, j));
    assert(w.last() == s[j]);
}

/// A digit-run value is non-negative and grows with each digit.
pub proof fn lemma_dec_val_bounds(s: Seq<char>)
    requires
        forall|k: int| 0 <= k < s.len() ==> is_digit(#[trigger] s[k]),
    ensures
        dec_val(s) >= 0,
    decreases s.len(),
{
    if s.len() > 0 {
        assert(forall|k: int|
            0 <= k < s.drop_last().len() ==> is_digit(#[trigger] s.drop_last()[k]));
        lemma_dec_val_bounds(s.drop_last());
    }
}

/// Appending digits to a digit run never shrinks its value.
pub proof fn lemma_dec_val_monotone(s: Seq<char>, i: int, j: int, k: int)
    requires
        0 <= i <= j <= k <= s.len(),
        forall|m: int| i <= m < k ==> is_digit(#[trigger] s[m]),
    ensures
        dec_val(s.subrange(i, k)) >= dec_val(s.subrange(i, j)),
        dec_val(s.subrange(i, k)) >= 0,
    decreases k - j,
{
    assert(forall|m: int|
        0 <= m < s.subrange(i, j).len() ==> is_digit(#[trigger] s.subrange(i, j)[m]));
    lemma_dec_val_bounds(s.subrange(i, j));
    if j < k {
        lemma_dec_val_snoc(s, i, j);
        lemma_dec_val_monotone(s, i, j + 1, k);
        assert(dec_val(s.subrange(i, j + 1)) >= dec_val(s.subrange(i, j)));
    } else {
        assert(s.subrange(i, k) =~= s.subrange(i, j));
    }
}

/// Outcome of reading a decimal numeral at position `i`: the value and the
/// position after its last digit, or nothing where no digit stands at `i` or
/// the value does not fit.
pub open spec fn spec_parse_u64(s: Seq<char>, i: int) -> Option<(u64, int)>
    recommends
        0 <= i <= s.len(),
{
    let j = digit_run_end(s, i);
    if j == i {
        None
    } else if dec_val(s.subrange(i, j)) > u64::MAX {
        None
    } else {
        Some((dec_val(s.subrange(i, j)) as u64, j))
    }
}

/// Decimal numeral of a signed value: a minus sign before the magnitude.
pub open spec fn dec_chars_i64(t: int) -> Seq<char>
    recommends
        i64::MIN <= t <= i64::MAX,
{
    if t >= 0 {
        dec_chars(t as nat)
    } else {
        seq!['-'] + dec_chars((-t) as nat)
    }
}

/// Outcome of reading an optionally signed decimal numeral at position `i`.
pub open spec fn spec_parse_i64(s: Seq<char>, i: int) -> Option<(i64, int)>
    recommends
        0 <= i <= s.len(),
{
    if i < s.len() && s[i] == '-' {
        match spec_parse_u64(s, i + 1) {
            Some((v, j)) => if v <= 0x8000000000000000u64 {
                Some(((-(v as int)) as i64, j))
            } else {
                None
            },
            None => None,
        }
    } else {
        match spec_parse_u64(s, i) {
            Some((v, j)) => if v <= i64::MAX as u64 {
                Some((v as i64, j))
            } else {
                None
            },
            None => None,
        }
    }
}

/// Reads a decimal numeral, returning exactly what `spec_parse_u64` says.
pub fn parse_u64(s: &Vec<char>, i: usize) -> (r: Option<(u64, usize)>)
    requires
        i <= s@.len(),
    ensures
        match r {
            Some(p) => {
                &&& spec_parse_u64(s@, i as int) == Some((p.0, p.1 as int))
                &&& i < p.1 <= s@.len()
            },
            None => spec_parse_u64(s@, i as int) is None,
        },
{
    let ghost e = digit_run_end(s@, i as int);
    proof {
        lemma_digit_run_end_bounds(s@, i as int);
    }
    if i == s.len() || !char_is_digit(s[i]) {
        return None;
    }
    let mut j: usize = i;
    let mut acc: u64 = 0;
    loop
        invariant
            i <= j <= s@.len(),
            j <= e <= s@.len(),
            forall|m: int| i <= m < e ==> is_digit(#[trigger] s@[m]),
            e == digit_run_end(s@, i as int),
            e == s@.len() || !is_digit(s@[e]),
            acc == dec_val(s@.subrange(i as int, j as int)),
            i < e,
        decreases s@.len() - j,
    {
        if j == s.len() {
            return Some((acc, j));
        }
        let c = s[j];
        if !char_is_digit(c) {
            assert(j == e);
            return Some((acc, j));
        }
        assert(j < e);
        let d: u64 = (c as u32 - 48) as u64;
        proof {
            lemma_dec_val_snoc(s@, i as int, j as int);
        }
        match acc.checked_mul(10) {
            None => {
                proof {
                    lemma_dec_val_monotone(s@, i as int, j + 1, e);
                }
                return None;
            },
            Some(m) => {
                match m.checked_add(d) {
                    None => {
                        proof {
                            lemma_dec_val_monotone(s@, i as int, j + 1, e);
                        }
                        return None;
                    },
                    Some(x) => {
                        acc = x;
                        j = j + 1;
                    },
                }
            },
        }
    }
}

/// The run of digits ends within the sequence, at or after its start, and
/// everything strictly inside the run is a digit.
pub proof fn lemma_digit_run_end_bounds(s: Seq<char>, i: int)
    requires
        0 <= i <= s.len(),
    ensures
        i <= digit_run_end(s, i) <= s.len(),
        forall|m: int| i <= m < digit_run_end(s, i) ==> is_digit(#[trigger] s[m]),
        digit_run_end(s, i) == s.len() || !is_digit(s[digit_run_end(s, i)]),
        i < s.len() && is_digit(s[i]) ==> digit_run_end(s, i) > i,
        (i == s.len() || !is_digit(s[i])) ==> digit_run_end(s, i) == i,
    decreases s.len() - i,
{
    if i < s.len() && is_digit(s[i]) {
        lemma_digit_run_end_bounds(s, i + 1);
    }
}

/// True when `c` is a decimal digit character.
pub fn char_is_digit(c: char) -> (r: bool)
    ensures
        r == is_digit(c),
{
    let u = c as u32;
    48 <= u && u <= 57
}

/// Reads an optionally signed decimal numeral, returning exactly what
/// `spec_parse_i64` says.
pub fn parse_i64(s: &Vec<char>, i: usize) -> (r: Option<(i64, usize)>)
    requires
        i <= s@.len(),
    ensures
        match r {
            Some(p) => {
                &&& spec_parse_i64(s@, i as int) == Some((p.0, p.1 as int))
                &&& i < p.1 <= s@.len()
            },
            None => spec_parse_i64(s@, i as int) is None,
        },
{
    if i < s.len() && s[i] == '-' {
        match parse_u64(s, i + 1) {
            Some((v, j)) => {
                if v < 0x8000000000000000u64 {
                    Some((-(v as i64), j))
                } else if v == 0x8000000000000000u64 {
                    Some((i64::MIN, j))
                } else {
                    None
                }
            },
            None => None,
        }
    } else {
        match parse_u64(s, i) {
            Some((v, j)) => {
                if v <= i64::MAX as u64 {
                    Some((v as i64, j))
                } else {
                    None
                }
            },
            None => None,
        }
    }
}

/// A decimal numeral laid down in a longer text reads back as the value it
/// was made from, provided no digit directly follows it.
pub proof fn lemma_parse_u64_at(s: Seq<char>, i: int, n: u64)
    requires
        0 <= i,
        i + dec_chars(n as nat).len() <= s.len(),
        s.subrange(i, i + dec_chars(n as nat).len() as int) == dec_chars(n as nat),
        i + dec_chars(n as nat).len() == s.len() || !is_digit(
            s[i + dec_chars(n as nat).len()],
        ),
    ensures
        spec_parse_u64(s, i) == Some((n, i + dec_chars(n as nat).len())),
{
    let len = dec_chars(n as nat).len() as int;
    lemma_dec_chars_val(n as nat);
    assert(forall|k: int| i <= k < i + len ==> is_digit(#[trigger] s[k])) by {
        assert(forall|k: int|
            i <= k < i + len ==> s[k] == dec_chars(n as nat)[k - i] && is_digit(
                #[trigger] s[k],
            ));
    }
    lemma_digit_run_end_of(s, i, i + len);
    assert(s.subrange(i, i + len) == dec_chars(n as nat));
    assert(dec_val(s.subrange(i, i + len)) == n);
}

/// As `lemma_parse_u64_at`, for signed numerals.
pub proof fn lemma_parse_i64_at(s: Seq<char>, i: int, t: i64)
    requires
        0 <= i,
        i + dec_chars_i64(t as int).len() <= s.len(),
        s.subrange(i, i + dec_chars_i64(t as int).len() as int) == dec_chars_i64(t as int),
        i + dec_chars_i64(t as int).len() == s.len() || !is_digit(
            s[i + dec_chars_i64(t as int).len()],
        ),
    ensures
        spec_parse_i64(s, i) == Some((t, i + dec_chars_i64(t as int).len())),
{
    let rep = dec_chars_i64(t as int);
    let len = rep.len() as int;
    if t >= 0 {
        lemma_dec_chars_val(t as nat);
        assert(s[i] == rep[0]);
        assert(is_digit(rep[0]));
        assert(s[i] != '-');
        lemma_parse_u64_at(s, i, t as u64);
    } else {
        let mag = (-(t as int)) as nat;
        lemma_dec_chars_val(mag);
        assert(rep == seq!['-'] + dec_chars(mag));
        assert(s[i] == rep[0]);
        assert(rep[0] == '-');
        assert forall|k: int| 0 <= k < len - 1 implies s.subrange(i + 1, i + len)[k]
            == dec_chars(mag)[k] by {
            assert(s.subrange(i + 1, i + len)[k] == s[i + 1 + k]);
            assert(s[i + 1 + k] == s.subrange(i, i + len)[1 + k]);
            assert(rep[1 + k] == dec_chars(mag)[k]);
        }
        assert(s.subrange(i + 1, i + len) =~= dec_chars(mag));
        lemma_parse_u64_at(s, i + 1, mag as u64);
        assert(mag <= 0x8000000000000000);
        assert((-(mag as int)) as i64 == t);
    }
}

/// Appends the decimal numeral of `t` to `out`, sign included.
pub fn append_i64(out: &mut Vec<char>, t: i64)
    ensures
        final(out)@ == old(out)@ + dec_chars_i64(t as int),
{
    if t >= 0 {
        append_u64(out, t as u64);
    } else {
        out.push('-');
        let mag: u64 = (-(t + 1)) as u64 + 1;
        assert(mag == -(t as int));
        append_u64(out, mag);
        assert(out@ =~= old(out)@ + dec_chars_i64(t as int));
    }
}

/// Relies on `String::push`: appends exactly the given character.
#[verifier::external_body]
pub fn push_char(s: &mut String, c: char)
    ensures
        final(s)@ == old(s)@.push(c),
{
    s.push(c);
}

/// Builds the string holding exactly the given characters.
pub fn chars_to_string(v: &Vec<char>) -> (r: String)
    ensures
        r@ == v@,
{
    let mut r = String::new();
    let mut i: usize = 0;
    while i < v.len()
        invariant
            i <= v@.len(),
            r@ == v@.subrange(0, i as int),
        decreases v@.len() - i,
    {
        push_char(&mut r, v[i]);
        i = i + 1;
        assert(r@ =~= v@.subrange(0, i as int));
    }
    assert(v@.subrange(0, v@.len() as int) =~= v@);
    r
}

/// Collects the characters of a string slice, in order.
pub fn str_to_chars(s: &str) -> (r: Vec<char>)
    ensures
        r@ == s@,
{
    let mut it = s.chars();
    let mut r: Vec<char> = Vec::new();
    loop
        invariant
            r@ + it.remaining() == s@,
            it.obeys_prophetic_iter_laws(),
            it.decrease() is Some,
        decreases it.decrease()->0,
    {
        match it.next() {
            Some(c) => {
                r.push(c);
                assert(r@ + it.remaining() =~= s@);
            },
            None => {
                assert(r@ =~= s@);
                return r;
            },
        }
    }
}

/// Appends the decimal numeral of `n` to `out`.
pub fn append_u64(out: &mut Vec<char>, n: u64)
    ensures
        final(out)@ == old(out)@ + dec_chars(n as nat),
    decreases n,
{
    if n < 10 {
        out.push(DIGIT_CHARS[n as usize]);
        assert(out@ =~= old(out)@ + dec_chars(n as nat));
    } else {
        append_u64(out, n / 10);
        out.push(DIGIT_CHARS[(n % 10) as usize]);
        assert(out@ =~= old(out)@ + dec_chars(n as nat));
    }
}

} // verus!
