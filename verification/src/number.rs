//! Decimal numbers as text: writing them and reading them back.

use vstd::prelude::*;

verus! {

/// The character of a decimal digit.
pub open spec fn digit(n: int) -> char
    recommends
        0 <= n < 10,
{
    (48 + n) as char
}

/// The characters of a natural number in base ten, without leading zeros.
pub open spec fn decimal(n: nat) -> Seq<char>
    decreases n,
{
    if n < 10 {
        seq![digit(n as int)]
    } else {
        decimal(n / 10).push(digit((n % 10) as int))
    }
}

/// The characters of an integer in base ten.
pub open spec fn signed(n: int) -> Seq<char> {
    if n < 0 {
        seq!['-'] + decimal((-n) as nat)
    } else {
        decimal(n as nat)
    }
}

/// A natural number with at least two digits.
pub open spec fn two_digits(n: nat) -> Seq<char> {
    if n < 10 {
        seq!['0'] + decimal(n)
    } else {
        decimal(n)
    }
}

/// The character of a decimal digit.
pub fn digit_char(n: u64) -> (c: char)
    requires
        n < 10,
    ensures
        c == digit(n as int),
{
    ((48 + n) as u8) as char
}

/// Writes a number in base ten.
pub fn write_u64(n: u64) -> (s: String)
    ensures
        s@ == decimal(n as nat),
    decreases n,
{
    if n < 10 {
        let mut s = String::new();
        s.push(digit_char(n));
        assert(Seq::<char>::empty().push(digit(n as int)) =~= seq![digit(n as int)]);
        s
    } else {
        let mut s = write_u64(n / 10);
        s.push(digit_char(n % 10));
        s
    }
}

/// Writes a signed number in base ten.
pub fn write_i64(n: i64) -> (s: String)
    ensures
        s@ == signed(n as int),
{
    if n < 0 {
        let mut s = String::new();
        s.push('-');
        let m: u64 = if n == i64::MIN {
            0x8000_0000_0000_0000
        } else {
            (-n) as u64
        };
        s.push_str(&write_u64(m));
        assert(Seq::<char>::empty().push('-') =~= seq!['-']);
        s
    } else {
        write_u64(n as u64)
    }
}

/// Writes a number with at least two digits.
pub fn write_two(n: u64) -> (s: String)
    ensures
        s@ == two_digits(n as nat),
{
    if n < 10 {
        let mut s = String::new();
        s.push('0');
        s.push_str(&write_u64(n));
        assert(Seq::<char>::empty().push('0') =~= seq!['0']);
        s
    } else {
        write_u64(n)
    }
}

/// Whether a character is a decimal digit.
pub open spec fn is_digit(c: char) -> bool {
    '0' <= c <= '9'
}

/// All characters are decimal digits.
pub open spec fn all_digits(s: Seq<char>) -> bool {
    forall|i: int| 0 <= i < s.len() ==> is_digit(#[trigger] s[i])
}

/// The value of a row of digits.
pub open spec fn value(s: Seq<char>) -> nat
    decreases s.len(),
{
    if s.len() == 0 {
        0
    } else {
        value(s.drop_last()) * 10 + ((s.last() as nat) - 48) as nat
    }
}

/// The number that a text spells for a type with the bounds `lo` and `hi`, as
/// `str::parse` reads it: an optional sign (`-` only where negative numbers
/// exist) and at least one digit.
pub open spec fn spelled(s: Seq<char>, lo: int, hi: int) -> Option<int> {
    let neg = s.len() > 0 && s[0] == '-' && lo < 0;
    let body = if neg || (s.len() > 0 && s[0] == '+') {
        s.skip(1)
    } else {
        s
    };
    let v = if neg {
        -(value(body) as int)
    } else {
        value(body) as int
    };
    if body.len() > 0 && all_digits(body) && lo <= v <= hi {
        Some(v)
    } else {
        None
    }
}

proof fn lemma_value_grows(s: Seq<char>, k: int)
    requires
        0 <= k <= s.len(),
        all_digits(s.take(k)),
    ensures
        value(s) >= value(s.take(k)),
    decreases s.len() - k,
{
    if k < s.len() {
        lemma_value_grows(s.drop_last(), k);
        assert(s.drop_last().take(k) =~= s.take(k));
    } else {
        assert(s.take(k) =~= s);
    }
}

/// Reads a row of digits whose value is at most `hi`.
fn read_digits(v: &Vec<char>, from: usize, hi: u64) -> (r: Option<u64>)
    requires
        from <= v@.len(),
    ensures
        match r {
            Some(n) => {
                &&& from < v@.len()
                &&& all_digits(v@.skip(from as int))
                &&& n == value(v@.skip(from as int))
                &&& n <= hi
            },
            None => {
                ||| from == v@.len()
                ||| !all_digits(v@.skip(from as int))
                ||| value(v@.skip(from as int)) > hi
            },
        },
{
    let ghost body = v@.skip(from as int);
    if from == v.len() {
        return None;
    }
    let mut n: u64 = 0;
    let mut i: usize = from;
    while i < v.len()
        invariant
            from <= i <= v@.len(),
            body == v@.skip(from as int),
            all_digits(body.take(i - from)),
            n == value(body.take(i - from)),
            n <= hi,
        decreases v@.len() - i,
    {
        let c = v[i];
        assert(body[i - from] == c);
        if !('0' <= c && c <= '9') {
            return None;
        }
        let d: u64 = (c as u32 - 48) as u64;
        let ghost t = body.take(i - from + 1);
        proof {
            assert(t.drop_last() =~= body.take(i - from));
            assert(t.last() == c);
            assert forall|j: int| 0 <= j < t.len() implies is_digit(#[trigger] t[j]) by {
                if j < i - from {
                    assert(t[j] == body.take(i - from)[j]);
                }
            }
            assert(value(t) == n * 10 + d);
            lemma_value_grows(body, i - from + 1);
        }
        if n > u64::MAX / 10 || n * 10 > u64::MAX - d || n * 10 + d > hi {
            return None;
        }
        n = n * 10 + d;
        i += 1;
    }
    assert(body.take(i - from) =~= body);
    Some(n)
}

/// `str::parse::<i32>`.
pub fn read_i32(s: &str) -> (r: Option<i32>)
    ensures
        r matches Some(n) ==> spelled(s@, i32::MIN as int, i32::MAX as int) == Some(n as int),
        r is None ==> spelled(s@, i32::MIN as int, i32::MAX as int) is None,
{
    let v = crate::text::chars_of(s);
    if v.len() > 0 && v[0] == '-' {
        match read_digits(&v, 1, 0x8000_0000) {
            Some(n) => {
                if n == 0x8000_0000 {
                    Some(i32::MIN)
                } else {
                    Some(-(n as i32))
                }
            },
            None => None,
        }
    } else {
        let from: usize = if v.len() > 0 && v[0] == '+' {
            1
        } else {
            0
        };
        assert(from == 0 ==> v@.skip(0) =~= v@);
        match read_digits(&v, from, 0x7fff_ffff) {
            Some(n) => Some(n as i32),
            None => None,
        }
    }
}

/// `str::parse::<u32>`.
pub fn read_u32(s: &str) -> (r: Option<u32>)
    ensures
        r matches Some(n) ==> spelled(s@, 0, u32::MAX as int) == Some(n as int),
        r is None ==> spelled(s@, 0, u32::MAX as int) is None,
{
    let v = crate::text::chars_of(s);
    let from: usize = if v.len() > 0 && v[0] == '+' {
        1
    } else {
        0
    };
    assert(from == 0 ==> v@.skip(0) =~= v@);
    match read_digits(&v, from, 0xffff_ffff) {
        Some(n) => Some(n as u32),
        None => None,
    }
}

/// `str::parse::<u64>`.
pub fn read_u64(s: &str) -> (r: Option<u64>)
    ensures
        r matches Some(n) ==> spelled(s@, 0, u64::MAX as int) == Some(n as int),
        r is None ==> spelled(s@, 0, u64::MAX as int) is None,
{
    let v = crate::text::chars_of(s);
    let from: usize = if v.len() > 0 && v[0] == '+' {
        1
    } else {
        0
    };
    assert(from == 0 ==> v@.skip(0) =~= v@);
    read_digits(&v, from, 0xffff_ffff_ffff_ffff)
}

proof fn lemma_decimal_value(n: nat)
    ensures
        all_digits(decimal(n)),
        value(decimal(n)) == n,
        decimal(n).len() > 0,
    decreases n,
{
    if n < 10 {
        let s = decimal(n);
        assert(s.drop_last() =~= Seq::<char>::empty());
        assert(s.last() == digit(n as int));
        assert(value(s.drop_last()) == 0);
    } else {
        lemma_decimal_value(n / 10);
        let s = decimal(n);
        assert(s.drop_last() =~= decimal(n / 10));
        assert forall|i: int| 0 <= i < s.len() implies is_digit(#[trigger] s[i]) by {
            if i < s.len() - 1 {
                assert(s[i] == decimal(n / 10)[i]);
            }
        }
    }
}

/// A number that was written in base ten reads back as itself.
pub proof fn written_number_reads_back(n: int, lo: int, hi: int)
    requires
        lo <= 0 <= hi,
        lo <= n <= hi,
    ensures
        spelled(signed(n), lo, hi) == Some(n),
{
    if n < 0 {
        lemma_decimal_value((-n) as nat);
        assert(signed(n).skip(1) =~= decimal((-n) as nat));
    } else {
        lemma_decimal_value(n as nat);
        assert(is_digit(decimal(n as nat)[0]));
    }
}

/// Different numbers are written differently.
pub proof fn decimal_is_injective(a: nat, b: nat)
    requires
        decimal(a) == decimal(b),
    ensures
        a == b,
{
    lemma_decimal_value(a);
    lemma_decimal_value(b);
}

/// A number is written with digits only.
pub proof fn decimal_has_digits_only(n: nat)
    ensures
        all_digits(decimal(n)),
        decimal(n).len() > 0,
{
    lemma_decimal_value(n);
}

/// The digits of a number stand in order of their weight: a further digit makes ten
/// times the number and the digit.
pub proof fn digits_stand_by_weight(n: nat, d: nat)
    requires
        d < 10,
    ensures
        n > 0 ==> decimal(n * 10 + d) == decimal(n) + decimal(d),
        decimal(0) == seq!['0'],
        decimal(1) == seq!['1'],
        decimal(9) == seq!['9'],
        d < 9 ==> decimal(d)[0] < decimal(d + 1)[0],
        decimal(d).len() == 1,
{
    if n > 0 {
        assert((n * 10 + d) / 10 == n && (n * 10 + d) % 10 == d);
        assert(decimal(n * 10 + d) =~= decimal(n) + decimal(d));
    }
}

/// A number of two digits or more is written as it is; a smaller one gets a zero.
pub proof fn short_numbers_are_padded(n: nat)
    ensures
        n < 10 ==> two_digits(n) == decimal(0) + decimal(n),
        n >= 10 ==> two_digits(n) == decimal(n),
        two_digits(n).len() >= 2,
{
    if n >= 10 {
        decimal_has_digits_only(n / 10);
    }
}

/// A negative number is its opposite with a minus sign.
pub proof fn signs_stand_first(n: nat)
    requires
        n > 0,
    ensures
        signed(-(n as int)) == seq!['-'] + signed(n as int),
        signed(n as int) == decimal(n),
{
}

/// Reading a number accepts digits, one sign, and nothing else; leading zeros do not
/// count. What is out of range, empty or has another character is refused.
pub proof fn only_numbers_are_read(s: Seq<char>, lo: int, hi: int)
    requires
        lo <= 0 <= hi,
    ensures
        spelled(s, lo, hi) matches Some(n) ==> lo <= n <= hi,
        s.len() == 0 ==> spelled(s, lo, hi) is None,
        s.len() == 1 && (s[0] == '+' || s[0] == '-') ==> spelled(s, lo, hi) is None,
        (exists|i: int| 0 < i < s.len() && !is_digit(#[trigger] s[i])) ==> spelled(s, lo, hi) is None,
        s.len() > 0 && s[0] == '-' && lo == 0 ==> spelled(s, lo, hi) is None,
        s.len() > 0 && all_digits(s) ==> spelled(seq!['0'] + s, lo, hi) == spelled(s, lo, hi)
            && spelled(seq!['+'] + s, lo, hi) == spelled(s, lo, hi),
{
    if exists|i: int| 0 < i < s.len() && !is_digit(#[trigger] s[i]) {
        let i = choose|i: int| 0 < i < s.len() && !is_digit(#[trigger] s[i]);
        let t = s.skip(1);
        assert(t[i - 1] == s[i]);
        assert(!all_digits(t));
        assert(!all_digits(s));
    }
    if s.len() == 1 && (s[0] == '+' || s[0] == '-') {
        assert(!is_digit(s[0]));
        assert(!all_digits(s));
    }
    if s.len() > 0 && s[0] == '-' && lo == 0 {
        assert(!is_digit(s[0]));
        assert(!all_digits(s));
    }
    if s.len() > 0 && all_digits(s) {
        let z = seq!['0'] + s;
        let p = seq!['+'] + s;
        assert(is_digit(s[0]));
        assert forall|i: int| 0 <= i < z.len() implies is_digit(#[trigger] z[i]) by {
            if i > 0 {
                assert(z[i] == s[i - 1]);
            }
        }
        lemma_leading_zero(s);
        assert(p.skip(1) =~= s);
    }
}

proof fn lemma_leading_zero(s: Seq<char>)
    ensures
        value(seq!['0'] + s) == value(s),
    decreases s.len(),
{
    let z = seq!['0'] + s;
    if s.len() == 0 {
        assert(z.drop_last() =~= Seq::empty());
        assert(z.last() == '0');
        assert(value(z.drop_last()) == 0);
    } else {
        assert(z.drop_last() =~= seq!['0'] + s.drop_last());
        lemma_leading_zero(s.drop_last());
    }
}

} // verus!
