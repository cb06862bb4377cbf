use vstd::prelude::*;

verus! {

broadcast use vstd::string::group_string_axioms;

/// The characters of `s`, in order.
pub fn chars_of(s: &str) -> (v: Vec<char>)
    ensures
        v@ == s@,
{
    let mut v: Vec<char> = Vec::new();
    for c in it: s.chars()
        invariant
            v@ == it.seq().take(it.index() as int),
            it.seq() == s@,
    {
        v.push(c);
    }
    v
}

/// Collects `v` into a `String` (`String::from_iter` over the characters).
#[verifier::external_body]
pub fn string_of(v: &[char]) -> (s: String)
    ensures
        s@ == v@,
{
    v.iter().collect()
}

} // verus!

verus! {

/// The character of the decimal digit `d` (`0 <= d < 10`).
pub open spec fn digit_char(d: int) -> char {
    (48 + d) as char
}

/// Whether `c` is one of `'0'..='9'`.
pub open spec fn is_digit(c: char) -> bool {
    '0' <= c && c <= '9'
}

/// The value of the decimal digit `c`.
pub open spec fn digit_value(c: char) -> int {
    c as int - 48
}

/// Decimal representation of `n`, without leading zeros.
pub open spec fn nat_text(n: nat) -> Seq<char>
    decreases n,
{
    if n < 10 {
        seq![digit_char(n as int)]
    } else {
        nat_text(n / 10).push(digit_char((n % 10) as int))
    }
}

/// Decimal representation of `i`, as `Display` writes it: a `'-'`
/// before the digits of a negative number, no sign otherwise.
pub open spec fn int_text(i: int) -> Seq<char> {
    if i < 0 {
        seq!['-'] + nat_text((-i) as nat)
    } else {
        nat_text(i as nat)
    }
}

/// Whether every character of `s` is a decimal digit.
pub open spec fn all_digits(s: Seq<char>) -> bool {
    forall|k: int| 0 <= k < s.len() ==> #[trigger] is_digit(s[k])
}

/// The value of a run of decimal digits (most significant first).
pub open spec fn digits_value(s: Seq<char>) -> int
    decreases s.len(),
{
    if s.len() == 0 {
        0
    } else {
        digits_value(s.drop_last()) * 10 + digit_value(s.last())
    }
}

/// An integer literal: an optional sign (`'+'` or `'-'`) followed by one
/// or more decimal digits; `None` when `s` is not of that form.
pub open spec fn int_literal(s: Seq<char>) -> Option<int> {
    if s.len() > 0 && (s[0] == '+' || s[0] == '-') {
        let d = s.drop_first();
        if d.len() > 0 && all_digits(d) {
            Some(if s[0] == '-' { -digits_value(d) } else { digits_value(d) })
        } else {
            None
        }
    } else if s.len() > 0 && all_digits(s) {
        Some(digits_value(s))
    } else {
        None
    }
}

/// Why a string does not hold an integer of the requested width
/// (the kinds of `core::num::IntErrorKind`).
#[derive(Debug, Clone, Copy, PartialEq, Eq, Structural)]
pub enum IntErrorKind {
    /// The string is empty.
    Empty,
    /// The string holds a character that is not a digit.
    InvalidDigit,
    /// The value is too large for the type.
    PosOverflow,
    /// The value is too small for the type.
    NegOverflow,
}

/// Outcome of reading an integer literal against bounds.
#[derive(Debug, Clone, Copy, PartialEq, Eq, Structural)]
pub enum IntRead {
    /// The text is not an integer literal.
    NotLiteral,
    /// The literal lies outside the bounds.
    OutOfRange(IntErrorKind),
    /// The value of the literal.
    Value(i128),
}

/// What reading `s` as an integer within `[lo, hi]` gives.
pub open spec fn spec_read_int(s: Seq<char>, lo: int, hi: int) -> IntRead {
    match int_literal(s) {
        None => IntRead::NotLiteral,
        Some(v) => if v > hi {
            IntRead::OutOfRange(IntErrorKind::PosOverflow)
        } else if v < lo {
            IntRead::OutOfRange(IntErrorKind::NegOverflow)
        } else {
            IntRead::Value(v as i128)
        },
    }
}

/// Bound on magnitudes kept while reading digits: one past `2^63`.
pub open spec fn read_cap() -> int {
    0x8000_0000_0000_0001
}

proof fn lemma_digits_value_nonneg(s: Seq<char>)
    requires
        all_digits(s),
    ensures
        digits_value(s) >= 0,
    decreases s.len(),
{
    if s.len() > 0 {
        assert(all_digits(s.drop_last())) by {
            assert forall|k: int| 0 <= k < s.drop_last().len() implies #[trigger] is_digit(
                s.drop_last()[k],
            ) by {
                assert(is_digit(s[k]));
            }
        }
        lemma_digits_value_nonneg(s.drop_last());
        assert(is_digit(s[s.len() - 1]));
    }
}

/// Reads the digits of `s` from `start`, keeping the value capped at
/// `read_cap()`; `None` when a non-digit occurs or no digit is there.
fn capped_digits(s: &[char], start: usize) -> (r: Option<i128>)
    requires
        start <= s@.len(),
    ensures
        r is None <==> !(s@.subrange(start as int, s@.len() as int).len() > 0 && all_digits(
            s@.subrange(start as int, s@.len() as int),
        )),
        r matches Some(v) ==> v == (if digits_value(s@.subrange(start as int, s@.len() as int))
            < read_cap() {
            digits_value(s@.subrange(start as int, s@.len() as int))
        } else {
            read_cap()
        }),
{
    if start >= s.len() {
        return None;
    }
    let mut acc: i128 = 0;
    let mut i: usize = start;
    while i < s.len()
        invariant
            start <= i <= s@.len(),
            all_digits(s@.subrange(start as int, i as int)),
            0 <= acc <= read_cap(),
            acc == (if digits_value(s@.subrange(start as int, i as int)) < read_cap() {
                digits_value(s@.subrange(start as int, i as int))
            } else {
                read_cap()
            }),
        decreases s@.len() - i,
    {
        let c = s[i];
        if !('0' <= c && c <= '9') {
            proof {
                let full = s@.subrange(start as int, s@.len() as int);
                assert(full[i - start] == c);
                assert(!is_digit(full[i - start]));
            }
            return None;
        }
        let ghost pre = s@.subrange(start as int, i as int);
        let ghost nxt = s@.subrange(start as int, i + 1);
        proof {
            assert(nxt.drop_last() =~= pre);
            assert(nxt.last() == c);
            assert(all_digits(nxt)) by {
                assert forall|k: int| 0 <= k < nxt.len() implies #[trigger] is_digit(nxt[k]) by {
                    if k < pre.len() {
                        assert(nxt[k] == pre[k]);
                        assert(is_digit(pre[k]));
                    }
                }
            }
            lemma_digits_value_nonneg(pre);
        }
        let d: i128 = (c as u32 - 48) as i128;
        if acc < 0x8000_0000_0000_0001 {
            let nv = acc * 10 + d;
            acc = if nv < 0x8000_0000_0000_0001 { nv } else { 0x8000_0000_0000_0001 };
        }
        i = i + 1;
    }
    proof {
        assert(s@.subrange(start as int, s@.len() as int).len() > 0);
    }
    Some(acc)
}

/// Reads `s` as an integer literal within `[lo, hi]`.
pub fn read_int(s: &[char], lo: i128, hi: i128) -> (r: IntRead)
    requires
        -0x8000_0000_0000_0000 <= lo <= 0,
        0 <= hi <= 0x8000_0000_0000_0000,
    ensures
        r == spec_read_int(s@, lo as int, hi as int),
{
    let ghost ss = s@;
    if s.len() > 0 && (s[0] == '+' || s[0] == '-') {
        let neg = s[0] == '-';
        proof {
            assert(ss.subrange(1, ss.len() as int) =~= ss.drop_first());
        }
        match capped_digits(s, 1) {
            None => IntRead::NotLiteral,
            Some(m) => {
                proof {
                    lemma_digits_value_nonneg(ss.drop_first());
                }
                if neg {
                    if m > -lo {
                        IntRead::OutOfRange(IntErrorKind::NegOverflow)
                    } else {
                        IntRead::Value(-m)
                    }
                } else {
                    if m > hi {
                        IntRead::OutOfRange(IntErrorKind::PosOverflow)
                    } else {
                        IntRead::Value(m)
                    }
                }
            },
        }
    } else {
        proof {
            assert(ss.subrange(0, ss.len() as int) =~= ss);
        }
        match capped_digits(s, 0) {
            None => IntRead::NotLiteral,
            Some(m) => {
                proof {
                    lemma_digits_value_nonneg(ss);
                }
                if m > hi {
                    IntRead::OutOfRange(IntErrorKind::PosOverflow)
                } else {
                    IntRead::Value(m)
                }
            },
        }
    }
}

/// Decimal digits of `n`.
pub fn nat_text_exec(n: u64) -> (v: Vec<char>)
    ensures
        v@ == nat_text(n as nat),
    decreases n,
{
    if n < 10 {
        let c = (48u8 + n as u8) as char;
        let mut v = Vec::new();
        v.push(c);
        proof {
            assert(v@ =~= seq![digit_char(n as int)]);
        }
        v
    } else {
        let mut v = nat_text_exec(n / 10);
        let c = (48u8 + (n % 10) as u8) as char;
        v.push(c);
        v
    }
}

/// Decimal text of `i`, as `Display` writes it.
pub fn int_text_exec(i: i64) -> (v: Vec<char>)
    ensures
        v@ == int_text(i as int),
{
    if i < 0 {
        let m: u64 = if i == i64::MIN { 0x8000_0000_0000_0000u64 } else { (-i) as u64 };
        let digits = nat_text_exec(m);
        let mut v = Vec::new();
        v.push('-');
        let mut k: usize = 0;
        while k < digits.len()
            invariant
                0 <= k <= digits@.len(),
                v@ == seq!['-'] + digits@.subrange(0, k as int),
            decreases digits@.len() - k,
        {
            v.push(digits[k]);
            proof {
                assert(digits@.subrange(0, k + 1) =~= digits@.subrange(0, k as int).push(
                    digits@[k as int],
                ));
            }
            k = k + 1;
        }
        proof {
            assert(digits@.subrange(0, digits@.len() as int) =~= digits@);
        }
        v
    } else {
        nat_text_exec(i as u64)
    }
}

} // verus!

verus! {

/// The decimal digits of `n` are digits, and read back as `n`.
pub proof fn lemma_nat_text_reads_back(n: nat)
    ensures
        nat_text(n).len() > 0,
        all_digits(nat_text(n)),
        digits_value(nat_text(n)) == n,
    decreases n,
{
    if n < 10 {
        let t = nat_text(n);
        assert(t.drop_last() =~= Seq::<char>::empty());
        assert(digit_char(n as int) as int == 48 + n);
        assert(digits_value(t) == digits_value(t.drop_last()) * 10 + digit_value(t.last()));
        assert(is_digit(t[0]));
    } else {
        lemma_nat_text_reads_back(n / 10);
        assert(digit_char((n % 10) as int) as int == 48 + n % 10);
        let t = nat_text(n);
        let p = nat_text(n / 10);
        assert(t.drop_last() =~= p);
        assert(t.last() == digit_char((n % 10) as int));
        assert(digits_value(t) == digits_value(p) * 10 + digit_value(t.last()));
        assert(n == (n / 10) * 10 + n % 10);
        assert forall|k: int| 0 <= k < t.len() implies #[trigger] is_digit(t[k]) by {
            if k < p.len() {
                assert(t[k] == p[k]);
                assert(is_digit(p[k]));
            }
        }
    }
}

/// Reading back the decimal text of an integer gives the integer.
pub proof fn lemma_int_text_reads_back(i: int)
    ensures
        int_literal(int_text(i)) == Some(i),
{
    if i < 0 {
        let m = (-i) as nat;
        lemma_nat_text_reads_back(m);
        let t = int_text(i);
        assert(t.drop_first() =~= nat_text(m));
    } else {
        lemma_nat_text_reads_back(i as nat);
        let t = nat_text(i as nat);
        assert(is_digit(t[0]));
    }
}

} // verus!

verus! {

/// The characters `v[i..j]` as a `String`.
pub fn string_of_range(v: &Vec<char>, i: usize, j: usize) -> (s: String)
    requires
        i <= j <= v@.len(),
    ensures
        s@ == v@.subrange(i as int, j as int),
{
    let part = vstd::slice::slice_subrange(v.as_slice(), i, j);
    string_of(part)
}

/// The decimal text of `i` as a `String`.
pub fn int_string(i: i64) -> (s: String)
    ensures
        s@ == int_text(i as int),
{
    let v = int_text_exec(i);
    string_of(v.as_slice())
}

/// Reading the decimal text of an integer within `[lo, hi]` gives the
/// integer; one above `hi` overflows, one below `lo` overflows
/// negatively.
pub proof fn law_read_int_text(i: int, lo: int, hi: int)
    ensures
        lo <= i <= hi ==> spec_read_int(int_text(i), lo, hi) == IntRead::Value(i as i128),
        i > hi ==> spec_read_int(int_text(i), lo, hi) == IntRead::OutOfRange(
            IntErrorKind::PosOverflow,
        ),
        i < lo && i <= hi ==> spec_read_int(int_text(i), lo, hi) == IntRead::OutOfRange(
            IntErrorKind::NegOverflow,
        ),
{
    lemma_int_text_reads_back(i);
}

} // verus!
