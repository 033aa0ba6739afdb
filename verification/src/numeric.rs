//! Reading numbers from text: unsigned integers as `u64::from_str` and
//! `usize::from_str` read them, and the syntax of floating-point literals
//! that `f64::from_str` accepts.
use vstd::prelude::*;

verus! {

pub open spec fn is_digit(c: char) -> bool {
    '0' <= c <= '9'
}

pub open spec fn digit_value(c: char) -> nat {
    (c as u32 - '0' as u32) as nat
}

pub open spec fn all_digits(s: Seq<char>) -> bool {
    forall|i: int| 0 <= i < s.len() ==> is_digit(#[trigger] s[i])
}

/// The value of a string of decimal digits.
pub open spec fn digits_value(s: Seq<char>) -> nat
    decreases s.len(),
{
    if s.len() == 0 {
        0
    } else {
        digits_value(s.drop_last()) * 10 + digit_value(s.last())
    }
}

/// `s` without one leading `+`.
pub open spec fn unsigned_body(s: Seq<char>) -> Seq<char> {
    if s.len() > 0 && s[0] == '+' {
        s.drop_first()
    } else {
        s
    }
}

/// The value of an unsigned integer literal (an optional `+`, then one or
/// more ASCII digits) that is at most `max`; `None` for any other text.
pub open spec fn spec_parse_unsigned(s: Seq<char>, max: nat) -> Option<nat> {
    let d = unsigned_body(s);
    if d.len() > 0 && all_digits(d) && digits_value(d) <= max {
        Some(digits_value(d))
    } else {
        None
    }
}

/// What `s.parse::<u64>()` gives, as an option.
pub open spec fn spec_parse_u64(s: Seq<char>) -> Option<u64> {
    match spec_parse_unsigned(s, u64::MAX as nat) {
        Some(n) => Some(n as u64),
        None => None,
    }
}

/// What `s.parse::<usize>()` gives, as an option.
pub open spec fn spec_parse_usize(s: Seq<char>) -> Option<usize> {
    match spec_parse_unsigned(s, usize::MAX as nat) {
        Some(n) => Some(n as usize),
        None => None,
    }
}

proof fn lemma_digits_value_prefix(s: Seq<char>, j: int)
    requires
        0 <= j <= s.len(),
    ensures
        digits_value(s.take(j)) <= digits_value(s),
    decreases s.len(),
{
    if j < s.len() {
        assert(s.drop_last().take(j) =~= s.take(j));
        lemma_digits_value_prefix(s.drop_last(), j);
    } else {
        assert(s.take(j) =~= s);
    }
}

/// Reads `s` as an unsigned integer no greater than `max`.
fn parse_unsigned(s: &str, max: u64) -> (r: Option<u64>)
    requires
        max >= 9,
    ensures
        match r {
            Some(n) => spec_parse_unsigned(s@, max as nat) == Some(n as nat),
            None => spec_parse_unsigned(s@, max as nat) is None,
        },
{
    let v = crate::text::chars_of(s);
    let start: usize = if v.len() > 0 && v[0] == '+' {
        1
    } else {
        0
    };
    let ghost d = unsigned_body(s@);
    proof {
        assert(d =~= v@.subrange(start as int, v.len() as int));
    }
    if start == v.len() {
        return None;
    }
    let mut acc: u64 = 0;
    let mut i = start;
    while i < v.len()
        invariant
            start <= i <= v.len(),
            d == v@.subrange(start as int, v.len() as int),
            d == unsigned_body(s@),
            all_digits(d.take(i - start)),
            acc as nat == digits_value(d.take(i - start)),
            acc <= max,
            max >= 9,
        decreases v.len() - i,
    {
        let c = v[i];
        let ghost k = i - start;
        proof {
            assert(d[k] == c);
            assert(d.take(k + 1).drop_last() =~= d.take(k));
            assert(d.take(k + 1).last() == c);
        }
        if !('0' <= c && c <= '9') {
            proof {
                assert(!is_digit(d[k]));
            }
            return None;
        }
        let dv = (c as u32 - '0' as u32) as u64;
        if acc > (max - dv) / 10 {
            proof {
                assert(acc * 10 + dv > max) by (nonlinear_arith)
                    requires
                        acc > (max - dv) / 10,
                        dv <= 9,
                        max >= 9,
                ;
                lemma_digits_value_prefix(d, k + 1);
            }
            return None;
        }
        proof {
            assert(acc * 10 + dv <= max) by (nonlinear_arith)
                requires
                    acc <= (max - dv) / 10,
                    dv <= max,
            ;
            assert forall|m: int| 0 <= m < k + 1 implies is_digit(#[trigger] d.take(k + 1)[m]) by {
                if m < k {
                    assert(d.take(k + 1)[m] == d.take(k)[m]);
                }
            }
        }
        acc = acc * 10 + dv;
        i = i + 1;
    }
    proof {
        assert(d.take(i - start) =~= d);
    }
    Some(acc)
}

/// Reads `s` as `s.parse::<u64>()` does; `None` where that gives an error.
pub fn parse_u64(s: &str) -> (r: Option<u64>)
    ensures
        r == spec_parse_u64(s@),
{
    parse_unsigned(s, u64::MAX)
}

/// Reads `s` as `s.parse::<usize>()` does; `None` where that gives an error.
pub fn parse_usize(s: &str) -> (r: Option<usize>)
    ensures
        r == spec_parse_usize(s@),
{
    match parse_unsigned(s, usize::MAX as u64) {
        Some(n) => Some(n as usize),
        None => None,
    }
}

/// `s` without one leading sign character.
pub open spec fn strip_sign(s: Seq<char>) -> Seq<char> {
    if s.len() > 0 && (s[0] == '+' || s[0] == '-') {
        s.drop_first()
    } else {
        s
    }
}

/// `s` spells the word whose lower-case letters are `lower` and whose
/// upper-case letters are `upper`, each letter in either case.
pub open spec fn spells(s: Seq<char>, lower: Seq<char>, upper: Seq<char>) -> bool {
    &&& s.len() == lower.len()
    &&& forall|i: int| 0 <= i < s.len() ==> #[trigger] s[i] == lower[i] || s[i] == upper[i]
}

/// `inf`, `infinity` or `nan`, in any mix of cases.
pub open spec fn is_special_float(s: Seq<char>) -> bool {
    ||| spells(s, seq!['i', 'n', 'f'], seq!['I', 'N', 'F'])
    ||| spells(
        s,
        seq!['i', 'n', 'f', 'i', 'n', 'i', 't', 'y'],
        seq!['I', 'N', 'F', 'I', 'N', 'I', 'T', 'Y'],
    )
    ||| spells(s, seq!['n', 'a', 'n'], seq!['N', 'A', 'N'])
}

/// The index of the first character of `s` that is `a` or `b`, if any.
pub open spec fn first_index_of_either(s: Seq<char>, a: char, b: char) -> Option<int>
    decreases s.len(),
{
    if s.len() == 0 {
        None
    } else if s[0] == a || s[0] == b {
        Some(0)
    } else {
        match first_index_of_either(s.drop_first(), a, b) {
            Some(i) => Some(i + 1),
            None => None,
        }
    }
}

/// Digits with at most one `.` among them, and at least one digit.
pub open spec fn is_mantissa(m: Seq<char>) -> bool {
    match first_index_of_either(m, '.', '.') {
        None => m.len() > 0 && all_digits(m),
        Some(p) => all_digits(m.take(p)) && all_digits(m.skip(p + 1)) && m.len() >= 2,
    }
}

/// An optional sign, then one or more digits.
pub open spec fn is_exponent_digits(x: Seq<char>) -> bool {
    let d = strip_sign(x);
    d.len() > 0 && all_digits(d)
}

/// A mantissa, then optionally `e` or `E` and an exponent.
pub open spec fn is_decimal_number(b: Seq<char>) -> bool {
    match first_index_of_either(b, 'e', 'E') {
        None => is_mantissa(b),
        Some(e) => is_mantissa(b.take(e)) && is_exponent_digits(b.skip(e + 1)),
    }
}

/// The texts that `f64::from_str` accepts: an optional sign, then `inf`,
/// `infinity` or `nan` in any case, or a decimal number
/// `( Digit+ | Digit+ '.' Digit* | Digit* '.' Digit+ ) ( [eE] Sign? Digit+ )?`.
pub open spec fn is_float_literal(s: Seq<char>) -> bool {
    let b = strip_sign(s);
    is_special_float(b) || is_decimal_number(b)
}

proof fn lemma_first_either_exact(s: Seq<char>, a: char, b: char, i: int)
    requires
        0 <= i <= s.len(),
        forall|k: int| 0 <= k < i ==> #[trigger] s[k] != a && s[k] != b,
    ensures
        i < s.len() && (s[i] == a || s[i] == b) ==> first_index_of_either(s, a, b) == Some(i),
        i == s.len() ==> first_index_of_either(s, a, b) is None,
    decreases i,
{
    if i > 0 {
        let t = s.drop_first();
        assert forall|k: int| 0 <= k < i - 1 implies #[trigger] t[k] != a && t[k] != b by {
            assert(t[k] == s[k + 1]);
        }
        if i < s.len() {
            assert(t[i - 1] == s[i]);
        }
        lemma_first_either_exact(t, a, b, i - 1);
        assert(s[0] != a && s[0] != b);
    }
}

/// The index, within `lo..hi`, of the first `a` or `b` in `v[lo..hi]`.
fn find_either(v: &Vec<char>, lo: usize, hi: usize, a: char, b: char) -> (r: Option<usize>)
    requires
        lo <= hi <= v.len(),
    ensures
        match r {
            Some(i) => lo <= i < hi && first_index_of_either(
                v@.subrange(lo as int, hi as int),
                a,
                b,
            ) == Some(i - lo),
            None => first_index_of_either(v@.subrange(lo as int, hi as int), a, b) is None,
        },
{
    let ghost s = v@.subrange(lo as int, hi as int);
    let mut i = lo;
    while i < hi
        invariant
            lo <= i <= hi <= v.len(),
            s == v@.subrange(lo as int, hi as int),
            forall|k: int| 0 <= k < i - lo ==> #[trigger] s[k] != a && s[k] != b,
        decreases hi - i,
    {
        if v[i] == a || v[i] == b {
            proof {
                assert(s[i - lo] == v@[i as int]);
                lemma_first_either_exact(s, a, b, i - lo);
            }
            return Some(i);
        }
        proof {
            assert(s[i - lo] == v@[i as int]);
        }
        i = i + 1;
    }
    proof {
        lemma_first_either_exact(s, a, b, i - lo);
    }
    None
}

/// Whether `v[lo..hi]` is all ASCII digits.
fn all_digits_range(v: &Vec<char>, lo: usize, hi: usize) -> (r: bool)
    requires
        lo <= hi <= v.len(),
    ensures
        r == all_digits(v@.subrange(lo as int, hi as int)),
{
    let ghost s = v@.subrange(lo as int, hi as int);
    let mut i = lo;
    while i < hi
        invariant
            lo <= i <= hi <= v.len(),
            s == v@.subrange(lo as int, hi as int),
            forall|k: int| 0 <= k < i - lo ==> is_digit(#[trigger] s[k]),
        decreases hi - i,
    {
        proof {
            assert(s[i - lo] == v@[i as int]);
        }
        if !('0' <= v[i] && v[i] <= '9') {
            proof {
                assert(!is_digit(s[i - lo]));
            }
            return false;
        }
        i = i + 1;
    }
    true
}

/// Whether `v[lo..hi]` spells the word `lower`/`upper` in any case.
fn spells_range(v: &Vec<char>, lo: usize, hi: usize, lower: &[char], upper: &[char]) -> (r: bool)
    requires
        lo <= hi <= v.len(),
        lower@.len() == upper@.len(),
    ensures
        r == spells(v@.subrange(lo as int, hi as int), lower@, upper@),
{
    let ghost s = v@.subrange(lo as int, hi as int);
    if hi - lo != lower.len() {
        return false;
    }
    let mut k: usize = 0;
    while k < lower.len()
        invariant
            lo <= hi <= v.len(),
            hi - lo == lower@.len(),
            lower@.len() == upper@.len(),
            s == v@.subrange(lo as int, hi as int),
            k <= lower@.len(),
            forall|m: int| 0 <= m < k ==> #[trigger] s[m] == lower@[m] || s[m] == upper@[m],
        decreases lower.len() - k,
    {
        proof {
            assert(s[k as int] == v@[lo + k]);
        }
        if v[lo + k] != lower[k] && v[lo + k] != upper[k] {
            return false;
        }
        k = k + 1;
    }
    true
}

/// Whether `v[lo..hi]` is a mantissa.
fn is_mantissa_range(v: &Vec<char>, lo: usize, hi: usize) -> (r: bool)
    requires
        lo <= hi <= v.len(),
    ensures
        r == is_mantissa(v@.subrange(lo as int, hi as int)),
{
    let ghost m = v@.subrange(lo as int, hi as int);
    match find_either(v, lo, hi, '.', '.') {
        None => hi > lo && all_digits_range(v, lo, hi),
        Some(p) => {
            proof {
                assert(m.take(p - lo) =~= v@.subrange(lo as int, p as int));
                assert(m.skip(p - lo + 1) =~= v@.subrange(p + 1, hi as int));
            }
            all_digits_range(v, lo, p) && all_digits_range(v, p + 1, hi) && hi - lo >= 2
        },
    }
}

/// Whether `v[lo..hi]` is an optional sign and one or more digits.
fn is_exponent_range(v: &Vec<char>, lo: usize, hi: usize) -> (r: bool)
    requires
        lo <= hi <= v.len(),
    ensures
        r == is_exponent_digits(v@.subrange(lo as int, hi as int)),
{
    let ghost x = v@.subrange(lo as int, hi as int);
    let start = if lo < hi && (v[lo] == '+' || v[lo] == '-') {
        lo + 1
    } else {
        lo
    };
    proof {
        if lo < hi {
            assert(x[0] == v@[lo as int]);
        }
        assert(strip_sign(x) =~= v@.subrange(start as int, hi as int));
    }
    hi > start && all_digits_range(v, start, hi)
}

/// Whether `v` is a floating-point literal that `f64::from_str` accepts.
pub fn is_float_literal_chars(v: &Vec<char>) -> (r: bool)
    ensures
        r == is_float_literal(v@),
{
    let n = v.len();
    let lo = if n > 0 && (v[0] == '+' || v[0] == '-') {
        1
    } else {
        0
    };
    let ghost b = strip_sign(v@);
    proof {
        assert(b =~= v@.subrange(lo as int, n as int));
    }
    if spells_range(v, lo, n, &['i', 'n', 'f'], &['I', 'N', 'F']) || spells_range(
        v,
        lo,
        n,
        &['i', 'n', 'f', 'i', 'n', 'i', 't', 'y'],
        &['I', 'N', 'F', 'I', 'N', 'I', 'T', 'Y'],
    ) || spells_range(v, lo, n, &['n', 'a', 'n'], &['N', 'A', 'N']) {
        proof {
            assert(is_special_float(b));
        }
        return true;
    }
    proof {
        assert(!is_special_float(b));
    }
    match find_either(v, lo, n, 'e', 'E') {
        None => is_mantissa_range(v, lo, n),
        Some(e) => {
            proof {
                assert(b.take(e - lo) =~= v@.subrange(lo as int, e as int));
                assert(b.skip(e - lo + 1) =~= v@.subrange(e + 1, n as int));
            }
            is_mantissa_range(v, lo, e) && is_exponent_range(v, e + 1, n)
        },
    }
}

proof fn lemma_digits_have_no(s: Seq<char>, a: char, b: char)
    requires
        all_digits(s),
        !is_digit(a),
        !is_digit(b),
    ensures
        first_index_of_either(s, a, b) is None,
{
    assert forall|k: int| 0 <= k < s.len() implies #[trigger] s[k] != a && s[k] != b by {
        assert(is_digit(s[k]));
    }
    lemma_first_either_exact(s, a, b, s.len() as int);
}

/// Every text that reads as an unsigned integer also reads as a
/// floating-point number.
pub proof fn lemma_unsigned_literal_is_float_literal(s: Seq<char>, max: nat)
    requires
        spec_parse_unsigned(s, max) is Some,
    ensures
        is_float_literal(s),
{
    let d = unsigned_body(s);
    if s.len() > 0 && s[0] == '-' {
        assert(d == s);
        assert(is_digit(d[0]));
    }
    assert(strip_sign(s) == d);
    lemma_digits_have_no(d, 'e', 'E');
    lemma_digits_have_no(d, '.', '.');
}

/// The text of a floating-point number, as written in an instance file:
/// always one that `f64::from_str` accepts. Two literals are equal when
/// their texts are.
#[derive(Debug, PartialEq, Eq)]
pub struct FloatLiteral {
    text: String,
}

impl View for FloatLiteral {
    type V = Seq<char>;

    closed spec fn view(&self) -> Seq<char> {
        self.text@
    }
}

impl FloatLiteral {
    #[verifier::type_invariant]
    closed spec fn well_formed(self) -> bool {
        is_float_literal(self.text@)
    }

    /// The literal `s`, if `f64::from_str` accepts it.
    pub fn parse(s: &str) -> (r: Option<FloatLiteral>)
        ensures
            r is Some <==> is_float_literal(s@),
            r matches Some(f) ==> f@ == s@,
    {
        let v = crate::text::chars_of(s);
        if is_float_literal_chars(&v) {
            Some(FloatLiteral { text: s.to_owned() })
        } else {
            None
        }
    }

    /// The text of the literal.
    pub fn as_str(&self) -> (r: &str)
        ensures
            r@ == self@,
    {
        self.text.as_str()
    }
}

impl Clone for FloatLiteral {
    fn clone(&self) -> (r: Self)
        ensures
            r@ == self@,
    {
        proof {
            use_type_invariant(self);
        }
        FloatLiteral { text: self.text.clone() }
    }
}

/// A type that the numbers of an instance file are read as: each word of
/// the file either is a number of the type or is not.
pub trait Numeric: View + Sized {
    /// The value, by its view, that the word `s` reads as, if it is a number
    /// of this type.
    spec fn spec_read(s: Seq<char>) -> Option<Self::V>;

    /// Reads the word `s` as a number of this type.
    fn read(s: &str) -> (r: Option<Self>)
        ensures
            match r {
                Some(x) => Self::spec_read(s@) == Some(x@),
                None => Self::spec_read(s@) is None,
            },
    ;
}

impl Numeric for u64 {
    /// A `u64` is read as `s.parse::<u64>()` reads it.
    open spec fn spec_read(s: Seq<char>) -> Option<u64> {
        spec_parse_u64(s)
    }

    fn read(s: &str) -> (r: Option<u64>) {
        parse_u64(s)
    }
}

impl Numeric for FloatLiteral {
    /// A literal is any word that `f64::from_str` accepts, kept as written.
    open spec fn spec_read(s: Seq<char>) -> Option<Seq<char>> {
        if is_float_literal(s) {
            Some(s)
        } else {
            None
        }
    }

    fn read(s: &str) -> (r: Option<FloatLiteral>) {
        FloatLiteral::parse(s)
    }
}

} // verus!
