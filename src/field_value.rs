//! Coercion of a raw field value into the typed attributes of a message:
//! text, a one-character code, or a number.
use vstd::prelude::*;
use crate::text::{find_char, scan_to};

verus! {

/// A type that an attribute of a message can have, with the raw values that
/// coerce into it.
pub trait FieldValue: Sized {
    /// Whether raw value `raw` coerces into this type.
    spec fn accepts(raw: Seq<char>) -> bool;

    /// Whether `self` is the value that `raw` coerces into.
    spec fn denotes(&self, raw: Seq<char>) -> bool;

    /// Coerces `raw`, or gives `None` when it is not of this type.
    fn coerce(raw: &String) -> (r: Option<Self>)
        ensures
            r is Some <==> Self::accepts(raw@),
            r matches Some(v) ==> v.denotes(raw@),
    ;
}

impl FieldValue for String {
    open spec fn accepts(raw: Seq<char>) -> bool {
        true
    }

    open spec fn denotes(&self, raw: Seq<char>) -> bool {
        self@ == raw
    }

    fn coerce(raw: &String) -> (r: Option<String>) {
        Some(raw.clone())
    }
}

impl FieldValue for char {
    open spec fn accepts(raw: Seq<char>) -> bool {
        raw.len() == 1
    }

    open spec fn denotes(&self, raw: Seq<char>) -> bool {
        raw == seq![*self]
    }

    fn coerce(raw: &String) -> (r: Option<char>) {
        let s = raw.as_str();
        if s.unicode_len() == 1 {
            let c = s.get_char(0);
            assert(s@ =~= seq![c]);
            Some(c)
        } else {
            None
        }
    }
}

/// An ASCII decimal digit.
pub open spec fn is_digit(c: char) -> bool {
    '0' <= c <= '9'
}

/// Every character of `s` is a digit.
pub open spec fn all_digits(s: Seq<char>) -> bool {
    forall|i: int| 0 <= i < s.len() ==> is_digit(#[trigger] s[i])
}

/// `s` without its leading `+` or `-`, if it has one.
pub open spec fn unsigned_part(s: Seq<char>) -> Seq<char> {
    if s.len() > 0 && (s[0] == '+' || s[0] == '-') {
        s.drop_first()
    } else {
        s
    }
}

/// Digits with at most one decimal point, and at least one digit.
pub open spec fn is_mantissa(s: Seq<char>) -> bool {
    let p = find_char(s, '.');
    if p < s.len() {
        s.len() >= 2 && all_digits(s.take(p as int)) && all_digits(s.skip((p + 1) as int))
    } else {
        s.len() >= 1 && all_digits(s)
    }
}

/// An optional sign followed by at least one digit.
pub open spec fn is_exponent(s: Seq<char>) -> bool {
    let u = unsigned_part(s);
    u.len() >= 1 && all_digits(u)
}

/// Index of the first exponent mark (`e` or `E`) in `s`, or `s.len()`.
pub open spec fn exponent_mark(s: Seq<char>) -> nat {
    let a = find_char(s, 'e');
    let b = find_char(s, 'E');
    if a <= b {
        a
    } else {
        b
    }
}

/// Character `c` is letter `w` (a lower-case ASCII letter) in either case.
pub open spec fn letter_matches(c: char, w: char) -> bool {
    c == w || c as u32 + 32 == w as u32
}

/// `u` spells the lower-case word `w`, each letter in either case.
pub open spec fn word_matches(u: Seq<char>, w: Seq<char>) -> bool {
    u.len() == w.len() && forall|i: int| 0 <= i < u.len() ==> letter_matches(u[i], w[i])
}

/// One of the words for an infinite value or for not-a-number, in any case.
pub open spec fn is_special(u: Seq<char>) -> bool {
    word_matches(u, "inf"@) || word_matches(u, "infinity"@) || word_matches(u, "nan"@)
}

/// A number as floating-point parsing reads it: an optional sign, then
/// either `inf`, `infinity` or `nan` in any case, or a mantissa with an
/// optional exponent introduced by `e` or `E` (`100`, `-0.5`, `.5`, `3.`,
/// `1e-3`, `-Infinity`, `NaN`).
pub open spec fn is_decimal(s: Seq<char>) -> bool {
    let u = unsigned_part(s);
    let e = exponent_mark(u);
    if is_special(u) {
        true
    } else if e < u.len() {
        is_mantissa(u.take(e as int)) && is_exponent(u.skip((e + 1) as int))
    } else {
        is_mantissa(u)
    }
}

/// Whether `s[from..to]` holds digits only.
fn digits_only(s: &str, from: usize, to: usize) -> (r: bool)
    requires
        from <= to <= s@.len(),
    ensures
        r == all_digits(s@.subrange(from as int, to as int)),
{
    let mut i: usize = from;
    while i < to
        invariant
            from <= i <= to <= s@.len(),
            forall|k: int| from <= k < i ==> is_digit(s@[k]),
        decreases to - i,
    {
        let c = s.get_char(i);
        if !('0' <= c && c <= '9') {
            assert(s@.subrange(from as int, to as int)[i - from] == c);
            return false;
        }
        i = i + 1;
    }
    assert forall|k: int| 0 <= k < to - from implies is_digit(
        #[trigger] s@.subrange(from as int, to as int)[k],
    ) by {
        assert(is_digit(s@[from + k]));
    }
    true
}

/// Whether `s[from..to]` is a mantissa.
fn mantissa_ok(s: &str, from: usize, to: usize) -> (r: bool)
    requires
        from <= to <= s@.len(),
    ensures
        r == is_mantissa(s@.subrange(from as int, to as int)),
{
    let ghost t = s@.subrange(from as int, to as int);
    let p = scan_to(s, '.', from, to);
    if p < to {
        assert(t.take(p - from) =~= s@.subrange(from as int, p as int));
        assert(t.skip(p - from + 1) =~= s@.subrange(p + 1, to as int));
        to - from >= 2 && digits_only(s, from, p) && digits_only(s, p + 1, to)
    } else {
        to - from >= 1 && digits_only(s, from, to)
    }
}

/// Whether `s[from..to]` is an exponent.
fn exponent_ok(s: &str, from: usize, to: usize) -> (r: bool)
    requires
        from <= to <= s@.len(),
    ensures
        r == is_exponent(s@.subrange(from as int, to as int)),
{
    let ghost t = s@.subrange(from as int, to as int);
    let mut b = from;
    if from < to {
        let c = s.get_char(from);
        if c == '+' || c == '-' {
            b = from + 1;
        }
    }
    assert(unsigned_part(t) =~= s@.subrange(b as int, to as int));
    to - b >= 1 && digits_only(s, b, to)
}

/// Whether `s[from..to]` spells the lower-case word `w`, in either case.
fn word_ok(s: &str, from: usize, to: usize, w: &str) -> (r: bool)
    requires
        from <= to <= s@.len(),
    ensures
        r == word_matches(s@.subrange(from as int, to as int), w@),
{
    let n = w.unicode_len();
    if to - from != n {
        return false;
    }
    let mut i: usize = 0;
    while i < n
        invariant
            n == w@.len() == to - from,
            from <= to <= s@.len(),
            0 <= i <= n,
            forall|k: int| 0 <= k < i ==> letter_matches(s@[from + k], w@[k]),
        decreases n - i,
    {
        let c = s.get_char(from + i);
        let d = w.get_char(i);
        if !(c == d || (c as u32) as u64 + 32 == (d as u32) as u64) {
            assert(s@.subrange(from as int, to as int)[i as int] == c);
            return false;
        }
        i = i + 1;
    }
    assert forall|k: int| 0 <= k < n implies letter_matches(
        s@.subrange(from as int, to as int)[k],
        w@[k],
    ) by {
        assert(s@.subrange(from as int, to as int)[k] == s@[from + k]);
    }
    true
}

/// Whether `s` is a number as floating-point parsing reads it.
pub fn check_decimal(s: &str) -> (r: bool)
    ensures
        r == is_decimal(s@),
{
    let n = s.unicode_len();
    let mut b: usize = 0;
    if n > 0 {
        let c = s.get_char(0);
        if c == '+' || c == '-' {
            b = 1;
        }
    }
    let ghost u = s@.subrange(b as int, n as int);
    assert(unsigned_part(s@) =~= u);
    if word_ok(s, b, n, "inf") || word_ok(s, b, n, "infinity") || word_ok(s, b, n, "nan") {
        return true;
    }
    let a = scan_to(s, 'e', b, n);
    let c = scan_to(s, 'E', b, n);
    let e = if a <= c {
        a
    } else {
        c
    };
    if e < n {
        assert(u.take(e - b) =~= s@.subrange(b as int, e as int));
        assert(u.skip(e - b + 1) =~= s@.subrange(e + 1, n as int));
        mantissa_ok(s, b, e) && exponent_ok(s, e + 1, n)
    } else {
        mantissa_ok(s, b, n)
    }
}

/// A number, kept as the text it was written in.
#[derive(Debug)]
pub struct Decimal {
    text: String,
}

impl View for Decimal {
    type V = Seq<char>;

    closed spec fn view(&self) -> Seq<char> {
        self.text@
    }
}

impl Decimal {
    /// Well-formedness: the text is a number.
    pub closed spec fn wf(&self) -> bool {
        is_decimal(self.text@)
    }

    /// The number as written.
    pub fn as_str(&self) -> (r: &str)
        ensures
            r@ == self@,
    {
        self.text.as_str()
    }
}

impl FieldValue for Decimal {
    open spec fn accepts(raw: Seq<char>) -> bool {
        is_decimal(raw)
    }

    open spec fn denotes(&self, raw: Seq<char>) -> bool {
        self@ == raw && self.wf()
    }

    fn coerce(raw: &String) -> (r: Option<Decimal>) {
        if check_decimal(raw.as_str()) {
            Some(Decimal { text: raw.clone() })
        } else {
            None
        }
    }
}

} // verus!
