//! Decoding of the text-encoded field values of a raw record.
use vstd::prelude::*;
use crate::text::{owned, push_char};

verus! {

pub open spec fn is_digit(c: char) -> bool {
    '0' <= c && c <= '9'
}

pub open spec fn all_digits(s: Seq<char>) -> bool {
    forall|i: int| 0 <= i < s.len() ==> is_digit(#[trigger] s[i])
}

/// The value of a string of decimal digits, most significant first.
pub open spec fn digits_value(s: Seq<char>) -> int
    decreases s.len(),
{
    if s.len() == 0 {
        0
    } else {
        digits_value(s.drop_last()) * 10 + (s.last() as int - '0' as int)
    }
}

/// The integer denoted by an optional sign followed by at least one digit.
pub open spec fn int_literal_value(s: Seq<char>, signed: bool) -> Option<int> {
    if s.len() > 0 && (s[0] == '+' || (signed && s[0] == '-')) {
        let d = s.drop_first();
        if d.len() > 0 && all_digits(d) {
            Some(if s[0] == '-' { -digits_value(d) } else { digits_value(d) })
        } else {
            None
        }
    } else if s.len() > 0 && all_digits(s) {
        Some(digits_value(s))
    } else {
        None
    }
}

proof fn lemma_digits_value_nonneg(s: Seq<char>)
    requires
        all_digits(s),
    ensures
        digits_value(s) >= 0,
    decreases s.len(),
{
    if s.len() > 0 {
        lemma_digits_value_nonneg(s.drop_last());
    }
}

/// Appending digits never lowers the value.
proof fn lemma_digits_value_prefix(s: Seq<char>, k: int)
    requires
        all_digits(s),
        0 <= k <= s.len(),
    ensures
        digits_value(s.take(k)) <= digits_value(s),
    decreases s.len() - k,
{
    if k < s.len() {
        lemma_digits_value_prefix(s, k + 1);
        assert(s.take(k + 1).drop_last() =~= s.take(k));
        lemma_digits_value_nonneg(s.take(k));
    } else {
        assert(s.take(k) =~= s);
    }
}

/// The value of the digits `s[start..]` when they are all digits, there is
/// at least one, and the value is at most `cap`; `None` otherwise.
fn digits_up_to(s: &str, start: usize, cap: u64) -> (r: Option<u64>)
    requires
        start <= s@.len(),
    ensures
        ({
            let d = s@.skip(start as int);
            match r {
                Some(v) => d.len() > 0 && all_digits(d) && v as int == digits_value(d) && v <= cap,
                None => !(d.len() > 0 && all_digits(d) && digits_value(d) <= cap),
            }
        }),
{
    let n = s.unicode_len();
    if start == n {
        return None;
    }
    let ghost d = s@.skip(start as int);
    let mut acc: u64 = 0;
    let mut too_big = false;
    let mut i: usize = start;
    while i < n
        invariant
            start <= i <= n,
            n == s@.len(),
            d == s@.skip(start as int),
            all_digits(d.take(i - start)),
            !too_big ==> acc as int == digits_value(d.take(i - start)) && acc <= cap,
            too_big ==> digits_value(d.take(i - start)) > cap,
        decreases n - i,
    {
        let c = s.get_char(i);
        if !('0' <= c && c <= '9') {
            assert(d[i - start] == c);
            return None;
        }
        let ghost k = i - start;
        assert(d.take(k + 1).drop_last() =~= d.take(k));
        assert(all_digits(d.take(k + 1))) by {
            assert forall|j: int| 0 <= j < k + 1 implies is_digit(#[trigger] d.take(k + 1)[j]) by {
                if j < k {
                    assert(d.take(k + 1)[j] == d.take(k)[j]);
                }
            }
        }
        if too_big {
            proof {
                lemma_digits_value_prefix(d.take(k + 1), k);
                assert(d.take(k + 1).take(k) =~= d.take(k));
            }
        } else {
            let digit = (c as u32 - '0' as u32) as u64;
            if acc > cap / 10 {
                proof {
                    assert(acc * 10 > cap) by (nonlinear_arith)
                        requires
                            acc > cap / 10,
                    ;
                    lemma_digits_value_nonneg(d.take(k));
                }
                too_big = true;
            } else {
                proof {
                    assert(acc * 10 <= cap) by (nonlinear_arith)
                        requires
                            acc <= cap / 10,
                    ;
                }
                if digit > cap - acc * 10 {
                    too_big = true;
                } else {
                    acc = acc * 10 + digit;
                }
            }
        }
        i = i + 1;
    }
    assert(d.take(n - start) =~= d);
    if too_big {
        None
    } else {
        Some(acc)
    }
}

/// A value that can be read from the text of one field.
pub trait FromField: Sized + DeepView {
    /// What the text `s` denotes, if it is valid for this type.
    spec fn field_spec(s: Seq<char>) -> Option<Self::V>;

    fn from_field(s: &str) -> (r: Option<Self>)
        ensures
            r.deep_view() == Self::field_spec(s@),
    ;
}

impl FromField for i32 {
    open spec fn field_spec(s: Seq<char>) -> Option<i32> {
        match int_literal_value(s, true) {
            Some(v) => if i32::MIN <= v <= i32::MAX {
                Some(v as i32)
            } else {
                None
            },
            None => None,
        }
    }

    fn from_field(s: &str) -> (r: Option<i32>) {
        let n = s.unicode_len();
        if n == 0 {
            return None;
        }
        let c = s.get_char(0);
        if c == '-' || c == '+' {
            let neg = c == '-';
            let cap: u64 = if neg { 2147483648 } else { 2147483647 };
            let r = digits_up_to(s, 1, cap);
            proof {
                assert(s@.skip(1) =~= s@.drop_first());
            }
            match r {
                Some(v) => if neg {
                    Some((0 - v as i64) as i32)
                } else {
                    Some(v as i32)
                },
                None => None,
            }
        } else {
            let r = digits_up_to(s, 0, 2147483647);
            proof {
                assert(s@.skip(0) =~= s@);
            }
            match r {
                Some(v) => Some(v as i32),
                None => None,
            }
        }
    }
}


impl FromField for u32 {
    open spec fn field_spec(s: Seq<char>) -> Option<u32> {
        match int_literal_value(s, false) {
            Some(v) => if v <= u32::MAX {
                Some(v as u32)
            } else {
                None
            },
            None => None,
        }
    }

    fn from_field(s: &str) -> (r: Option<u32>) {
        let n = s.unicode_len();
        if n == 0 {
            return None;
        }
        let start: usize = if s.get_char(0) == '+' { 1 } else { 0 };
        let r = digits_up_to(s, start, 4294967295);
        proof {
            assert(s@.skip(1) =~= s@.drop_first());
            assert(s@.skip(0) =~= s@);
        }
        match r {
            Some(v) => Some(v as u32),
            None => None,
        }
    }
}

impl FromField for usize {
    open spec fn field_spec(s: Seq<char>) -> Option<usize> {
        match int_literal_value(s, false) {
            Some(v) => if v <= usize::MAX {
                Some(v as usize)
            } else {
                None
            },
            None => None,
        }
    }

    fn from_field(s: &str) -> (r: Option<usize>) {
        let n = s.unicode_len();
        if n == 0 {
            return None;
        }
        let start: usize = if s.get_char(0) == '+' { 1 } else { 0 };
        let r = digits_up_to(s, start, usize::MAX as u64);
        proof {
            assert(s@.skip(1) =~= s@.drop_first());
            assert(s@.skip(0) =~= s@);
        }
        match r {
            Some(v) => Some(v as usize),
            None => None,
        }
    }
}

impl FromField for String {
    open spec fn field_spec(s: Seq<char>) -> Option<Seq<char>> {
        Some(s)
    }

    fn from_field(s: &str) -> (r: Option<String>) {
        Some(owned(s))
    }
}

/// Digits with at most one decimal point among them, and at least one digit.
pub open spec fn decimal_digits(s: Seq<char>) -> bool {
    &&& forall|i: int| 0 <= i < s.len() ==> is_digit(#[trigger] s[i]) || s[i] == '.'
    &&& forall|i: int, j: int|
        0 <= i < s.len() && 0 <= j < s.len() && #[trigger] s[i] == '.' && #[trigger] s[j] == '.'
            ==> i == j
    &&& exists|i: int| 0 <= i < s.len() && is_digit(#[trigger] s[i])
}

/// An optionally signed decimal number without exponent, such as `-12.5`,
/// `3.` or `.75`.
pub open spec fn is_decimal_literal(s: Seq<char>) -> bool {
    if s.len() > 0 && (s[0] == '-' || s[0] == '+') {
        decimal_digits(s.drop_first())
    } else {
        decimal_digits(s)
    }
}

/// A fractional quantity kept as its decimal text, so that it is carried
/// exactly; a consumer converts it to a floating-point value.
#[derive(Debug, PartialEq, Eq)]
pub struct Decimal {
    pub text: String,
}

impl DeepView for Decimal {
    type V = Seq<char>;

    open spec fn deep_view(&self) -> Seq<char> {
        self.text@
    }
}

impl Decimal {
    pub open spec fn wf(&self) -> bool {
        is_decimal_literal(self.text@)
    }

    pub fn as_str(&self) -> (r: &str)
        ensures
            r@ == self.text@,
    {
        self.text.as_str()
    }
}

fn decimal_digits_from(s: &str, start: usize) -> (r: bool)
    requires
        start <= s@.len(),
    ensures
        r == decimal_digits(s@.skip(start as int)),
{
    let ghost d = s@.skip(start as int);
    let n = s.unicode_len();
    let mut dot: Option<usize> = None;
    let mut digit: Option<usize> = None;
    let mut i: usize = start;
    while i < n
        invariant
            start <= i <= n,
            n == s@.len(),
            d == s@.skip(start as int),
            forall|j: int| 0 <= j < i - start ==> is_digit(#[trigger] d[j]) || d[j] == '.',
            match dot {
                Some(p) => start <= p < i && d[p - start] == '.' && forall|j: int|
                    0 <= j < i - start && #[trigger] d[j] == '.' ==> j == p - start,
                None => forall|j: int| 0 <= j < i - start ==> #[trigger] d[j] != '.',
            },
            match digit {
                Some(p) => start <= p < i && is_digit(d[p - start]),
                None => forall|j: int| 0 <= j < i - start ==> !is_digit(#[trigger] d[j]),
            },
        decreases n - i,
    {
        let c = s.get_char(i);
        assert(d[i - start] == c);
        if c == '.' {
            if dot.is_some() {
                let p = dot.unwrap();
                assert(d[p - start] == '.' && d[i - start] == '.');
                return false;
            }
            dot = Some(i);
        } else if '0' <= c && c <= '9' {
            digit = Some(i);
        } else {
            return false;
        }
        i = i + 1;
    }
    match digit {
        Some(p) => {
            assert(is_digit(d[p - start]));
        },
        None => {},
    }
    digit.is_some()
}

impl FromField for Decimal {
    open spec fn field_spec(s: Seq<char>) -> Option<Seq<char>> {
        if is_decimal_literal(s) {
            Some(s)
        } else {
            None
        }
    }

    fn from_field(s: &str) -> (r: Option<Decimal>) {
        let n = s.unicode_len();
        let signed = n > 0 && (s.get_char(0) == '-' || s.get_char(0) == '+');
        let start: usize = if signed { 1 } else { 0 };
        let ok = decimal_digits_from(s, start);
        proof {
            assert(s@.skip(1) =~= s@.drop_first());
            assert(s@.skip(0) =~= s@);
        }
        if ok {
            Some(Decimal { text: owned(s) })
        } else {
            None
        }
    }
}

/// A character that may belong to the numeric prefix of a field.
pub open spec fn is_number_char(c: char) -> bool {
    is_digit(c) || c == '.' || c == '-'
}

/// The length of the longest prefix of `s` made of number characters.
pub open spec fn leading_len(s: Seq<char>) -> nat
    decreases s.len(),
{
    if s.len() == 0 || !is_number_char(s[0]) {
        0
    } else {
        1 + leading_len(s.drop_first())
    }
}

/// The part of `s` before its first character that is neither a digit, `.`
/// nor `-`; all of `s` when there is none.
pub open spec fn leading_prefix(s: Seq<char>) -> Seq<char> {
    s.take(leading_len(s) as int)
}

proof fn lemma_leading_len(s: Seq<char>, k: int)
    requires
        0 <= k <= s.len(),
        forall|j: int| 0 <= j < k ==> is_number_char(#[trigger] s[j]),
        k == s.len() || !is_number_char(s[k]),
    ensures
        leading_len(s) == k,
    decreases k,
{
    if k > 0 {
        lemma_leading_len(s.drop_first(), k - 1);
    }
}

/// Why a field failed to decode.
#[derive(Debug, Clone, Copy, PartialEq, Eq)]
pub struct DecodeError;

/// Decodes the numeric prefix of `s`: the text before the first character
/// that is neither a digit, `.` nor `-`, read with the rules of `T`.
pub fn parse_leading_number<T: FromField>(s: &str) -> (r: Result<T, DecodeError>)
    ensures
        match r {
            Ok(v) => T::field_spec(leading_prefix(s@)) == Some(v.deep_view()),
            Err(_) => T::field_spec(leading_prefix(s@)) is None,
        },
{
    let n = s.unicode_len();
    let mut k: usize = 0;
    let mut done = false;
    while k < n && !done
        invariant
            k <= n,
            n == s@.len(),
            forall|j: int| 0 <= j < k ==> is_number_char(#[trigger] s@[j]),
            done ==> k < n && !is_number_char(s@[k as int]),
        decreases n - k + (if done { 0int } else { 1int }),
    {
        let c = s.get_char(k);
        if ('0' <= c && c <= '9') || c == '.' || c == '-' {
            k = k + 1;
        } else {
            done = true;
        }
    }
    proof {
        lemma_leading_len(s@, k as int);
    }
    let prefix = s.substring_char(0, k);
    match T::from_field(prefix) {
        Some(v) => Ok(v),
        None => Err(DecodeError),
    }
}

/// Decodes the numeric prefix of an optional field; absence and a prefix
/// that does not decode both give `None`.
pub fn parse_opt_leading_number<T: FromField>(s: &Option<String>) -> (r: Option<T>)
    ensures
        r.deep_view() == match s {
            Some(t) => T::field_spec(leading_prefix(t@)),
            None => None,
        },
{
    match s {
        Some(t) => match parse_leading_number::<T>(t.as_str()) {
            Ok(v) => Some(v),
            Err(_) => None,
        },
        None => None,
    }
}


/// The pieces of `s` between occurrences of `d`; one empty piece for an
/// empty `s`.
pub open spec fn split_spec(s: Seq<char>, d: char) -> Seq<Seq<char>>
    decreases s.len(),
{
    if s.len() == 0 {
        seq![Seq::empty()]
    } else {
        let prev = split_spec(s.drop_last(), d);
        if s.last() == d {
            prev.push(Seq::empty())
        } else {
            prev.update(prev.len() - 1, prev.last().push(s.last()))
        }
    }
}

proof fn lemma_split_nonempty(s: Seq<char>, d: char)
    ensures
        split_spec(s, d).len() >= 1,
    decreases s.len(),
{
    if s.len() > 0 {
        lemma_split_nonempty(s.drop_last(), d);
    }
}

/// The values of the pieces that decode as `T`, in order; the others are
/// left out.
pub open spec fn parsed_pieces<T: FromField>(ps: Seq<Seq<char>>) -> Seq<<T as DeepView>::V>
    decreases ps.len(),
{
    if ps.len() == 0 {
        Seq::empty()
    } else {
        let prev = parsed_pieces::<T>(ps.drop_last());
        match T::field_spec(ps.last()) {
            Some(v) => prev.push(v),
            None => prev,
        }
    }
}

/// A `^`-delimited list: each piece decoded on its own, those that fail
/// dropped.
pub open spec fn delimited_spec<T: FromField>(s: Seq<char>) -> Seq<<T as DeepView>::V> {
    parsed_pieces::<T>(split_spec(s, '^'))
}

/// Decodes a `^`-delimited list, dropping the pieces that do not decode.
pub fn parse_delimited<T: FromField>(s: &str) -> (r: Vec<T>)
    ensures
        r.deep_view() == delimited_spec::<T>(s@),
{
    let n = s.unicode_len();
    let mut out: Vec<T> = Vec::new();
    let mut cur = String::new();
    let mut i: usize = 0;
    proof {
        assert(s@.take(0) =~= Seq::<char>::empty());
        assert(out.deep_view() =~= Seq::<<T as DeepView>::V>::empty());
    }
    while i < n
        invariant
            i <= n,
            n == s@.len(),
            split_spec(s@.take(i as int), '^').len() >= 1,
            cur@ == split_spec(s@.take(i as int), '^').last(),
            out.deep_view() == parsed_pieces::<T>(split_spec(s@.take(i as int), '^').drop_last()),
        decreases n - i,
    {
        let c = s.get_char(i);
        let ghost prev = split_spec(s@.take(i as int), '^');
        proof {
            assert(s@.take(i + 1).drop_last() =~= s@.take(i as int));
            lemma_split_nonempty(s@.take(i + 1), '^');
        }
        if c == '^' {
            let ghost old_out = out.deep_view();
            match T::from_field(cur.as_str()) {
                Some(v) => {
                    out.push(v);
                    proof {
                        assert(out.deep_view() =~= old_out.push(v.deep_view()));
                    }
                },
                None => {},
            }
            cur = String::new();
            proof {
                assert(split_spec(s@.take(i + 1), '^').drop_last() =~= prev);
                assert(prev.drop_last().push(prev.last()) =~= prev);
            }
        } else {
            push_char(&mut cur, c);
            proof {
                assert(split_spec(s@.take(i + 1), '^').drop_last() =~= prev.drop_last());
            }
        }
        i = i + 1;
    }
    proof {
        assert(s@.take(n as int) =~= s@);
    }
    let ghost ps = split_spec(s@, '^');
    let ghost old_out = out.deep_view();
    match T::from_field(cur.as_str()) {
        Some(v) => {
            out.push(v);
            proof {
                assert(out.deep_view() =~= old_out.push(v.deep_view()));
            }
        },
        None => {},
    }
    out
}

} // verus!
