//! Character-level text helpers: whitespace trimming, case folding,
//! number syntax, and conversion between `&str` and character vectors.

use vstd::prelude::*;

verus! {

/// Appends one character to a `String` (`String::push`).
/// Claims, as std documents, that the character is appended at the end.
#[verifier::external_body]
fn push_char(s: &mut String, c: char)
    ensures
        final(s)@ == old(s)@.push(c),
{
    s.push(c);
}

/// The characters of a string slice, in order.
pub fn chars_of(s: &str) -> (v: Vec<char>)
    ensures
        v@ == s@,
{
    let mut v: Vec<char> = Vec::new();
    for c in it: s.chars()
        invariant
            v@ == it.seq().take(it.index() as int),
            it.seq() == s@,
    {
        v.push(c);
    }
    v
}

/// A `String` holding exactly the given characters.
pub fn string_of(v: &Vec<char>) -> (s: String)
    ensures
        s@ == v@,
{
    let mut s = String::new();
    let mut i: usize = 0;
    while i < v.len()
        invariant
            i <= v.len(),
            s@ == v@.take(i as int),
        decreases v.len() - i,
    {
        push_char(&mut s, v[i]);
        assert(v@.take(i + 1) == v@.take(i as int).push(v@[i as int]));
        i += 1;
    }
    assert(v@.take(v.len() as int) == v@);
    s
}


/// Unicode `White_Space` (what `char::is_whitespace` and `str::trim` use).
pub open spec fn is_white_space(c: char) -> bool {
    ||| ('\u{9}' <= c && c <= '\u{d}')
    ||| c == ' '
    ||| c == '\u{85}'
    ||| c == '\u{a0}'
    ||| c == '\u{1680}'
    ||| ('\u{2000}' <= c && c <= '\u{200a}')
    ||| c == '\u{2028}'
    ||| c == '\u{2029}'
    ||| c == '\u{202f}'
    ||| c == '\u{205f}'
    ||| c == '\u{3000}'
}

/// Index of the first non-whitespace character at or after `i`
/// (the length when there is none).
pub open spec fn first_solid_from(s: Seq<char>, i: int) -> int
    decreases s.len() - i,
{
    if i < 0 || i >= s.len() {
        s.len() as int
    } else if is_white_space(s[i]) {
        first_solid_from(s, i + 1)
    } else {
        i
    }
}

/// One past the last non-whitespace character before `j` (0 when there is none).
pub open spec fn last_solid_before(s: Seq<char>, j: int) -> int
    decreases j,
{
    if j <= 0 || j > s.len() {
        0
    } else if is_white_space(s[j - 1]) {
        last_solid_before(s, j - 1)
    } else {
        j
    }
}

/// `s` without leading and trailing Unicode whitespace, as `str::trim` gives it.
pub open spec fn trimmed(s: Seq<char>) -> Seq<char> {
    let a = first_solid_from(s, 0);
    let b = last_solid_before(s, s.len() as int);
    if a < b {
        s.subrange(a, b)
    } else {
        Seq::empty()
    }
}

pub fn is_white_space_char(c: char) -> (r: bool)
    ensures
        r == is_white_space(c),
{
    ('\u{9}' <= c && c <= '\u{d}') || c == ' ' || c == '\u{85}' || c == '\u{a0}' || c
        == '\u{1680}' || ('\u{2000}' <= c && c <= '\u{200a}') || c == '\u{2028}' || c
        == '\u{2029}' || c == '\u{202f}' || c == '\u{205f}' || c == '\u{3000}'
}

/// The characters of `s` with surrounding whitespace removed.
pub fn trim_chars(s: &Vec<char>) -> (r: Vec<char>)
    ensures
        r@ == trimmed(s@),
{
    let n = s.len();
    let mut a: usize = 0;
    while a < n && is_white_space_char(s[a])
        invariant
            n == s@.len(),
            a <= n,
            first_solid_from(s@, 0) == first_solid_from(s@, a as int),
        decreases n - a,
    {
        a += 1;
    }
    let mut b: usize = n;
    while b > 0 && is_white_space_char(s[b - 1])
        invariant
            n == s@.len(),
            b <= n,
            last_solid_before(s@, n as int) == last_solid_before(s@, b as int),
        decreases b,
    {
        b -= 1;
    }
    let mut r: Vec<char> = Vec::new();
    if a < b {
        let mut i: usize = a;
        while i < b
            invariant
                a <= i <= b,
                b <= n,
                n == s@.len(),
                r@ == s@.subrange(a as int, i as int),
            decreases b - i,
        {
            r.push(s[i]);
            assert(s@.subrange(a as int, i + 1) == s@.subrange(a as int, i as int).push(s@[i as int]));
            i += 1;
        }
    }
    r
}

/// A string slice with surrounding whitespace removed, as characters.
pub fn trim_str(s: &str) -> (r: Vec<char>)
    ensures
        r@ == trimmed(s@),
{
    let v = chars_of(s);
    trim_chars(&v)
}

/// Whether two character sequences are equal.
pub fn chars_equal(a: &Vec<char>, b: &Vec<char>) -> (r: bool)
    ensures
        r == (a@ == b@),
{
    if a.len() != b.len() {
        return false;
    }
    let mut i: usize = 0;
    while i < a.len()
        invariant
            a@.len() == b@.len(),
            i <= a@.len(),
            forall|k: int| 0 <= k < i ==> a@[k] == b@[k],
        decreases a.len() - i,
    {
        if a[i] != b[i] {
            return false;
        }
        i += 1;
    }
    assert(a@ =~= b@);
    true
}

/// Whether the characters equal those of a string slice.
pub fn chars_are(a: &Vec<char>, lit: &str) -> (r: bool)
    ensures
        r == (a@ == lit@),
{
    let b = chars_of(lit);
    chars_equal(a, &b)
}

/// The code of a character with ASCII upper case letters lowered.
pub open spec fn lower_code(c: char) -> int {
    if 'A' <= c && c <= 'Z' {
        (c as u32) + 32
    } else {
        (c as u32) as int
    }
}

/// Whether `a`, with its ASCII letters lowered, is the text `lit`.
pub open spec fn folds_to_text(a: Seq<char>, lit: Seq<char>) -> bool {
    &&& a.len() == lit.len()
    &&& forall|i: int| 0 <= i < a.len() ==> lower_code(#[trigger] a[i]) == (lit[i] as u32) as int
}

/// Whether `a`, with its ASCII letters lowered, equals `lit`.
///
/// Where `lit` is lower case and holds no `k`, this is exactly whether
/// `str::to_lowercase` of `a` equals `lit`: the only character outside ASCII
/// whose lower case is a single ASCII letter is the Kelvin sign, which lowers to `k`.
pub fn folds_to(a: &Vec<char>, lit: &str) -> (r: bool)
    ensures
        r == folds_to_text(a@, lit@),
{
    let b = chars_of(lit);
    if a.len() != b.len() {
        return false;
    }
    let mut i: usize = 0;
    while i < a.len()
        invariant
            a@.len() == b@.len(),
            b@ == lit@,
            i <= a@.len(),
            forall|k: int| 0 <= k < i ==> lower_code(a@[k]) == (b@[k] as u32) as int,
        decreases a.len() - i,
    {
        let c = a[i];
        let code: u32 = if 'A' <= c && c <= 'Z' {
            (c as u32) + 32
        } else {
            c as u32
        };
        let d = b[i];
        if code != (d as u32) {
            return false;
        }
        i += 1;
    }
    true
}


/// The code of the character at `i`, ASCII letters lowered.
fn lower_code_at(s: &Vec<char>, i: usize) -> (r: u32)
    requires
        i < s@.len(),
    ensures
        r as int == lower_code(s@[i as int]),
{
    let c = s[i];
    if 'A' <= c && c <= 'Z' {
        (c as u32) + 32
    } else {
        c as u32
    }
}

/// Whether a character code is an ASCII digit.
pub open spec fn is_digit_code(c: int) -> bool {
    48 <= c && c <= 57
}

/// The codes of `s`, ASCII letters lowered.
pub open spec fn lowered(s: Seq<char>) -> Seq<int> {
    Seq::new(s.len(), |i: int| lower_code(s[i]))
}

/// The value of a run of decimal digits.
pub open spec fn digits_value(d: Seq<int>) -> nat
    decreases d.len(),
{
    if d.len() == 0 {
        0
    } else {
        digits_value(d.drop_last()) * 10 + (d.last() - 48) as nat
    }
}

pub open spec fn all_digits(d: Seq<int>) -> bool {
    forall|i: int| 0 <= i < d.len() ==> is_digit_code(#[trigger] d[i])
}

/// The character codes of `s`.
pub open spec fn codes(s: Seq<char>) -> Seq<int> {
    Seq::new(s.len(), |i: int| (s[i] as u32) as int)
}

/// The digits part of unsigned number text: the codes after an optional `+`.
pub open spec fn unsigned_digits(c: Seq<int>) -> Seq<int> {
    if c.len() > 0 && c[0] == 43 {
        c.drop_first()
    } else {
        c
    }
}

/// What `u32::from_str` accepts: an optional `+`, then one or more ASCII
/// digits whose value fits in a `u32`; `None` for any other text.
pub open spec fn u32_value(s: Seq<char>) -> Option<u32> {
    let d = unsigned_digits(codes(s));
    if d.len() > 0 && all_digits(d) && digits_value(d) <= u32::MAX {
        Some(digits_value(d) as u32)
    } else {
        None
    }
}

proof fn lemma_digits_prefix_le(d: Seq<int>, i: int)
    requires
        all_digits(d),
        0 <= i <= d.len(),
    ensures
        digits_value(d.take(i)) <= digits_value(d),
    decreases d.len(),
{
    if i < d.len() {
        let p = d.drop_last();
        assert(p.take(i) =~= d.take(i));
        assert(all_digits(p));
        lemma_digits_prefix_le(p, i);
    } else {
        assert(d.take(i) =~= d);
    }
}

/// Parses text as `u32::from_str` does.
pub fn parse_u32(s: &Vec<char>) -> (r: Option<u32>)
    ensures
        r == u32_value(s@),
{
    let ghost c = codes(s@);
    let n = s.len();
    let start: usize = if n > 0 && (s[0] as u32) == 43 { 1 } else { 0 };
    let ghost d = unsigned_digits(c);
    assert(d =~= c.subrange(start as int, n as int));
    if start >= n {
        return None;
    }
    let mut acc: u64 = 0;
    let mut i: usize = start;
    while i < n
        invariant
            n == s@.len(),
            c == codes(s@),
            d == unsigned_digits(c),
            start <= i <= n,
            d == c.subrange(start as int, n as int),
            all_digits(d.take(i - start)),
            acc as nat == digits_value(d.take(i - start)),
            acc <= u32::MAX,
        decreases n - i,
    {
        let code: u32 = s[i] as u32;
        if code < 48 || code > 57 {
            assert(d[i - start] == code as int);
            assert(!all_digits(d)) by {
                assert(!is_digit_code(d[i - start]));
            }
            return None;
        }
        let next: u64 = acc * 10 + (code - 48) as u64;
        assert(d.take(i + 1 - start).drop_last() =~= d.take(i - start));
        assert(all_digits(d.take(i + 1 - start)));
        if next > 0xffff_ffff {
            proof {
                if all_digits(d) {
                    lemma_digits_prefix_le(d, i + 1 - start);
                }
            }
            return None;
        }
        acc = next;
        i += 1;
    }
    assert(d.take(n - start) =~= d);
    Some(acc as u32)
}

/// Whether the codes form the mantissa of a decimal float: digits with at
/// most one `.`, and at least one digit.
pub open spec fn mantissa_ok(m: Seq<int>) -> bool {
    &&& forall|i: int| 0 <= i < m.len() ==> is_digit_code(#[trigger] m[i]) || m[i] == 46
    &&& forall|i: int, j: int| 0 <= i < j < m.len() && m[i] == 46 ==> m[j] != 46
    &&& exists|i: int| 0 <= i < m.len() && is_digit_code(#[trigger] m[i])
}

/// Whether the codes form an exponent's digits: an optional sign and one or more digits.
pub open spec fn exponent_ok(x: Seq<int>) -> bool {
    let y = if x.len() > 0 && (x[0] == 43 || x[0] == 45) { x.drop_first() } else { x };
    y.len() > 0 && all_digits(y)
}

pub open spec fn number_ok(b: Seq<int>) -> bool {
    ||| mantissa_ok(b)
    ||| exists|k: int|
        0 <= k < b.len() && #[trigger] b[k] == 101 && mantissa_ok(b.subrange(0, k))
            && exponent_ok(b.subrange(k + 1, b.len() as int))
}

/// What `f64::from_str` accepts, as its documentation gives the grammar for
/// the lowered text: an optional sign, then `inf`, `infinity`, `nan`, or a
/// decimal number with an optional exponent.
pub open spec fn float_text(s: Seq<char>) -> bool {
    let l = lowered(s);
    let b = if l.len() > 0 && (l[0] == 43 || l[0] == 45) { l.drop_first() } else { l };
    ||| b == seq![105int, 110, 102]
    ||| b == seq![105int, 110, 102, 105, 110, 105, 116, 121]
    ||| b == seq![110int, 97, 110]
    ||| number_ok(b)
}

/// Whether `l[from..to]` equals the given codes.
fn codes_are(s: &Vec<char>, from: usize, lit: &[u32]) -> (r: bool)
    requires
        from <= s@.len(),
    ensures
        r == (lowered(s@).subrange(from as int, s@.len() as int) == lit@.map_values(
            |x: u32| x as int,
        )),
{
    let ghost l = lowered(s@).subrange(from as int, s@.len() as int);
    let ghost t = lit@.map_values(|x: u32| x as int);
    let n = s.len();
    if n - from != lit.len() {
        assert(l.len() != t.len());
        return false;
    }
    let mut i: usize = 0;
    while i < lit.len()
        invariant
            n == s@.len(),
            from + lit@.len() == s@.len(),
            l == lowered(s@).subrange(from as int, s@.len() as int),
            t == lit@.map_values(|x: u32| x as int),
            i <= lit@.len(),
            forall|k: int| 0 <= k < i ==> l[k] == t[k],
        decreases lit.len() - i,
    {
        assert(from + i < s@.len());
        let idx: usize = from + i;
        let code = lower_code_at(s, idx);
        if code != lit[i] {
            assert(l[i as int] != t[i as int]);
            return false;
        }
        i += 1;
    }
    assert(l =~= t);
    true
}

/// Checks `mantissa_ok` on `lowered(s)[from..to]`.
fn mantissa_check(s: &Vec<char>, from: usize, to: usize) -> (r: bool)
    requires
        from <= to <= s@.len(),
    ensures
        r == mantissa_ok(lowered(s@).subrange(from as int, to as int)),
{
    let ghost m = lowered(s@).subrange(from as int, to as int);
    let mut i: usize = from;
    let mut dots: usize = 0;
    let mut digits: usize = 0;
    let ghost mut dot_at: int = 0;
    let ghost mut digit_at: int = 0;
    while i < to
        invariant
            from <= i <= to <= s@.len(),
            m == lowered(s@).subrange(from as int, to as int),
            forall|k: int| 0 <= k < i - from ==> is_digit_code(#[trigger] m[k]) || m[k] == 46,
            dots <= 1,
            dots == 0 ==> forall|k: int| 0 <= k < i - from ==> m[k] != 46,
            dots == 1 ==> 0 <= dot_at < i - from && m[dot_at] == 46,
            dots == 1 ==> forall|k: int| 0 <= k < i - from && k != dot_at ==> m[k] != 46,
            digits <= i - from,
            digits == 0 ==> forall|k: int| 0 <= k < i - from ==> !is_digit_code(m[k]),
            digits > 0 ==> 0 <= digit_at < i - from && is_digit_code(m[digit_at]),
        decreases to - i,
    {
        let code = lower_code_at(s, i);
        assert(m[i - from] == code as int);
        if code == 46 {
            if dots == 1 {
                assert(m[dot_at] == 46 && m[i - from] == 46 && dot_at < i - from);
                return false;
            }
            dots = 1;
            proof {
                dot_at = i - from;
            }
        } else if 48 <= code && code <= 57 {
            digits += 1;
            proof {
                digit_at = i - from;
            }
        } else {
            return false;
        }
        i += 1;
    }
    if digits == 0 {
        assert(!(exists|k: int| 0 <= k < m.len() && is_digit_code(#[trigger] m[k])));
        return false;
    }
    assert(is_digit_code(m[digit_at]));
    true
}

/// Checks `exponent_ok` on `lowered(s)[from..]`.
fn exponent_check(s: &Vec<char>, from: usize) -> (r: bool)
    requires
        from <= s@.len(),
    ensures
        r == exponent_ok(lowered(s@).subrange(from as int, s@.len() as int)),
{
    let ghost x = lowered(s@).subrange(from as int, s@.len() as int);
    let n = s.len();
    let mut i: usize = from;
    if i < n {
        let c0 = lower_code_at(s, i);
        if c0 == 43 || c0 == 45 {
            i += 1;
        }
    }
    let ghost y = if x.len() > 0 && (x[0] == 43 || x[0] == 45) { x.drop_first() } else { x };
    assert(y =~= lowered(s@).subrange(i as int, n as int));
    if i >= n {
        assert(y.len() == 0);
        return false;
    }
    let start = i;
    while i < n
        invariant
            start <= i <= n,
            n == s@.len(),
            y == lowered(s@).subrange(start as int, n as int),
            x == lowered(s@).subrange(from as int, s@.len() as int),
            y == (if x.len() > 0 && (x[0] == 43 || x[0] == 45) { x.drop_first() } else { x }),
            forall|k: int| 0 <= k < i - start ==> is_digit_code(#[trigger] y[k]),
        decreases n - i,
    {
        let code = lower_code_at(s, i);
        assert(y[i - start] == code as int);
        if code < 48 || code > 57 {
            assert(!all_digits(y)) by {
                assert(!is_digit_code(y[i - start]));
            }
            return false;
        }
        i += 1;
    }
    true
}

/// Whether `f64::from_str` accepts the text (see `float_text`).
pub fn is_float_text(s: &Vec<char>) -> (r: bool)
    ensures
        r == float_text(s@),
{
    let ghost l = lowered(s@);
    let n = s.len();
    let mut from: usize = 0;
    if n > 0 {
        let c0 = lower_code_at(s, 0);
        if c0 == 43 || c0 == 45 {
            from = 1;
        }
    }
    let ghost b = if l.len() > 0 && (l[0] == 43 || l[0] == 45) { l.drop_first() } else { l };
    assert(b =~= l.subrange(from as int, n as int));
    let inf: [u32; 3] = [105, 110, 102];
    let infinity: [u32; 8] = [105, 110, 102, 105, 110, 105, 116, 121];
    let nan: [u32; 3] = [110, 97, 110];
    let is_inf = codes_are(s, from, &inf);
    let is_infinity = codes_are(s, from, &infinity);
    let is_nan = codes_are(s, from, &nan);
    assert(inf@.map_values(|x: u32| x as int) =~= seq![105int, 110, 102]);
    assert(infinity@.map_values(|x: u32| x as int) =~= seq![105int, 110, 102, 105, 110, 105, 116, 121]);
    assert(nan@.map_values(|x: u32| x as int) =~= seq![110int, 97, 110]);
    if is_inf || is_infinity || is_nan {
        return true;
    }
    // find the first `e`
    let mut k: usize = from;
    let mut found = false;
    while k < n && !found
        invariant
            from <= k <= n,
            n == s@.len(),
            l == lowered(s@),
            found ==> k < n && l[k as int] == 101,
            forall|j: int| from <= j < k ==> l[j] != 101,
        decreases n - k + (if found { 0int } else { 1int }),
    {
        let code = lower_code_at(s, k);
        if code == 101 {
            found = true;
        } else {
            k += 1;
        }
    }
    if k == n {
        let r = mantissa_check(s, from, n);
        proof {
            if !r {
                assert forall|j: int| 0 <= j < b.len() implies b[j] != 101 by {
                    assert(b[j] == l[from + j]);
                }
            }
        }
        return r;
    }
    assert(l[k as int] == 101);
    let m_ok = mantissa_check(s, from, k);
    let x_ok = exponent_check(s, k + 1);
    let ghost kb: int = k - from;
    assert(b.subrange(0, kb) =~= l.subrange(from as int, k as int));
    assert(b.subrange(kb + 1, b.len() as int) =~= l.subrange(k + 1, n as int));
    assert(b[kb] == 101);
    proof {
        // `b` holds an `e`, so it is no bare mantissa; and any other `e` lies after
        // the first, where the mantissa before it would hold an `e`
        assert(!mantissa_ok(b)) by {
            assert(!(is_digit_code(b[kb]) || b[kb] == 46));
        }
        if !(m_ok && x_ok) {
            assert forall|j: int|
                0 <= j < b.len() && #[trigger] b[j] == 101 && mantissa_ok(b.subrange(0, j))
                implies !exponent_ok(b.subrange(j + 1, b.len() as int)) by {
                if j < kb {
                    assert(b[j] == l[from + j]);
                } else if j > kb {
                    let mm = b.subrange(0, j);
                    assert(mm[kb] == 101);
                    assert(!(is_digit_code(mm[kb]) || mm[kb] == 46));
                }
            }
        }
    }
    m_ok && x_ok
}

/// Whether `s` starts with the characters of `lit`.
pub fn starts_with_lit(s: &Vec<char>, lit: &str) -> (r: bool)
    ensures
        r == (lit@.len() <= s@.len() && s@.take(lit@.len() as int) == lit@),
{
    let b = chars_of(lit);
    if b.len() > s.len() {
        return false;
    }
    let mut i: usize = 0;
    while i < b.len()
        invariant
            b@ == lit@,
            b@.len() <= s@.len(),
            i <= b@.len(),
            forall|k: int| 0 <= k < i ==> s@[k] == b@[k],
        decreases b.len() - i,
    {
        if s[i] != b[i] {
            assert(s@.take(b@.len() as int)[i as int] != b@[i as int]);
            return false;
        }
        i += 1;
    }
    assert(s@.take(b@.len() as int) =~= b@);
    true
}

/// The characters `s[from..]`.
pub fn chars_from(s: &Vec<char>, from: usize) -> (r: Vec<char>)
    requires
        from <= s@.len(),
    ensures
        r@ == s@.subrange(from as int, s@.len() as int),
{
    let mut r: Vec<char> = Vec::new();
    let mut i: usize = from;
    while i < s.len()
        invariant
            from <= i <= s@.len(),
            r@ == s@.subrange(from as int, i as int),
        decreases s.len() - i,
    {
        r.push(s[i]);
        assert(s@.subrange(from as int, i + 1) == s@.subrange(from as int, i as int).push(
            s@[i as int],
        ));
        i += 1;
    }
    r
}

} // verus!
