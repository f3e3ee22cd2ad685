//! Decimal and hexadecimal text, as the store and the status document hold it.
use vstd::prelude::*;

verus! {

/// The character of a decimal digit.
pub open spec fn digit_char(d: nat) -> char {
    if d == 0 { '0' }
    else if d == 1 { '1' }
    else if d == 2 { '2' }
    else if d == 3 { '3' }
    else if d == 4 { '4' }
    else if d == 5 { '5' }
    else if d == 6 { '6' }
    else if d == 7 { '7' }
    else if d == 8 { '8' }
    else { '9' }
}

pub open spec fn is_digit(c: char) -> bool {
    '0' <= c && c <= '9'
}

pub open spec fn digit_value(c: char) -> nat {
    (c as u32 - '0' as u32) as nat
}

/// The shortest decimal text of `n`.
pub open spec fn decimal(n: nat) -> Seq<char>
    decreases n,
{
    if n < 10 {
        seq![digit_char(n)]
    } else {
        decimal(n / 10).push(digit_char(n % 10))
    }
}

pub open spec fn all_digits(s: Seq<char>) -> bool {
    forall|i: int| 0 <= i < s.len() ==> is_digit(#[trigger] s[i])
}

/// The number that a sequence of decimal digits spells.
pub open spec fn digits_value(s: Seq<char>) -> nat
    decreases s.len(),
{
    if s.len() == 0 {
        0
    } else {
        digits_value(s.drop_last()) * 10 + digit_value(s.last())
    }
}

/// The digits of a decimal integer text: an optional leading `+`, then the rest.
pub open spec fn unsigned_digits(s: Seq<char>) -> Seq<char> {
    if s.len() > 0 && s[0] == '+' {
        s.drop_first()
    } else {
        s
    }
}

/// The value of a decimal text that fits in a `u64`: one or more digits after
/// an optional `+`, and nothing else.
pub open spec fn parse_decimal(s: Seq<char>) -> Option<u64> {
    let d = unsigned_digits(s);
    if d.len() > 0 && all_digits(d) && digits_value(d) <= u64::MAX {
        Some(digits_value(d) as u64)
    } else {
        None
    }
}

pub open spec fn hex_char(d: nat) -> char {
    if d < 10 {
        digit_char(d)
    } else if d == 10 { 'a' }
    else if d == 11 { 'b' }
    else if d == 12 { 'c' }
    else if d == 13 { 'd' }
    else if d == 14 { 'e' }
    else { 'f' }
}

/// Two lower-case hexadecimal digits for each byte, high digit first.
pub open spec fn hex(b: Seq<u8>) -> Seq<char>
    decreases b.len(),
{
    if b.len() == 0 {
        Seq::empty()
    } else {
        hex(b.drop_last()) + seq![hex_char(b.last() as nat / 16), hex_char(b.last() as nat % 16)]
    }
}

pub open spec fn is_hex_char(c: char) -> bool {
    ('0' <= c && c <= '9') || ('a' <= c && c <= 'f')
}

fn digit_str(d: u64) -> (r: &'static str)
    requires
        d < 10,
    ensures
        r@ == seq![digit_char(d as nat)],
{
    proof {
        reveal_strlit("0");
        reveal_strlit("1");
        reveal_strlit("2");
        reveal_strlit("3");
        reveal_strlit("4");
        reveal_strlit("5");
        reveal_strlit("6");
        reveal_strlit("7");
        reveal_strlit("8");
        reveal_strlit("9");
    }
    if d == 0 { "0" }
    else if d == 1 { "1" }
    else if d == 2 { "2" }
    else if d == 3 { "3" }
    else if d == 4 { "4" }
    else if d == 5 { "5" }
    else if d == 6 { "6" }
    else if d == 7 { "7" }
    else if d == 8 { "8" }
    else { "9" }
}

fn hex_str(d: u8) -> (r: &'static str)
    requires
        d < 16,
    ensures
        r@ == seq![hex_char(d as nat)],
{
    proof {
        reveal_strlit("a");
        reveal_strlit("b");
        reveal_strlit("c");
        reveal_strlit("d");
        reveal_strlit("e");
        reveal_strlit("f");
    }
    if d < 10 { digit_str(d as u64) }
    else if d == 10 { "a" }
    else if d == 11 { "b" }
    else if d == 12 { "c" }
    else if d == 13 { "d" }
    else if d == 14 { "e" }
    else { "f" }
}

/// Append the decimal text of `n` to `out`.
pub fn push_decimal(out: &mut String, n: u64)
    ensures
        final(out)@ == old(out)@ + decimal(n as nat),
    decreases n,
{
    if n >= 10 {
        push_decimal(out, n / 10);
    }
    out.append(digit_str(n % 10));
    assert(final(out)@ =~= old(out)@ + decimal(n as nat));
}

/// The decimal text of `n`.
pub fn decimal_string(n: u64) -> (r: String)
    ensures
        r@ == decimal(n as nat),
{
    let mut s = String::new();
    push_decimal(&mut s, n);
    assert(s@ =~= decimal(n as nat));
    s
}

/// The lower-case hexadecimal text of `b`.
pub fn hex_string(b: &[u8]) -> (r: String)
    ensures
        r@ == hex(b@),
{
    let mut s = String::new();
    let mut i: usize = 0;
    while i < b.len()
        invariant
            i <= b@.len(),
            s@ == hex(b@.subrange(0, i as int)),
        decreases b@.len() - i,
    {
        let x = b[i];
        s.append(hex_str(x / 16));
        s.append(hex_str(x % 16));
        assert(b@.subrange(0, i + 1).drop_last() =~= b@.subrange(0, i as int));
        i = i + 1;
    }
    assert(b@.subrange(0, b@.len() as int) =~= b@);
    s
}

/// Read a decimal integer: one or more digits after an optional `+`.
pub fn parse_u64(s: &str) -> (r: Option<u64>)
    ensures
        r == parse_decimal(s@),
{
    let n = s.unicode_len();
    let mut i: usize = 0;
    if n > 0 && s.get_char(0) == '+' {
        i = 1;
    }
    let start = i;
    let ghost d = unsigned_digits(s@);
    assert(d =~= s@.subrange(start as int, n as int));
    if start == n {
        return None;
    }
    let mut acc: u64 = 0;
    let mut overflow = false;
    while i < n
        invariant
            start <= i <= n,
            n == s@.len(),
            d == s@.subrange(start as int, n as int),
            d == unsigned_digits(s@),
            all_digits(d.subrange(0, i - start)),
            !overflow ==> acc as nat == digits_value(d.subrange(0, i - start)),
            overflow ==> digits_value(d.subrange(0, i - start)) > u64::MAX,
        decreases n - i,
    {
        let c = s.get_char(i);
        let ghost k = i - start;
        if c < '0' || c > '9' {
            assert(d[k] == c);
            assert(!is_digit(d[k]));
            assert(!all_digits(d));
            return None;
        }
        let v: u64 = (c as u32 - '0' as u32) as u64;
        assert(d.subrange(0, k + 1).drop_last() =~= d.subrange(0, k));
        assert(d.subrange(0, k + 1).last() == c);
        let ghost prev = digits_value(d.subrange(0, k));
        assert(digits_value(d.subrange(0, k + 1)) == prev * 10 + v);
        if !overflow {
            if acc > (u64::MAX - v) / 10 {
                assert(acc * 10 + v > u64::MAX) by (nonlinear_arith)
                    requires acc > (u64::MAX - v) / 10, v <= 9;
                overflow = true;
            } else {
                assert(acc * 10 + v <= u64::MAX) by (nonlinear_arith)
                    requires acc <= (u64::MAX - v) / 10, v <= 9;
                acc = acc * 10 + v;
            }
        } else {
            assert(prev * 10 + v >= prev) by (nonlinear_arith);
        }
        assert forall|j: int| 0 <= j < k + 1 implies is_digit(#[trigger] d.subrange(0, k + 1)[j]) by {
            if j < k {
                assert(d.subrange(0, k + 1)[j] == d.subrange(0, k)[j]);
            }
        };
        i = i + 1;
    }
    assert(d.subrange(0, d.len() as int) =~= d);
    if overflow {
        None
    } else {
        Some(acc)
    }
}


pub open spec fn is_sign(c: char) -> bool {
    c == '+' || c == '-'
}

pub open spec fn lower_ascii(c: char) -> char {
    if 'A' <= c && c <= 'Z' {
        ((c as u8) + 32) as char
    } else {
        c
    }
}

/// `inf`, `infinity` or `nan`, in any case.
pub open spec fn special_float(b: Seq<char>) -> bool {
    let l = b.map_values(|c: char| lower_ascii(c));
    l == seq!['i', 'n', 'f'] || l == seq!['i', 'n', 'f', 'i', 'n', 'i', 't', 'y'] || l == seq![
        'n',
        'a',
        'n',
    ]
}

pub open spec fn is_exp_mark(c: char) -> bool {
    c == 'e' || c == 'E'
}

/// The index of the first exponent mark in `b`, or its length.
pub open spec fn exp_index(b: Seq<char>) -> int
    decreases b.len(),
{
    if b.len() == 0 {
        0
    } else if is_exp_mark(b[0]) {
        0
    } else {
        1 + exp_index(b.drop_first())
    }
}

/// Digits, digits with a point, or a point with digits: at least one digit.
pub open spec fn mantissa(x: Seq<char>) -> bool {
    (x.len() > 0 && all_digits(x)) || exists|p: int|
        0 <= p < x.len() && #[trigger] x[p] == '.' && x.len() > 1 && all_digits(x.subrange(0, p))
            && all_digits(x.subrange(p + 1, x.len() as int))
}

/// An exponent mark, an optional sign, one or more digits.
pub open spec fn exponent(y: Seq<char>) -> bool {
    y.len() >= 2 && is_exp_mark(y[0]) && {
        let z = y.drop_first();
        let d = if is_sign(z[0]) { z.drop_first() } else { z };
        d.len() > 0 && all_digits(d)
    }
}

/// The text of a decimal number as `f64::from_str` accepts it: an optional
/// sign, then `inf`, `infinity` or `nan` in any case, or a mantissa with an
/// optional exponent.
pub open spec fn float_text(s: Seq<char>) -> bool {
    let b = if s.len() > 0 && is_sign(s[0]) { s.drop_first() } else { s };
    let m = exp_index(b);
    special_float(b) || (mantissa(b.subrange(0, m)) && (m == b.len() || exponent(
        b.subrange(m, b.len() as int),
    )))
}

fn lower_char(c: char) -> (r: char)
    ensures
        r == lower_ascii(c),
{
    if 'A' <= c && c <= 'Z' {
        ((c as u8) + 32) as char
    } else {
        c
    }
}

/// Whether `s[from..]` spells `word` (lower-case letters), in any case.
fn matches_word(s: &str, from: usize, n: usize, word: &Vec<char>) -> (r: bool)
    requires
        from <= n,
        n == s@.len(),
    ensures
        r == (s@.subrange(from as int, n as int).map_values(|c: char| lower_ascii(c)) == word@),
{
    let ghost b = s@.subrange(from as int, n as int).map_values(|c: char| lower_ascii(c));
    if n - from != word.len() {
        assert(b.len() != word@.len());
        return false;
    }
    let mut i: usize = 0;
    while i < word.len()
        invariant
            i <= word@.len(),
            from + word@.len() == n,
            n == s@.len(),
            b == s@.subrange(from as int, n as int).map_values(|c: char| lower_ascii(c)),
            forall|j: int| 0 <= j < i ==> #[trigger] b[j] == word@[j],
        decreases word@.len() - i,
    {
        if lower_char(s.get_char(from + i)) != word[i] {
            assert(b[i as int] != word@[i as int]);
            return false;
        }
        i = i + 1;
    }
    assert(b =~= word@);
    true
}


proof fn lemma_exp_index(b: Seq<char>)
    ensures
        0 <= exp_index(b) <= b.len(),
        forall|j: int| 0 <= j < exp_index(b) ==> !is_exp_mark(#[trigger] b[j]),
        exp_index(b) < b.len() ==> is_exp_mark(b[exp_index(b)]),
    decreases b.len(),
{
    if b.len() > 0 && !is_exp_mark(b[0]) {
        lemma_exp_index(b.drop_first());
        assert forall|j: int| 0 <= j < exp_index(b) implies !is_exp_mark(#[trigger] b[j]) by {
            if j > 0 {
                assert(b[j] == b.drop_first()[j - 1]);
            }
        };
    }
}

/// A text with a character that is neither a digit nor the only point is no
/// mantissa.
proof fn lemma_not_mantissa(x: Seq<char>, k: int, pt: int)
    requires
        0 <= k < x.len(),
        !is_digit(x[k]),
        x[k] == '.' ==> (0 <= pt < x.len() && pt != k && x[pt] == '.'),
    ensures
        !mantissa(x),
{
    assert(!all_digits(x) || x.len() == 0) by {
        assert(!is_digit(x[k]));
    };
    if exists|p: int|
        0 <= p < x.len() && #[trigger] x[p] == '.' && x.len() > 1 && all_digits(x.subrange(0, p))
            && all_digits(x.subrange(p + 1, x.len() as int)) {
        let p = choose|p: int|
            0 <= p < x.len() && #[trigger] x[p] == '.' && x.len() > 1 && all_digits(
                x.subrange(0, p),
            ) && all_digits(x.subrange(p + 1, x.len() as int));
        let bad = if k != p { k } else { pt };
        assert(!is_digit(x[bad]));
        if bad < p {
            assert(x.subrange(0, p)[bad] == x[bad]);
        } else {
            assert(x.subrange(p + 1, x.len() as int)[bad - p - 1] == x[bad]);
        }
    }
}

/// Digits, then possibly a point and digits: a mantissa exactly when there is
/// a digit.
proof fn lemma_mantissa_shape(x: Seq<char>, int_len: int, point: bool)
    requires
        0 <= int_len <= x.len(),
        all_digits(x.subrange(0, int_len)),
        point ==> int_len < x.len() && x[int_len] == '.' && all_digits(
            x.subrange(int_len + 1, x.len() as int),
        ),
        !point ==> int_len == x.len(),
    ensures
        mantissa(x) == (x.len() > 0 && (!point || x.len() > 1)),
{
    if !point {
        assert(x.subrange(0, int_len) =~= x);
    } else {
        if x.len() > 1 {
            assert(x[int_len] == '.');
        } else {
            assert(x =~= seq!['.']);
            assert(!is_digit(x[0]));
            assert(!all_digits(x));
        }
    }
}

/// The end of the run of digits that starts at `from`.
fn skip_digits(s: &str, from: usize, n: usize) -> (r: usize)
    requires
        from <= n,
        n == s@.len(),
    ensures
        from <= r <= n,
        all_digits(s@.subrange(from as int, r as int)),
        r < n ==> !is_digit(s@[r as int]),
{
    let mut i: usize = from;
    let mut more = true;
    while more && i < n
        invariant
            from <= i <= n,
            n == s@.len(),
            all_digits(s@.subrange(from as int, i as int)),
            !more ==> i < n && !is_digit(s@[i as int]),
        decreases n - i + (if more { 1int } else { 0int }),
    {
        let c = s.get_char(i);
        if '0' <= c && c <= '9' {
            assert forall|j: int| 0 <= j < i + 1 - from implies is_digit(
                #[trigger] s@.subrange(from as int, i + 1)[j],
            ) by {
                if j < i - from {
                    assert(s@.subrange(from as int, i + 1)[j] == s@.subrange(from as int, i as int)[j]);
                }
            };
            i = i + 1;
        } else {
            more = false;
        }
    }
    i
}

/// Whether `s[from..n]` is an exponent.
fn exponent_ok(s: &str, from: usize, n: usize) -> (r: bool)
    requires
        from < n,
        n == s@.len(),
        is_exp_mark(s@[from as int]),
    ensures
        r == exponent(s@.subrange(from as int, n as int)),
{
    let ghost y = s@.subrange(from as int, n as int);
    let mut j: usize = from + 1;
    if j < n && (s.get_char(j) == '+' || s.get_char(j) == '-') {
        j = j + 1;
    }
    let exp_start = j;
    let ghost d = s@.subrange(exp_start as int, n as int);
    proof {
        if y.len() >= 2 {
            let z = y.drop_first();
            assert(d =~= (if is_sign(z[0]) { z.drop_first() } else { z }));
        }
    }
    if j == n {
        assert(d.len() == 0);
        return false;
    }
    let e = skip_digits(s, j, n);
    if e < n {
        assert(d[e - exp_start] == s@[e as int]);
        assert(!is_digit(d[e - exp_start]));
        return false;
    }
    assert(d =~= s@.subrange(exp_start as int, e as int));
    true
}

/// Whether the text is a number that `f64::from_str` reads.
pub fn is_float_text(s: &str) -> (r: bool)
    ensures
        r == float_text(s@),
{
    let n = s.unicode_len();
    let mut i: usize = 0;
    if n > 0 {
        let c = s.get_char(0);
        if c == '+' || c == '-' {
            i = 1;
        }
    }
    let start = i;
    let ghost b = s@.subrange(start as int, n as int);
    assert(b =~= (if s@.len() > 0 && is_sign(s@[0]) { s@.drop_first() } else { s@ }));
    let inf = vec!['i', 'n', 'f'];
    let infinity = vec!['i', 'n', 'f', 'i', 'n', 'i', 't', 'y'];
    let nan = vec!['n', 'a', 'n'];
    if matches_word(s, start, n, &inf) || matches_word(s, start, n, &infinity) || matches_word(
        s,
        start,
        n,
        &nan,
    ) {
        return true;
    }
    assert(!special_float(b));
    i = skip_digits(s, i, n);
    let int_end = i;
    let mut frac_end = i;
    let mut point = false;
    if i < n && s.get_char(i) == '.' {
        point = true;
        i = skip_digits(s, i + 1, n);
        frac_end = i;
    }
    proof {
        assert(b.subrange(0, int_end - start) =~= s@.subrange(start as int, int_end as int));
        if point {
            assert(b.subrange(int_end + 1 - start, frac_end - start) =~= s@.subrange(
                int_end + 1,
                frac_end as int,
            ));
            assert(b[int_end - start] == s@[int_end as int]);
        }
        if i < n {
            assert(b[i - start] == s@[i as int]);
        }
    }
    let digits = (int_end - start) + (if point { frac_end - int_end - 1 } else { 0 });
    let ghost k: int = (i - start) as int;
    proof {
        lemma_exp_index(b);
        let pt: int = (int_end - start) as int;
        assert forall|j: int| 0 <= j < k implies (is_digit(#[trigger] b[j]) || (point && j == pt)) by {
            if j < pt {
                assert(b.subrange(0, pt)[j] == b[j]);
            } else if j > pt {
                assert(b.subrange(pt + 1, k)[j - pt - 1] == b[j]);
            } else if !point {
                assert(pt == k);
            }
        };
        assert(exp_index(b) >= k) by {
            if exp_index(b) < k {
                assert(is_exp_mark(b[exp_index(b)]));
            }
        };
        if point {
            assert(b.subrange(0, k).subrange(0, pt) =~= b.subrange(0, pt));
            assert(b.subrange(0, k).subrange(pt + 1, k) =~= b.subrange(pt + 1, k));
        } else {
            assert(b.subrange(0, k).subrange(0, pt) =~= b.subrange(0, pt));
        }
        lemma_mantissa_shape(b.subrange(0, k), pt, point);
    }
    if i == n {
        assert(b.subrange(0, k) =~= b);
        return digits > 0;
    }
    let c = s.get_char(i);
    if c != 'e' && c != 'E' {
        proof {
            let m = exp_index(b);
            assert(b[k] == c);
            assert(m > k);
            let x = b.subrange(0, m);
            assert(x[k] == c);
            assert(!is_digit(c));
            if c == '.' {
                assert(point);
                assert(x[int_end - start] == b[int_end - start]);
            }
            lemma_not_mantissa(x, k, int_end - start);
        }
        return false;
    }
    assert(b[k] == c);
    assert(exp_index(b) == k);
    if digits == 0 {
        return false;
    }
    assert(b.subrange(k, b.len() as int) =~= s@.subrange(i as int, n as int));
    exponent_ok(s, i, n)
}


proof fn lemma_digit_char(d: nat)
    requires
        d < 10,
    ensures
        is_digit(digit_char(d)),
        digit_value(digit_char(d)) == d,
{
}

/// Decimal text is digits only, and reads back as the number it spells.
pub proof fn lemma_decimal_parses(n: nat)
    requires
        n <= u64::MAX,
    ensures
        decimal(n).len() > 0,
        all_digits(decimal(n)),
        digits_value(decimal(n)) == n,
        parse_decimal(decimal(n)) == Some(n as u64),
    decreases n,
{
    lemma_digit_char(n % 10);
    let d = decimal(n);
    if n < 10 {
        assert(d.drop_last() =~= Seq::<char>::empty());
        assert(d.last() == digit_char(n));
        assert(digits_value(d) == digits_value(d.drop_last()) * 10 + digit_value(d.last()));
        assert(digits_value(Seq::<char>::empty()) == 0);
    } else {
        lemma_decimal_parses(n / 10);
        assert(d.drop_last() =~= decimal(n / 10));
        assert forall|i: int| 0 <= i < d.len() implies is_digit(#[trigger] d[i]) by {
            if i < d.len() - 1 {
                assert(d[i] == decimal(n / 10)[i]);
            }
        };
        assert((n / 10) * 10 + n % 10 == n) by (nonlinear_arith);
        assert(d.last() == digit_char(n % 10));
        assert(digits_value(d) == digits_value(d.drop_last()) * 10 + digit_value(d.last()));
    }
    assert(decimal(n)[0] != '+') by {
        assert(is_digit(decimal(n)[0]));
    };
    assert(unsigned_digits(decimal(n)) == decimal(n));
}

/// Hexadecimal text holds hex digits only.
pub proof fn lemma_hex_chars(b: Seq<u8>)
    ensures
        hex(b).len() == 2 * b.len(),
        forall|i: int| 0 <= i < hex(b).len() ==> is_hex_char(#[trigger] hex(b)[i]),
    decreases b.len(),
{
    if b.len() > 0 {
        lemma_hex_chars(b.drop_last());
        let h = hex(b);
        let p = hex(b.drop_last());
        assert forall|i: int| 0 <= i < h.len() implies is_hex_char(#[trigger] h[i]) by {
            if i < p.len() {
                assert(h[i] == p[i]);
            }
        };
    }
}

} // verus!
