//! Character-level helpers on strings: equality, trimming, decimal and
//! hexadecimal rendering, and unsigned decimal parsing.
use vstd::prelude::*;

verus! {

/// The characters for which `char::is_whitespace` holds (Unicode White_Space).
pub open spec fn is_white_space(c: char) -> bool {
    let u = c as u32;
    (9 <= u && u <= 13) || u == 32 || u == 0x85 || u == 0xa0 || u == 0x1680 || (0x2000 <= u
        && u <= 0x200a) || u == 0x2028 || u == 0x2029 || u == 0x202f || u == 0x205f || u == 0x3000
}

pub open spec fn is_ascii_digit(c: char) -> bool {
    '0' <= c && c <= '9'
}

pub open spec fn is_ascii_alnum(c: char) -> bool {
    ('a' <= c && c <= 'z') || ('A' <= c && c <= 'Z') || is_ascii_digit(c)
}

/// `s` with leading white space removed.
pub open spec fn trim_start(s: Seq<char>) -> Seq<char>
    decreases s.len(),
{
    if s.len() > 0 && is_white_space(s[0]) {
        trim_start(s.drop_first())
    } else {
        s
    }
}

/// `s` with trailing white space removed.
pub open spec fn trim_end(s: Seq<char>) -> Seq<char>
    decreases s.len(),
{
    if s.len() > 0 && is_white_space(s.last()) {
        trim_end(s.drop_last())
    } else {
        s
    }
}

/// `s` with white space removed at both ends, as `str::trim` does.
pub open spec fn trim(s: Seq<char>) -> Seq<char> {
    trim_end(trim_start(s))
}

/// The digit for `d` in base 16, lower case (and so in base 10 for `d < 10`).
pub open spec fn hex_digit(d: nat) -> char {
    if d == 0 {
        '0'
    } else if d == 1 {
        '1'
    } else if d == 2 {
        '2'
    } else if d == 3 {
        '3'
    } else if d == 4 {
        '4'
    } else if d == 5 {
        '5'
    } else if d == 6 {
        '6'
    } else if d == 7 {
        '7'
    } else if d == 8 {
        '8'
    } else if d == 9 {
        '9'
    } else if d == 10 {
        'a'
    } else if d == 11 {
        'b'
    } else if d == 12 {
        'c'
    } else if d == 13 {
        'd'
    } else if d == 14 {
        'e'
    } else {
        'f'
    }
}

/// The decimal rendering of `n`, without sign or leading zeros.
pub open spec fn decimal(n: nat) -> Seq<char>
    decreases n,
{
    if n < 10 {
        seq![hex_digit(n)]
    } else {
        decimal(n / 10).push(hex_digit(n % 10))
    }
}

/// The lower-case hexadecimal rendering of `n`, without leading zeros.
pub open spec fn hex(n: nat) -> Seq<char>
    decreases n,
{
    if n < 16 {
        seq![hex_digit(n)]
    } else {
        hex(n / 16).push(hex_digit(n % 16))
    }
}

/// `d` padded on the left with zeros to at least four characters.
pub open spec fn pad4(d: Seq<char>) -> Seq<char> {
    if d.len() < 4 {
        Seq::new((4 - d.len()) as nat, |i: int| '0') + d
    } else {
        d
    }
}

/// The numeric value of a decimal digit.
pub open spec fn digit_value(c: char) -> nat {
    ((c as u32) - ('0' as u32)) as nat
}

/// The value of a string of decimal digits.
pub open spec fn decimal_value(s: Seq<char>) -> nat
    decreases s.len(),
{
    if s.len() == 0 {
        0
    } else {
        decimal_value(s.drop_last()) * 10 + digit_value(s.last())
    }
}

pub open spec fn all_digits(s: Seq<char>) -> bool {
    forall|i: int| 0 <= i < s.len() ==> is_ascii_digit(#[trigger] s[i])
}

/// The digits that `u64::from_str` reads: one leading `+` is allowed.
pub open spec fn unsigned_digits(s: Seq<char>) -> Seq<char> {
    if s.len() > 0 && s[0] == '+' {
        s.drop_first()
    } else {
        s
    }
}

/// What `u64::from_str` returns for `s`.
pub open spec fn parse_u64(s: Seq<char>) -> Option<u64> {
    let d = unsigned_digits(s);
    if d.len() > 0 && all_digits(d) && decimal_value(d) <= u64::MAX {
        Some(decimal_value(d) as u64)
    } else {
        None
    }
}

/// The digit characters of `decimal(n)` are decimal digits.
pub proof fn lemma_decimal_digits(n: nat)
    ensures
        all_digits(decimal(n)),
        decimal(n).len() > 0,
        decimal_value(decimal(n)) == n,
    decreases n,
{
    if n < 10 {
        lemma_digit(n);
        assert(decimal(n) =~= seq![hex_digit(n)]);
        assert(decimal(n).drop_last() =~= Seq::<char>::empty());
        assert(decimal_value(Seq::<char>::empty()) == 0);
    } else {
        lemma_digit(n % 10);
        lemma_decimal_digits(n / 10);
        let d = decimal(n);
        assert(d == decimal(n / 10).push(hex_digit(n % 10)));
        assert(d.drop_last() =~= decimal(n / 10));
        assert(d.last() == hex_digit(n % 10));
        assert(decimal_value(d) == decimal_value(decimal(n / 10)) * 10 + digit_value(d.last()));
        assert forall|i: int| 0 <= i < d.len() implies is_ascii_digit(#[trigger] d[i]) by {
            if i < d.len() - 1 {
                assert(d[i] == decimal(n / 10)[i]);
            }
        }
    }
}

proof fn lemma_digit(d: nat)
    requires
        d < 10,
    ensures
        is_ascii_digit(hex_digit(d)),
        digit_value(hex_digit(d)) == d,
{
    assert('0' as u32 == 48);
    assert('9' as u32 == 57);
}

/// Parsing the decimal rendering of a `u64` gives it back.
pub proof fn lemma_parse_decimal(n: u64)
    ensures
        parse_u64(decimal(n as nat)) == Some(n),
{
    lemma_decimal_digits(n as nat);
    let d = decimal(n as nat);
    assert(d[0] != '+');
    assert(unsigned_digits(d) == d);
}

/// The decimal value of a prefix of digits is at most that of the whole.
pub proof fn lemma_decimal_value_prefix(s: Seq<char>, k: int)
    requires
        0 <= k <= s.len(),
        all_digits(s),
    ensures
        decimal_value(s.subrange(0, k)) <= decimal_value(s),
    decreases s.len() - k,
{
    if k < s.len() {
        lemma_decimal_value_prefix(s, k + 1);
        let p = s.subrange(0, k + 1);
        assert(p.drop_last() =~= s.subrange(0, k));
        assert(is_ascii_digit(s[k]));
    } else {
        assert(s.subrange(0, k) =~= s);
    }
}

/// Whether `c` is white space, as `char::is_whitespace` says.
pub fn is_white_space_char(c: char) -> (r: bool)
    ensures
        r == is_white_space(c),
{
    let u = c as u32;
    (9 <= u && u <= 13) || u == 32 || u == 0x85 || u == 0xa0 || u == 0x1680 || (0x2000 <= u && u
        <= 0x200a) || u == 0x2028 || u == 0x2029 || u == 0x202f || u == 0x205f || u == 0x3000
}

/// Whether two strings hold the same characters.
pub fn str_eq(a: &str, b: &str) -> (r: bool)
    ensures
        r == (a@ == b@),
{
    let sa = a.to_owned();
    let sb = b.to_owned();
    sa == sb
}

proof fn lemma_trim_start_step(s: Seq<char>, i: int)
    requires
        0 <= i < s.len(),
        is_white_space(s[i]),
    ensures
        trim_start(s.subrange(i, s.len() as int)) == trim_start(s.subrange(i + 1, s.len() as int)),
{
    let t = s.subrange(i, s.len() as int);
    assert(t.drop_first() =~= s.subrange(i + 1, s.len() as int));
}

proof fn lemma_trim_end_step(s: Seq<char>, j: int)
    requires
        0 < j <= s.len(),
        is_white_space(s[j - 1]),
    ensures
        trim_end(s.subrange(0, j)) == trim_end(s.subrange(0, j - 1)),
{
    let t = s.subrange(0, j);
    assert(t.drop_last() =~= s.subrange(0, j - 1));
}

/// `s` without leading and trailing white space, as `str::trim` returns it.
pub fn trim_str(s: &str) -> (r: &str)
    ensures
        r@ == trim(s@),
{
    let n = s.unicode_len();
    let mut i: usize = 0;
    assert(s@.subrange(0, n as int) =~= s@);
    while i < n && is_white_space_char(s.get_char(i))
        invariant
            n == s@.len(),
            0 <= i <= n,
            trim_start(s@) == trim_start(s@.subrange(i as int, n as int)),
        decreases n - i,
    {
        proof {
            lemma_trim_start_step(s@, i as int);
        }
        i = i + 1;
    }
    let ghost front = s@.subrange(i as int, n as int);
    proof {
        if i < n {
            assert(!is_white_space(front[0]));
        } else {
            assert(front.len() == 0);
        }
        assert(trim_start(s@) == front);
    }
    let mut j: usize = n;
    while j > i && is_white_space_char(s.get_char(j - 1))
        invariant
            n == s@.len(),
            i <= j <= n,
            front == s@.subrange(i as int, n as int),
            trim_end(front) == trim_end(s@.subrange(i as int, j as int)),
        decreases j - i,
    {
        proof {
            let t = s@.subrange(i as int, n as int);
            lemma_trim_end_step(t, (j - i) as int);
            assert(t.subrange(0, (j - i) as int) =~= s@.subrange(i as int, j as int));
            assert(t.subrange(0, (j - i - 1) as int) =~= s@.subrange(i as int, (j - 1) as int));
        }
        j = j - 1;
    }
    proof {
        let t = s@.subrange(i as int, j as int);
        if j > i {
            assert(t.last() == s@[j - 1]);
        }
        assert(trim_end(t) == t);
    }
    s.substring_char(i, j)
}

/// Appends one character to `s`.
///
/// Relies on `String::push`: the character is added at the end.
#[verifier::external_body]
pub(crate) fn push_char(s: &mut String, c: char)
    ensures
        final(s)@ == old(s)@.push(c),
{
    s.push(c)
}

fn hex_digit_char(d: u64) -> (c: char)
    requires
        d < 16,
    ensures
        c == hex_digit(d as nat),
{
    if d == 0 {
        '0'
    } else if d == 1 {
        '1'
    } else if d == 2 {
        '2'
    } else if d == 3 {
        '3'
    } else if d == 4 {
        '4'
    } else if d == 5 {
        '5'
    } else if d == 6 {
        '6'
    } else if d == 7 {
        '7'
    } else if d == 8 {
        '8'
    } else if d == 9 {
        '9'
    } else if d == 10 {
        'a'
    } else if d == 11 {
        'b'
    } else if d == 12 {
        'c'
    } else if d == 13 {
        'd'
    } else if d == 14 {
        'e'
    } else {
        'f'
    }
}

/// Appends the decimal rendering of `n` to `s`.
pub fn push_decimal(s: &mut String, n: u64)
    ensures
        final(s)@ == old(s)@ + decimal(n as nat),
    decreases n,
{
    if n >= 10 {
        push_decimal(s, n / 10);
    }
    push_char(s, hex_digit_char(n % 10));
    proof {
        if n >= 10 {
            assert(decimal(n as nat) == decimal((n / 10) as nat).push(hex_digit((n % 10) as nat)));
        } else {
            assert(decimal(n as nat) =~= seq![hex_digit(n as nat)]);
        }
        assert(s@ =~= old(s)@ + decimal(n as nat));
    }
}

/// Appends the lower-case hexadecimal rendering of `n` to `s`.
pub fn push_hex(s: &mut String, n: u64)
    ensures
        final(s)@ == old(s)@ + hex(n as nat),
    decreases n,
{
    if n >= 16 {
        push_hex(s, n / 16);
    }
    push_char(s, hex_digit_char(n % 16));
    proof {
        if n >= 16 {
            assert(hex(n as nat) == hex((n / 16) as nat).push(hex_digit((n % 16) as nat)));
        } else {
            assert(hex(n as nat) =~= seq![hex_digit(n as nat)]);
        }
        assert(s@ =~= old(s)@ + hex(n as nat));
    }
}

/// Appends `n` in lower-case hexadecimal, zero-padded to four digits, to `s`.
pub fn push_hex4(s: &mut String, n: u64)
    ensures
        final(s)@ == old(s)@ + pad4(hex(n as nat)),
{
    let mut digits = String::new();
    push_hex(&mut digits, n);
    assert(digits@ =~= hex(n as nat));
    let len = digits.as_str().unicode_len();
    let mut k: usize = len;
    assert(s@ =~= old(s)@ + Seq::new((k - len) as nat, |i: int| '0'));
    while k < 4
        invariant
            len == hex(n as nat).len(),
            len <= k <= 4 || (k == len && len > 4),
            s@ == old(s)@ + Seq::new((k - len) as nat, |i: int| '0'),
        decreases 4 - k,
    {
        push_char(s, '0');
        k = k + 1;
        assert(s@ =~= old(s)@ + Seq::new((k - len) as nat, |i: int| '0'));
    }
    s.append(digits.as_str());
    assert(s@ =~= old(s)@ + pad4(hex(n as nat)));
}

/// Reads an unsigned decimal number as `u64::from_str` does.
pub fn parse_u64_str(s: &str) -> (r: Option<u64>)
    ensures
        r == parse_u64(s@),
{
    let n = s.unicode_len();
    let mut start: usize = 0;
    if n > 0 && s.get_char(0) == '+' {
        start = 1;
    }
    let ghost d = unsigned_digits(s@);
    assert(d =~= s@.subrange(start as int, n as int));
    if start >= n {
        return None;
    }
    let mut value: u64 = 0;
    let mut i: usize = start;
    while i < n
        invariant
            n == s@.len(),
            start <= i <= n,
            start < n,
            d == s@.subrange(start as int, n as int),
            d == unsigned_digits(s@),
            forall|k: int| start <= k < i ==> is_ascii_digit(#[trigger] s@[k]),
            value as nat == decimal_value(s@.subrange(start as int, i as int)),
        decreases n - i,
    {
        let c = s.get_char(i);
        if !('0' <= c && c <= '9') {
            assert(d[i - start] == s@[i as int]);
            assert(!is_ascii_digit(d[i - start]));
            assert(!all_digits(d));
            assert(parse_u64(s@).is_none());
            return None;
        }
        let dv = (c as u32 - '0' as u32) as u64;
        let ghost p = s@.subrange(start as int, i as int + 1);
        assert(p.drop_last() =~= s@.subrange(start as int, i as int));
        assert(p.last() == c);
        if value > (u64::MAX - dv) / 10 {
            proof {
                assert(decimal_value(p) > u64::MAX);
                if all_digits(d) {
                    lemma_decimal_value_prefix(d, i - start + 1);
                    assert(d.subrange(0, i - start + 1) =~= p);
                }
                assert(parse_u64(s@).is_none());
            }
            return None;
        }
        value = value * 10 + dv;
        i = i + 1;
    }
    proof {
        assert(s@.subrange(start as int, i as int) =~= d);
        assert forall|k: int| 0 <= k < d.len() implies is_ascii_digit(#[trigger] d[k]) by {
            assert(d[k] == s@[k + start]);
        }
    }
    Some(value)
}

/// `a` equals the lower-case character `b`, ignoring ASCII case.
pub open spec fn ci_eq(a: char, b: char) -> bool {
    a == b || ('a' <= b && b <= 'z' && (a as u32) + 32 == (b as u32))
}

/// `t` starts with `p`, ignoring ASCII case (`p` in lower case).
pub open spec fn ci_prefix(t: Seq<char>, p: Seq<char>) -> bool {
    t.len() >= p.len() && forall|i: int| 0 <= i < p.len() ==> ci_eq(#[trigger] t[i], p[i])
}

/// `s` equals the lower-case `lit`, ignoring ASCII case.
pub open spec fn ci_equal(s: Seq<char>, lit: Seq<char>) -> bool {
    s.len() == lit.len() && ci_prefix(s, lit)
}

/// Whether `t` starts with `p` up to ASCII case.
pub fn starts_with_ci(t: &str, p: &str) -> (r: bool)
    ensures
        r == ci_prefix(t@, p@),
{
    let n = t.unicode_len();
    let m = p.unicode_len();
    if n < m {
        return false;
    }
    let mut i: usize = 0;
    while i < m
        invariant
            n == t@.len(),
            m == p@.len(),
            m <= n,
            0 <= i <= m,
            forall|j: int| 0 <= j < i ==> ci_eq(#[trigger] t@[j], p@[j]),
        decreases m - i,
    {
        let a = t.get_char(i);
        let b = p.get_char(i);
        if !(a == b || ('a' <= b && b <= 'z' && (a as u32) + 32 == (b as u32))) {
            return false;
        }
        i = i + 1;
    }
    true
}

/// Whether `s` equals the lower-case `lit`, ignoring ASCII case.
pub fn eq_ignore_case(s: &str, lit: &str) -> (r: bool)
    ensures
        r == ci_equal(s@, lit@),
{
    s.unicode_len() == lit.unicode_len() && starts_with_ci(s, lit)
}

/// `s` with every leading `c` removed.
pub open spec fn strip_start_char(s: Seq<char>, c: char) -> Seq<char>
    decreases s.len(),
{
    if s.len() > 0 && s[0] == c {
        strip_start_char(s.drop_first(), c)
    } else {
        s
    }
}

/// `s` with every trailing `c` removed.
pub open spec fn strip_end_char(s: Seq<char>, c: char) -> Seq<char>
    decreases s.len(),
{
    if s.len() > 0 && s.last() == c {
        strip_end_char(s.drop_last(), c)
    } else {
        s
    }
}

/// `s` with `c` removed at both ends, as `str::trim_matches` does.
pub open spec fn trim_matches(s: Seq<char>, c: char) -> Seq<char> {
    strip_end_char(strip_start_char(s, c), c)
}

/// `s` without leading and trailing `c`.
pub fn trim_char(s: &str, c: char) -> (r: &str)
    ensures
        r@ == trim_matches(s@, c),
{
    let n = s.unicode_len();
    let mut i: usize = 0;
    assert(s@.subrange(0, n as int) =~= s@);
    while i < n && s.get_char(i) == c
        invariant
            n == s@.len(),
            0 <= i <= n,
            strip_start_char(s@, c) == strip_start_char(s@.subrange(i as int, n as int), c),
        decreases n - i,
    {
        proof {
            let t = s@.subrange(i as int, n as int);
            assert(t.drop_first() =~= s@.subrange(i + 1, n as int));
        }
        i = i + 1;
    }
    let ghost front = s@.subrange(i as int, n as int);
    proof {
        if i < n {
            assert(front[0] != c);
        } else {
            assert(front.len() == 0);
        }
        assert(strip_start_char(s@, c) == front);
    }
    let mut j: usize = n;
    while j > i && s.get_char(j - 1) == c
        invariant
            n == s@.len(),
            i <= j <= n,
            front == s@.subrange(i as int, n as int),
            strip_end_char(front, c) == strip_end_char(s@.subrange(i as int, j as int), c),
        decreases j - i,
    {
        proof {
            let t = s@.subrange(i as int, j as int);
            assert(t.drop_last() =~= s@.subrange(i as int, j - 1));
        }
        j = j - 1;
    }
    proof {
        let t = s@.subrange(i as int, j as int);
        if j > i {
            assert(t.last() == s@[j - 1]);
        }
        assert(strip_end_char(t, c) == t);
    }
    s.substring_char(i, j)
}

/// Whether `s` holds the character `c`.
pub fn contains_char(s: &str, c: char) -> (r: bool)
    ensures
        r == s@.contains(c),
{
    let n = s.unicode_len();
    let mut i: usize = 0;
    while i < n
        invariant
            n == s@.len(),
            0 <= i <= n,
            forall|j: int| 0 <= j < i ==> s@[j] != c,
        decreases n - i,
    {
        if s.get_char(i) == c {
            return true;
        }
        i = i + 1;
    }
    false
}

/// The value of a hexadecimal digit (lower case).
pub open spec fn hex_digit_value(c: char) -> nat {
    if c == '1' {
        1
    } else if c == '2' {
        2
    } else if c == '3' {
        3
    } else if c == '4' {
        4
    } else if c == '5' {
        5
    } else if c == '6' {
        6
    } else if c == '7' {
        7
    } else if c == '8' {
        8
    } else if c == '9' {
        9
    } else if c == 'a' {
        10
    } else if c == 'b' {
        11
    } else if c == 'c' {
        12
    } else if c == 'd' {
        13
    } else if c == 'e' {
        14
    } else if c == 'f' {
        15
    } else {
        0
    }
}

/// The value of a string of hexadecimal digits.
pub open spec fn hex_value(s: Seq<char>) -> nat
    decreases s.len(),
{
    if s.len() == 0 {
        0
    } else {
        hex_value(s.drop_last()) * 16 + hex_digit_value(s.last())
    }
}

proof fn lemma_hex_digit(d: nat)
    requires
        d < 16,
    ensures
        hex_digit_value(hex_digit(d)) == d,
{
}

/// Reading the hexadecimal rendering of `n` gives `n` back.
pub proof fn lemma_hex_value(n: nat)
    ensures
        hex_value(hex(n)) == n,
    decreases n,
{
    if n < 16 {
        lemma_hex_digit(n);
        assert(hex(n) =~= seq![hex_digit(n)]);
        assert(hex(n).drop_last() =~= Seq::<char>::empty());
        assert(hex_value(Seq::<char>::empty()) == 0);
    } else {
        lemma_hex_digit(n % 16);
        lemma_hex_value(n / 16);
        let h = hex(n);
        assert(h == hex(n / 16).push(hex_digit(n % 16)));
        assert(h.drop_last() =~= hex(n / 16));
        assert(h.last() == hex_digit(n % 16));
    }
}

proof fn lemma_zeros_value(k: nat, s: Seq<char>)
    ensures
        hex_value(Seq::new(k, |i: int| '0') + s) == hex_value(s),
    decreases s.len(), k,
{
    let z = Seq::new(k, |i: int| '0');
    if s.len() == 0 {
        assert(z + s =~= z);
        if k > 0 {
            assert(z.drop_last() =~= Seq::new((k - 1) as nat, |i: int| '0'));
            lemma_zeros_value((k - 1) as nat, s);
            assert(Seq::new((k - 1) as nat, |i: int| '0') + s =~= Seq::new((k - 1) as nat, |i: int| '0'));
        }
    } else {
        assert((z + s).drop_last() =~= z + s.drop_last());
        assert((z + s).last() == s.last());
        lemma_zeros_value(k, s.drop_last());
    }
}

/// Zero-padded hexadecimal rendering is one to one.
pub proof fn lemma_pad4_hex_injective(a: nat, b: nat)
    requires
        pad4(hex(a)) == pad4(hex(b)),
    ensures
        a == b,
{
    lemma_hex_value(a);
    lemma_hex_value(b);
    if hex(a).len() < 4 {
        lemma_zeros_value((4 - hex(a).len()) as nat, hex(a));
    }
    if hex(b).len() < 4 {
        lemma_zeros_value((4 - hex(b).len()) as nat, hex(b));
    }
}

} // verus!
