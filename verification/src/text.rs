//! Text: decimal and hexadecimal numbers, and taking strings apart.
//!
//! Strings are modelled by the sequence of their characters. Every function
//! here states its result over that sequence.

use vstd::prelude::*;
use vstd::string::*;

verus! {

/// `String::push`: appends one character to the end of the string.
pub assume_specification[ String::push ](s: &mut String, c: char)
    ensures
        final(s)@ == old(s)@.push(c),
;

/// The texts that a list of strings holds.
pub open spec fn texts(v: Seq<String>) -> Seq<Seq<char>> {
    v.map_values(|s: String| s@)
}

/// Adding a string to a list adds its text to the texts.
pub proof fn lemma_texts_push(v: Seq<String>, s: String)
    ensures
        texts(v.push(s)) == texts(v).push(s@),
{
    assert(texts(v.push(s)) =~= texts(v).push(s@));
}

/// The text that an optional string holds.
pub open spec fn opt_text(o: Option<String>) -> Option<Seq<char>> {
    match o {
        Some(s) => Some(s@),
        None => None,
    }
}

/// A copy of an optional string.
pub fn copy_text(o: &Option<String>) -> (r: Option<String>)
    ensures
        r == *o,
{
    match o {
        Some(s) => Some(s.clone()),
        None => None,
    }
}

/// The characters of `s`, in order.
pub fn chars_of(s: &str) -> (r: Vec<char>)
    ensures
        r@ == s@,
{
    let mut r: Vec<char> = Vec::new();
    for c in it: s.chars()
        invariant
            r@ == it.seq().take(it.index() as int),
            it.seq() == s@,
    {
        r.push(c);
        assert(it.seq().take(it.index() + 1) =~= it.seq().take(it.index() as int).push(c));
    }
    assert(s@.take(s@.len() as int) =~= s@);
    r
}

/// Whether two strings hold the same text.
pub fn same(a: &str, b: &str) -> (r: bool)
    ensures
        r == (a@ == b@),
{
    a.to_owned() == b.to_owned()
}

// ---------------------------------------------------------------------
// Numbers
// ---------------------------------------------------------------------

/// Whether `c` is one of `0` to `9`.
pub open spec fn is_digit(c: char) -> bool {
    '0' <= c <= '9'
}

/// The number that a decimal digit stands for.
pub open spec fn digit_value(c: char) -> nat {
    (c as int - '0' as int) as nat
}

/// The decimal digit that stands for `d`.
pub open spec fn digit_char(d: nat) -> char {
    ('0' as int + d) as char
}

/// `n` in decimal, without leading zeros.
pub open spec fn dec(n: nat) -> Seq<char>
    decreases n,
{
    if n < 10 {
        seq![digit_char(n)]
    } else {
        dec(n / 10).push(digit_char(n % 10))
    }
}

/// Whether `s` is made of decimal digits only.
pub open spec fn all_digits(s: Seq<char>) -> bool {
    forall|i: int| 0 <= i < s.len() ==> is_digit(#[trigger] s[i])
}

/// The number that the decimal digits `s` stand for.
pub open spec fn value(s: Seq<char>) -> nat
    decreases s.len(),
{
    if s.len() == 0 {
        0
    } else {
        value(s.drop_last()) * 10 + digit_value(s.last())
    }
}

/// Writing a number and reading it back gives the number.
pub proof fn lemma_dec_value(n: nat)
    ensures
        value(dec(n)) == n,
        all_digits(dec(n)),
        dec(n).len() > 0,
    decreases n,
{
    reveal_with_fuel(value, 2);
    if n >= 10 {
        lemma_dec_value(n / 10);
        assert(dec(n).drop_last() =~= dec(n / 10));
    } else {
        assert(dec(n).drop_last() =~= Seq::<char>::empty());
    }
}

/// The decimal digit for `d`.
pub fn digit(d: u64) -> (r: char)
    requires
        d < 10,
    ensures
        r == digit_char(d as nat),
{
    (48u8 + d as u8) as char
}

/// `n` in decimal.
pub fn decimal(n: u64) -> (r: String)
    ensures
        r@ == dec(n as nat),
    decreases n,
{
    if n < 10 {
        let mut s = String::new();
        s.push(digit(n));
        assert(s@ =~= dec(n as nat));
        s
    } else {
        let mut s = decimal(n / 10);
        s.push(digit(n % 10));
        s
    }
}

/// `n` in decimal.
pub fn decimal_wide(n: u128) -> (r: String)
    ensures
        r@ == dec(n as nat),
    decreases n,
{
    if n < 10 {
        decimal(n as u64)
    } else {
        let mut s = decimal_wide(n / 10);
        s.push(digit((n % 10) as u64));
        s
    }
}

/// `n` in decimal, with a minus sign when it is negative.
pub open spec fn dec_signed(n: int) -> Seq<char> {
    if n < 0 {
        "-"@ + dec((-n) as nat)
    } else {
        dec(n as nat)
    }
}

/// `n` in decimal, with a minus sign when it is negative.
pub fn decimal_signed(n: i32) -> (r: String)
    ensures
        r@ == dec_signed(n as int),
{
    if n < 0 {
        let digits = decimal((-(n as i64)) as u64);
        "-".to_owned().concat(digits.as_str())
    } else {
        decimal(n as u64)
    }
}

/// `n` in decimal with at least `width` digits, filled up with zeros in front.
pub open spec fn dec_padded(n: nat, width: nat) -> Seq<char> {
    let d = dec(n);
    Seq::new((if width > d.len() { width - d.len() } else { 0 }) as nat, |i: int| '0') + d
}

/// `n` in decimal with at least `width` digits, filled up with zeros in front.
pub fn decimal_padded(n: u64, width: usize) -> (r: String)
    ensures
        r@ == dec_padded(n as nat, width as nat),
{
    let d = decimal(n);
    let len: usize = chars_of(d.as_str()).len();
    let mut r = String::new();
    let fill: usize = if width > len { width - len } else { 0 };
    let mut i: usize = 0;
    while i < fill
        invariant
            i <= fill,
            r@ == Seq::new(i as nat, |i: int| '0'),
        decreases fill - i,
    {
        r.push('0');
        i = i + 1;
        assert(r@ =~= Seq::new(i as nat, |i: int| '0'));
    }
    r.concat(d.as_str())
}

/// What an unsigned number written in decimal reads as: an optional `+`, then
/// at least one digit, then nothing; no more than `max`.
pub open spec fn parsed(s: Seq<char>, max: nat) -> Option<nat> {
    let d = if s.len() > 0 && s[0] == '+' {
        s.skip(1)
    } else {
        s
    };
    if d.len() > 0 && all_digits(d) && value(d) <= max {
        Some(value(d))
    } else {
        None
    }
}

/// A prefix of a number written in digits stands for no more than the whole.
proof fn lemma_value_prefix(s: Seq<char>, k: int)
    requires
        0 <= k <= s.len(),
    ensures
        value(s.take(k)) <= value(s),
    decreases s.len() - k,
{
    if k < s.len() {
        lemma_value_prefix(s, k + 1);
        assert(s.take(k + 1).drop_last() =~= s.take(k));
    } else {
        assert(s.take(k) =~= s);
    }
}

/// Why a text is no unsigned number.
#[derive(Debug, Clone, Copy, PartialEq, Eq, Structural)]
pub enum NumberFault {
    /// There is no text.
    Empty,
    /// Something other than a digit stands in it.
    InvalidDigit,
    /// The number is larger than the largest one allowed.
    TooLarge,
}

/// Reading `d` from left to right, the first thing that is wrong with it.
pub open spec fn first_fault(d: Seq<char>, max: nat) -> Option<NumberFault>
    decreases d.len(),
{
    if d.len() == 0 {
        None
    } else if first_fault(d.drop_last(), max) is Some {
        first_fault(d.drop_last(), max)
    } else if !is_digit(d.last()) {
        Some(NumberFault::InvalidDigit)
    } else if value(d) > max {
        Some(NumberFault::TooLarge)
    } else {
        None
    }
}

/// Why `s` is no unsigned number of at most `max`.
pub open spec fn number_fault(s: Seq<char>, max: nat) -> NumberFault {
    if s.len() == 0 {
        NumberFault::Empty
    } else if s.len() == 1 && s[0] == '+' {
        NumberFault::InvalidDigit
    } else {
        let d = if s[0] == '+' {
            s.skip(1)
        } else {
            s
        };
        match first_fault(d, max) {
            Some(f) => f,
            None => NumberFault::Empty,
        }
    }
}

/// A fault in a prefix is the fault of the whole.
proof fn lemma_first_fault_prefix(d: Seq<char>, max: nat, k: int)
    requires
        0 <= k <= d.len(),
        first_fault(d.take(k), max) is Some,
    ensures
        first_fault(d, max) == first_fault(d.take(k), max),
    decreases d.len() - k,
{
    if k < d.len() {
        assert(d.take(k + 1).drop_last() =~= d.take(k));
        lemma_first_fault_prefix(d, max, k + 1);
    } else {
        assert(d.take(k) =~= d);
    }
}

impl NumberFault {
    /// The words for the fault.
    pub open spec fn text(self) -> Seq<char> {
        match self {
            NumberFault::Empty => "cannot parse integer from empty string"@,
            NumberFault::InvalidDigit => "invalid digit found in string"@,
            NumberFault::TooLarge => "number too large to fit in target type"@,
        }
    }

    /// The words for the fault.
    pub fn message(self) -> (r: String)
        ensures
            r@ == self.text(),
    {
        match self {
            NumberFault::Empty => "cannot parse integer from empty string".to_owned(),
            NumberFault::InvalidDigit => "invalid digit found in string".to_owned(),
            NumberFault::TooLarge => "number too large to fit in target type".to_owned(),
        }
    }
}

/// Reads an unsigned decimal number of at most `max`.
pub fn parse_max(s: &str, max: u64) -> (r: Result<u64, NumberFault>)
    ensures
        r matches Ok(n) ==> parsed(s@, max as nat) == Some(n as nat),
        r matches Err(f) ==> parsed(s@, max as nat) is None && f == number_fault(s@, max as nat),
{
    let v = chars_of(s);
    if v.len() == 0 {
        return Err(NumberFault::Empty);
    }
    let start: usize = if v[0] == '+' { 1 } else { 0 };
    let ghost d = if s@[0] == '+' {
        s@.skip(1)
    } else {
        s@
    };
    assert(d == v@.skip(start as int)) by {
        assert(v@.skip(0) =~= v@);
    }
    if start >= v.len() {
        return Err(NumberFault::InvalidDigit);
    }
    let mut n: u64 = 0;
    let mut i: usize = start;
    while i < v.len()
        invariant
            start <= i <= v.len(),
            start < v.len(),
            v@ == s@,
            d == v@.skip(start as int),
            start == (if s@[0] == '+' { 1int } else { 0int }),
            d == (if s@[0] == '+' {
                s@.skip(1)
            } else {
                s@
            }),
            n == value(d.take(i - start)),
            n <= max,
            forall|j: int| 0 <= j < i - start ==> is_digit(#[trigger] d[j]),
            first_fault(d.take(i - start), max as nat) is None,
        decreases v.len() - i,
    {
        let c = v[i];
        assert(d[i - start] == c);
        assert(d.take(i - start + 1).drop_last() =~= d.take(i - start));
        if c < '0' || c > '9' {
            assert(!all_digits(d));
            proof {
                lemma_first_fault_prefix(d, max as nat, i - start + 1);
            }
            return Err(NumberFault::InvalidDigit);
        }
        let k: u64 = c as u64 - 48;
        let m: u128 = n as u128 * 10 + k as u128;
        proof {
            assert(value(d.take(i - start + 1)) == m);
            lemma_value_prefix(d, i - start + 1);
        }
        if m > max as u128 {
            proof {
                lemma_first_fault_prefix(d, max as nat, i - start + 1);
            }
            return Err(NumberFault::TooLarge);
        }
        n = m as u64;
        i = i + 1;
    }
    assert(d.take(d.len() as int) =~= d);
    Ok(n)
}

/// Reads an unsigned 64-bit number, as `str::parse` does.
pub fn parse_u64(s: &str) -> (r: Option<u64>)
    ensures
        r matches Some(n) ==> parsed(s@, u64::MAX as nat) == Some(n as nat),
        r is None ==> parsed(s@, u64::MAX as nat) is None,
{
    match parse_max(s, u64::MAX) {
        Ok(n) => Some(n),
        Err(_) => None,
    }
}

/// Reads an unsigned 32-bit number, as `str::parse` does.
pub fn parse_u32(s: &str) -> (r: Option<u32>)
    ensures
        r matches Some(n) ==> parsed(s@, u32::MAX as nat) == Some(n as nat),
        r is None ==> parsed(s@, u32::MAX as nat) is None,
{
    match parse_max(s, u32::MAX as u64) {
        Ok(n) => Some(n as u32),
        Err(_) => None,
    }
}

/// The hexadecimal digit, in lower case, that stands for `d`.
pub open spec fn hex_char(d: nat) -> char {
    if d < 10 {
        digit_char(d)
    } else {
        ('a' as int + (d - 10)) as char
    }
}

/// Whether `c` is a hexadecimal digit in lower case.
pub open spec fn is_hex(c: char) -> bool {
    is_digit(c) || 'a' <= c <= 'f'
}

/// The lower sixteen bits of a number as four hexadecimal digits.
pub open spec fn hex4(n: nat) -> Seq<char> {
    seq![
        hex_char(n / 4096 % 16),
        hex_char(n / 256 % 16),
        hex_char(n / 16 % 16),
        hex_char(n % 16),
    ]
}

fn hex_digit(d: u16) -> (r: char)
    requires
        d < 16,
    ensures
        r == hex_char(d as nat),
{
    if d < 10 {
        digit(d as u64)
    } else {
        (97u8 + (d - 10) as u8) as char
    }
}

/// `n` as four hexadecimal digits in lower case.
pub fn hexadecimal4(n: u16) -> (r: String)
    ensures
        r@ == hex4(n as nat),
{
    let mut s = String::new();
    s.push(hex_digit(n / 4096 % 16));
    s.push(hex_digit(n / 256 % 16));
    s.push(hex_digit(n / 16 % 16));
    s.push(hex_digit(n % 16));
    assert(s@ =~= hex4(n as nat));
    s
}

/// How many characters at the start of `s` are decimal digits.
pub open spec fn digits_len(s: Seq<char>) -> int
    decreases s.len(),
{
    if s.len() == 0 {
        0
    } else {
        let k = digits_len(s.drop_last());
        if k < s.len() - 1 {
            k
        } else if is_digit(s.last()) {
            s.len() as int
        } else {
            s.len() - 1
        }
    }
}

/// The digits at the start are digits, and what follows them is none.
pub proof fn lemma_digits_len(s: Seq<char>)
    ensures
        0 <= digits_len(s) <= s.len(),
        all_digits(s.take(digits_len(s))),
        digits_len(s) < s.len() ==> !is_digit(s[digits_len(s)]),
    decreases s.len(),
{
    if s.len() > 0 {
        lemma_digits_len(s.drop_last());
        let k = digits_len(s.drop_last());
        assert(s.drop_last().take(k) =~= s.take(k));
        assert forall|i: int| 0 <= i < digits_len(s) implies is_digit(
            #[trigger] s.take(digits_len(s))[i],
        ) by {
            if i < k {
                assert(s.take(k)[i] == s[i]);
            }
        }
    }
}

/// A count of digits that ends inside a prefix is that of the whole.
proof fn lemma_digits_len_prefix(s: Seq<char>, n: int)
    requires
        0 <= n <= s.len(),
        digits_len(s.take(n)) < n,
    ensures
        digits_len(s) == digits_len(s.take(n)),
    decreases s.len() - n,
{
    if n < s.len() {
        assert(s.take(n + 1).drop_last() =~= s.take(n));
        lemma_digits_len_prefix(s, n + 1);
    } else {
        assert(s.take(n) =~= s);
    }
}

/// How many characters at the start of `s` are decimal digits.
pub fn count_digits(s: &str) -> (r: usize)
    ensures
        r == digits_len(s@),
        r <= s@.len(),
{
    let v = chars_of(s);
    let mut i: usize = 0;
    while i < v.len()
        invariant
            i <= v.len(),
            v@ == s@,
            digits_len(s@.take(i as int)) == i,
        decreases v.len() - i,
    {
        assert(s@.take(i + 1).drop_last() =~= s@.take(i as int));
        if v[i] < '0' || v[i] > '9' {
            proof {
                lemma_digits_len_prefix(s@, i + 1);
            }
            return i;
        }
        i = i + 1;
    }
    assert(s@.take(i as int) =~= s@);
    i
}

/// A text with nothing white at either end is its own trimmed form.
pub proof fn lemma_trimmed_id(s: Seq<char>)
    requires
        s.len() > 0 ==> !is_white(s[0]) && !is_white(s.last()),
    ensures
        trimmed(s) == s,
{
}

// ---------------------------------------------------------------------
// White space
// ---------------------------------------------------------------------

/// Whether `c` has the Unicode property `White_Space`.
pub open spec fn is_white(c: char) -> bool {
    let n = c as int;
    ||| 0x09 <= n <= 0x0d
    ||| n == 0x20
    ||| n == 0x85
    ||| n == 0xa0
    ||| n == 0x1680
    ||| 0x2000 <= n <= 0x200a
    ||| n == 0x2028
    ||| n == 0x2029
    ||| n == 0x202f
    ||| n == 0x205f
    ||| n == 0x3000
}

/// Whether `c` is white space.
pub fn white(c: char) -> (r: bool)
    ensures
        r == is_white(c),
{
    let n: u32 = c as u32;
    (0x09 <= n && n <= 0x0d) || n == 0x20 || n == 0x85 || n == 0xa0 || n == 0x1680 || (0x2000 <= n
        && n <= 0x200a) || n == 0x2028 || n == 0x2029 || n == 0x202f || n == 0x205f || n == 0x3000
}

/// `s` without the white space at its end.
pub open spec fn trim_end(s: Seq<char>) -> Seq<char>
    decreases s.len(),
{
    if s.len() > 0 && is_white(s.last()) {
        trim_end(s.drop_last())
    } else {
        s
    }
}

/// `s` without the white space at its start.
pub open spec fn trim_start(s: Seq<char>) -> Seq<char>
    decreases s.len(),
{
    if s.len() > 0 && is_white(s[0]) {
        trim_start(s.skip(1))
    } else {
        s
    }
}

/// `s` without the white space around it.
pub open spec fn trimmed(s: Seq<char>) -> Seq<char> {
    trim_start(trim_end(s))
}

/// `s` without the white space around it.
pub fn trim(s: &str) -> (r: &str)
    ensures
        r@ == trimmed(s@),
{
    let v = chars_of(s);
    let mut j: usize = v.len();
    assert(s@.take(j as int) =~= s@);
    while j > 0 && white(v[j - 1])
        invariant
            j <= v.len(),
            v@ == s@,
            trim_end(s@) == trim_end(s@.take(j as int)),
        decreases j,
    {
        assert(s@.take(j as int).drop_last() =~= s@.take(j - 1));
        j = j - 1;
    }
    let ghost t = s@.take(j as int);
    assert(trim_end(s@) == t);
    let mut i: usize = 0;
    assert(t.skip(0) =~= t);
    while i < j && white(v[i])
        invariant
            i <= j <= v.len(),
            v@ == s@,
            t == s@.take(j as int),
            trim_start(t) == trim_start(t.skip(i as int)),
        decreases j - i,
    {
        assert(t.skip(i as int).skip(1) =~= t.skip(i + 1));
        i = i + 1;
    }
    assert(t.skip(i as int) =~= s@.subrange(i as int, j as int));
    s.substring_char(i, j)
}

/// Whether `c` is white space or a brace.
pub open spec fn is_padding(c: char) -> bool {
    c == '{' || c == '}' || is_white(c)
}

/// `s` without the white space and braces at its end.
pub open spec fn bare_end(s: Seq<char>) -> Seq<char>
    decreases s.len(),
{
    if s.len() > 0 && is_padding(s.last()) {
        bare_end(s.drop_last())
    } else {
        s
    }
}

/// `s` without the white space and braces at its start.
pub open spec fn bare_start(s: Seq<char>) -> Seq<char>
    decreases s.len(),
{
    if s.len() > 0 && is_padding(s[0]) {
        bare_start(s.skip(1))
    } else {
        s
    }
}

/// `s` without the white space and braces around it.
pub open spec fn bare(s: Seq<char>) -> Seq<char> {
    bare_start(bare_end(s))
}

fn padding(c: char) -> (r: bool)
    ensures
        r == is_padding(c),
{
    c == '{' || c == '}' || white(c)
}

/// `s` without the white space and braces around it.
pub fn strip_padding(s: &str) -> (r: &str)
    ensures
        r@ == bare(s@),
{
    let v = chars_of(s);
    let mut j: usize = v.len();
    assert(s@.take(j as int) =~= s@);
    while j > 0 && padding(v[j - 1])
        invariant
            j <= v.len(),
            v@ == s@,
            bare_end(s@) == bare_end(s@.take(j as int)),
        decreases j,
    {
        assert(s@.take(j as int).drop_last() =~= s@.take(j - 1));
        j = j - 1;
    }
    let ghost t = s@.take(j as int);
    assert(bare_end(s@) == t);
    let mut i: usize = 0;
    assert(t.skip(0) =~= t);
    while i < j && padding(v[i])
        invariant
            i <= j <= v.len(),
            v@ == s@,
            t == s@.take(j as int),
            bare_start(t) == bare_start(t.skip(i as int)),
        decreases j - i,
    {
        assert(t.skip(i as int).skip(1) =~= t.skip(i + 1));
        i = i + 1;
    }
    assert(t.skip(i as int) =~= s@.subrange(i as int, j as int));
    s.substring_char(i, j)
}

/// Reading `s` from left to right: the words that are complete, and the
/// characters of the word that is still open.
pub open spec fn words_scan(s: Seq<char>) -> (Seq<Seq<char>>, Seq<char>)
    decreases s.len(),
{
    if s.len() == 0 {
        (seq![], seq![])
    } else {
        let (done, open_word) = words_scan(s.drop_last());
        if !is_white(s.last()) {
            (done, open_word.push(s.last()))
        } else if open_word.len() == 0 {
            (done, open_word)
        } else {
            (done.push(open_word), seq![])
        }
    }
}

/// The words of `s`: what stands between white space.
pub open spec fn words(s: Seq<char>) -> Seq<Seq<char>> {
    let (done, open_word) = words_scan(s);
    if open_word.len() == 0 {
        done
    } else {
        done.push(open_word)
    }
}

/// Whether `w` is one word.
pub open spec fn is_word(w: Seq<char>) -> bool {
    w.len() > 0 && forall|i: int| 0 <= i < w.len() ==> !is_white(#[trigger] w[i])
}

proof fn lemma_scan_on(s: Seq<char>, w: Seq<char>)
    requires
        forall|i: int| 0 <= i < w.len() ==> !is_white(#[trigger] w[i]),
    ensures
        words_scan(s + w) == (words_scan(s).0, words_scan(s).1 + w),
    decreases w.len(),
{
    if w.len() == 0 {
        assert(s + w =~= s);
        assert(words_scan(s).1 + w =~= words_scan(s).1);
    } else {
        let v = w.drop_last();
        lemma_scan_on(s, v);
        assert((s + w).drop_last() =~= s + v);
        assert((s + w).last() == w.last());
        assert(words_scan(s).1 + w =~= (words_scan(s).1 + v).push(w.last()));
    }
}

/// One word is read as that word.
pub proof fn lemma_words_one(w: Seq<char>)
    requires
        is_word(w),
    ensures
        words(w) == seq![w],
{
    lemma_scan_on(seq![], w);
    assert(seq![] + w =~= w);
    assert(Seq::<char>::empty() + w =~= w);
}

/// A word behind a space is read as one more word.
pub proof fn lemma_words_more(s: Seq<char>, w: Seq<char>)
    requires
        is_word(w),
    ensures
        words(s + " "@ + w) == words(s).push(w),
{
    reveal_strlit(" ");
    let t = s + " "@;
    assert(t.drop_last() =~= s);
    assert(t.last() == ' ');
    lemma_scan_on(t, w);
    assert(Seq::<char>::empty() + w =~= w);
}

/// A number in decimal is one word.
pub proof fn lemma_dec_is_word(n: nat)
    ensures
        is_word(dec(n)),
{
    lemma_dec_value(n);
}

/// A number in decimal is read as that number.
pub proof fn lemma_dec_parsed(n: nat, max: nat)
    requires
        n <= max,
    ensures
        parsed(dec(n), max) == Some(n),
{
    lemma_dec_value(n);
    assert(dec(n)[0] != '+');
}

/// The words of `s`: what stands between white space.
pub fn split_words(s: &str) -> (r: Vec<String>)
    ensures
        texts(r@) == words(s@),
{
    let v = chars_of(s);
    let mut done: Vec<String> = Vec::new();
    let mut word = String::new();
    let mut empty = true;
    let mut i: usize = 0;
    assert(texts(done@) =~= seq![]);
    while i < v.len()
        invariant
            i <= v.len(),
            v@ == s@,
            words_scan(s@.take(i as int)) == (texts(done@), word@),
            empty == (word@.len() == 0),
        decreases v.len() - i,
    {
        assert(s@.take(i + 1).drop_last() =~= s@.take(i as int));
        let c = v[i];
        if !white(c) {
            word.push(c);
            empty = false;
        } else if !empty {
            proof {
                lemma_texts_push(done@, word);
            }
            done.push(word);
            word = String::new();
            empty = true;
        }
        i = i + 1;
    }
    assert(s@.take(i as int) =~= s@);
    if !empty {
        proof {
            lemma_texts_push(done@, word);
        }
        done.push(word);
    }
    done
}

// ---------------------------------------------------------------------
// Separators
// ---------------------------------------------------------------------

/// The pieces of `s` between the occurrences of `sep`. There is one more piece
/// than there are occurrences, and a piece may be empty.
pub open spec fn pieces(s: Seq<char>, sep: char) -> Seq<Seq<char>>
    decreases s.len(),
{
    if s.len() == 0 {
        seq![seq![]]
    } else {
        let p = pieces(s.drop_last(), sep);
        if s.last() == sep {
            p.push(seq![])
        } else {
            p.drop_last().push(p.last().push(s.last()))
        }
    }
}

/// What holds no separator is one piece.
pub proof fn lemma_pieces_one(s: Seq<char>, sep: char)
    requires
        !s.contains(sep),
    ensures
        pieces(s, sep) == seq![s],
    decreases s.len(),
{
    if s.len() > 0 {
        let t = s.drop_last();
        assert(!t.contains(sep)) by {
            if t.contains(sep) {
                let k = choose|k: int| 0 <= k < t.len() && t[k] == sep;
                assert(s[k] == sep);
            }
        }
        lemma_pieces_one(t, sep);
        assert(s[s.len() - 1] == s.last());
        assert(t.push(s.last()) =~= s);
        assert(pieces(s, sep) =~= seq![s]);
    } else {
        assert(s =~= seq![]);
    }
}

/// What stands behind one more separator is one more piece.
pub proof fn lemma_pieces_more(s: Seq<char>, t: Seq<char>, sep: char)
    requires
        !t.contains(sep),
    ensures
        pieces(s + seq![sep] + t, sep) == pieces(s, sep).push(t),
    decreases t.len(),
{
    let all = s + seq![sep] + t;
    if t.len() == 0 {
        assert(all.drop_last() =~= s);
        assert(t =~= seq![]);
    } else {
        let u = t.drop_last();
        assert(!u.contains(sep)) by {
            if u.contains(sep) {
                let k = choose|k: int| 0 <= k < u.len() && u[k] == sep;
                assert(t[k] == sep);
            }
        }
        lemma_pieces_more(s, u, sep);
        assert(all.drop_last() =~= s + seq![sep] + u);
        assert(t[t.len() - 1] == t.last());
        assert(all.last() == t.last());
        let p = pieces(s, sep).push(u);
        assert(p.drop_last() =~= pieces(s, sep));
        assert(u.push(t.last()) =~= t);
    }
}

/// The pieces of `s` between the occurrences of `sep`.
pub fn split(s: &str, sep: char) -> (r: Vec<String>)
    ensures
        texts(r@) == pieces(s@, sep),
        r@.len() > 0,
{
    let v = chars_of(s);
    let mut done: Vec<String> = Vec::new();
    let mut piece = String::new();
    let mut i: usize = 0;
    assert(texts(done@).push(piece@) =~= seq![seq![]]);
    while i < v.len()
        invariant
            i <= v.len(),
            v@ == s@,
            pieces(s@.take(i as int), sep) == texts(done@).push(piece@),
        decreases v.len() - i,
    {
        assert(s@.take(i + 1).drop_last() =~= s@.take(i as int));
        let c = v[i];
        assert(texts(done@).push(piece@).drop_last() =~= texts(done@));
        if c == sep {
            proof {
                lemma_texts_push(done@, piece);
            }
            done.push(piece);
            piece = String::new();
        } else {
            piece.push(c);
        }
        i = i + 1;
    }
    assert(s@.take(i as int) =~= s@);
    proof {
        lemma_texts_push(done@, piece);
    }
    done.push(piece);
    done
}

/// `s` without a carriage return at its end.
pub open spec fn without_cr(s: Seq<char>) -> Seq<char> {
    if s.len() > 0 && s.last() == '\r' {
        s.drop_last()
    } else {
        s
    }
}

/// The lines of `s`. A line ends with a line feed, which a carriage return may
/// precede; the last line may go without.
pub open spec fn lines_of(s: Seq<char>) -> Seq<Seq<char>> {
    let p = pieces(s, '\n');
    let ended = p.drop_last().map_values(|l: Seq<char>| without_cr(l));
    if p.last().len() == 0 {
        ended
    } else {
        ended.push(p.last())
    }
}

fn strip_cr(s: String) -> (r: String)
    ensures
        r@ == without_cr(s@),
{
    let v = chars_of(s.as_str());
    if v.len() > 0 && v[v.len() - 1] == '\r' {
        let t = s.as_str().substring_char(0, v.len() - 1);
        assert(s@.subrange(0, s@.len() - 1) =~= s@.drop_last());
        t.to_owned()
    } else {
        s
    }
}

/// The lines of `s`.
pub fn lines(s: &str) -> (r: Vec<String>)
    ensures
        texts(r@) == lines_of(s@),
{
    let p = split(s, '\n');
    let ghost all = pieces(s@, '\n');
    let ghost ended = all.drop_last().map_values(|l: Seq<char>| without_cr(l));
    let mut r: Vec<String> = Vec::new();
    let n: usize = p.len() - 1;
    let mut i: usize = 0;
    assert(texts(r@) =~= ended.take(0));
    while i < n
        invariant
            i <= n == p.len() - 1,
            texts(p@) == all,
            ended == all.drop_last().map_values(|l: Seq<char>| without_cr(l)),
            texts(r@) == ended.take(i as int),
        decreases n - i,
    {
        let l = strip_cr(p[i].clone());
        assert(texts(p@)[i as int] == p@[i as int]@);
        assert(ended.take(i + 1) =~= ended.take(i as int).push(l@));
        proof {
            lemma_texts_push(r@, l);
        }
        r.push(l);
        i = i + 1;
    }
    assert(ended.take(n as int) =~= ended);
    let last = p[n].clone();
    assert(texts(p@)[n as int] == p@[n as int]@);
    if !last.as_str().is_empty() {
        proof {
            lemma_texts_push(r@, last);
        }
        r.push(last);
    }
    r
}

/// How many characters of `s` come before the first `c`: all of them when `c`
/// does not occur.
pub open spec fn first_index(s: Seq<char>, c: char) -> int
    decreases s.len(),
{
    if s.len() == 0 {
        0
    } else {
        let k = first_index(s.drop_last(), c);
        if k < s.len() - 1 {
            k
        } else if s.last() == c {
            s.len() - 1
        } else {
            s.len() as int
        }
    }
}

/// What stands before and after the first `c` of `s`, when there is one.
pub open spec fn around(s: Seq<char>, c: char) -> Option<(Seq<char>, Seq<char>)> {
    let k = first_index(s, c);
    if 0 <= k < s.len() {
        Some((s.take(k), s.skip(k + 1)))
    } else {
        None
    }
}

/// The first index is that of an occurrence, and no earlier one is.
pub proof fn lemma_first_index(s: Seq<char>, c: char)
    ensures
        0 <= first_index(s, c) <= s.len(),
        first_index(s, c) < s.len() ==> s[first_index(s, c)] == c,
        forall|i: int| 0 <= i < first_index(s, c) ==> s[i] != c,
    decreases s.len(),
{
    if s.len() > 0 {
        lemma_first_index(s.drop_last(), c);
        assert forall|i: int| 0 <= i < first_index(s, c) implies s[i] != c by {
            if i < s.len() - 1 {
                assert(s.drop_last()[i] == s[i]);
            }
        }
    }
}

/// The first `c` behind a text without one splits off that text.
pub proof fn lemma_around(a: Seq<char>, c: char, b: Seq<char>)
    requires
        !a.contains(c),
    ensures
        around(a + seq![c] + b, c) == Some((a, b)),
{
    let s = a + seq![c] + b;
    let k = first_index(s, c);
    lemma_first_index(s, c);
    assert(s[a.len() as int] == c);
    if k < a.len() {
        assert(s[k] == a[k]);
        assert(a.contains(c));
    }
    assert(k == a.len());
    assert(s.take(k) =~= a);
    assert(s.skip(k + 1) =~= b);
}

/// What stands before and after the first `c` of `s`, when there is one.
pub fn split_once<'a>(s: &'a str, c: char) -> (r: Option<(&'a str, &'a str)>)
    ensures
        r matches Some((a, b)) ==> around(s@, c) == Some((a@, b@)),
        r is None ==> around(s@, c) is None,
{
    let v = chars_of(s);
    let mut i: usize = 0;
    while i < v.len()
        invariant
            i <= v.len(),
            v@ == s@,
            first_index(s@.take(i as int), c) == i,
        decreases v.len() - i,
    {
        assert(s@.take(i + 1).drop_last() =~= s@.take(i as int));
        if v[i] == c {
            proof {
                lemma_first_index_prefix(s@, c, i + 1);
                assert(s@.subrange(0, i as int) =~= s@.take(i as int));
                assert(s@.subrange(i + 1, s@.len() as int) =~= s@.skip(i + 1));
            }
            return Some((s.substring_char(0, i), s.substring_char(i + 1, v.len())));
        }
        i = i + 1;
    }
    assert(s@.take(i as int) =~= s@);
    None
}

/// A first index that lies inside a prefix is that of the whole.
proof fn lemma_first_index_prefix(s: Seq<char>, c: char, n: int)
    requires
        0 <= n <= s.len(),
        first_index(s.take(n), c) < n,
    ensures
        first_index(s, c) == first_index(s.take(n), c),
    decreases s.len() - n,
{
    if n < s.len() {
        assert(s.take(n + 1).drop_last() =~= s.take(n));
        lemma_first_index(s.take(n), c);
        lemma_first_index_prefix(s, c, n + 1);
    } else {
        assert(s.take(n) =~= s);
    }
}

/// Whether `s` starts with `p`.
pub open spec fn has_prefix(s: Seq<char>, p: Seq<char>) -> bool {
    p.len() <= s.len() && s.take(p.len() as int) == p
}

/// Whether `s` starts with `p`.
pub fn starts_with(s: &str, p: &str) -> (r: bool)
    ensures
        r == has_prefix(s@, p@),
{
    let a = chars_of(s);
    let b = chars_of(p);
    if b.len() > a.len() {
        return false;
    }
    matches_at(&a, &b, 0)
}

/// What follows `p` in `s`, when `s` starts with `p`.
pub fn strip_prefix<'a>(s: &'a str, p: &str) -> (r: Option<&'a str>)
    ensures
        r matches Some(t) ==> has_prefix(s@, p@) && t@ == s@.skip(p@.len() as int),
        r is None ==> !has_prefix(s@, p@),
{
    if starts_with(s, p) {
        assert(s@.subrange(p@.len() as int, s@.len() as int) =~= s@.skip(p@.len() as int));
        let n: usize = chars_of(s).len();
        let k: usize = chars_of(p).len();
        Some(s.substring_char(k, n))
    } else {
        None
    }
}

/// Whether `p` occurs in `s`.
pub open spec fn occurs(s: Seq<char>, p: Seq<char>) -> bool {
    exists|i: int|
        0 <= i <= s.len() - p.len() && #[trigger] s.subrange(i, i + p.len()) == p
}

/// Whether `b` stands in `a` at position `at`.
fn matches_at(a: &Vec<char>, b: &Vec<char>, at: usize) -> (r: bool)
    requires
        at + b.len() <= a.len(),
    ensures
        r == (a@.subrange(at as int, at + b@.len()) == b@),
{
    let mut j: usize = 0;
    while j < b.len()
        invariant
            j <= b.len(),
            at + b.len() <= a.len(),
            forall|k: int| 0 <= k < j ==> a@[at + k] == b@[k],
        decreases b.len() - j,
    {
        if a[at + j] != b[j] {
            assert(a@.subrange(at as int, at + b@.len())[j as int] != b@[j as int]);
            return false;
        }
        j = j + 1;
    }
    assert(a@.subrange(at as int, at + b@.len()) =~= b@);
    true
}

/// Whether `p` occurs in `s`.
pub fn contains(s: &str, p: &str) -> (r: bool)
    ensures
        r == occurs(s@, p@),
{
    let a = chars_of(s);
    let b = chars_of(p);
    if b.len() > a.len() {
        return false;
    }
    let mut i: usize = 0;
    let last: usize = a.len() - b.len();
    while i < last
        invariant
            i <= last,
            last == a.len() - b.len(),
            a@ == s@,
            b@ == p@,
            forall|k: int| 0 <= k < i ==> #[trigger] s@.subrange(k, k + p@.len()) != p@,
        decreases last - i,
    {
        if matches_at(&a, &b, i) {
            return true;
        }
        i = i + 1;
    }
    matches_at(&a, &b, last)
}

/// How a text is shown between quotes: what the `Debug` format of `str` gives.
pub uninterp spec fn quoted_text(s: Seq<char>) -> Seq<char>;

/// The `Debug` format of `str`: the text between double quotes, with what does
/// not print, quotes and backslashes escaped. Only that the result is a
/// function of the text is claimed of it.
#[verifier::external_body]
pub(crate) fn quoted(s: &str) -> (r: String)
    ensures
        r@ == quoted_text(s@),
{
    format!("{:?}", s)
}

// ---------------------------------------------------------------------
// Order
// ---------------------------------------------------------------------

/// Whether `a` comes before `b` in the order of a dictionary.
pub open spec fn before(a: Seq<char>, b: Seq<char>) -> bool
    decreases a.len(),
{
    if b.len() == 0 {
        false
    } else if a.len() == 0 {
        true
    } else if a[0] == b[0] {
        before(a.skip(1), b.skip(1))
    } else {
        a[0] < b[0]
    }
}

/// Of two different texts one comes before the other.
pub proof fn lemma_before_total(a: Seq<char>, b: Seq<char>)
    ensures
        before(a, b) || a == b || before(b, a),
        !(before(a, b) && before(b, a)),
        !before(a, a),
    decreases a.len() + b.len(),
{
    if a.len() > 0 && b.len() > 0 && a[0] == b[0] {
        lemma_before_total(a.skip(1), b.skip(1));
        if a.skip(1) == b.skip(1) {
            assert(a =~= seq![a[0]] + a.skip(1));
            assert(b =~= seq![b[0]] + b.skip(1));
        }
    }
    if a.len() == 0 && b.len() == 0 {
        assert(a =~= b);
    }
    if a.len() > 0 {
        lemma_before_irreflexive(a);
    }
}

proof fn lemma_before_irreflexive(a: Seq<char>)
    ensures
        !before(a, a),
    decreases a.len(),
{
    if a.len() > 0 {
        lemma_before_irreflexive(a.skip(1));
    }
}

/// The order of a dictionary is transitive.
pub proof fn lemma_before_transitive(a: Seq<char>, b: Seq<char>, c: Seq<char>)
    requires
        before(a, b),
        before(b, c),
    ensures
        before(a, c),
    decreases a.len(),
{
    if a.len() > 0 && a[0] == b[0] && b[0] == c[0] {
        lemma_before_transitive(a.skip(1), b.skip(1), c.skip(1));
    }
}

/// Whether `a` comes before `b` in the order of a dictionary.
pub fn comes_before(a: &str, b: &str) -> (r: bool)
    ensures
        r == before(a@, b@),
{
    let x = chars_of(a);
    let y = chars_of(b);
    let mut i: usize = 0;
    assert(a@.skip(0) =~= a@);
    assert(b@.skip(0) =~= b@);
    while i < x.len() && i < y.len()
        invariant
            i <= x.len(),
            i <= y.len(),
            x@ == a@,
            y@ == b@,
            before(a@, b@) == before(a@.skip(i as int), b@.skip(i as int)),
        decreases x.len() - i,
    {
        if x[i] != y[i] {
            return x[i] < y[i];
        }
        assert(a@.skip(i as int).skip(1) =~= a@.skip(i + 1));
        assert(b@.skip(i as int).skip(1) =~= b@.skip(i + 1));
        i = i + 1;
    }
    i < y.len()
}

// ---------------------------------------------------------------------
// Letters
// ---------------------------------------------------------------------

/// `c`, an ASCII capital turned into its small letter.
pub open spec fn lower_char(c: char) -> char {
    if 'A' <= c <= 'Z' {
        (c as int + 32) as char
    } else {
        c
    }
}

/// `s` with ASCII capitals turned into small letters.
pub open spec fn lowered(s: Seq<char>) -> Seq<char> {
    s.map_values(|c: char| lower_char(c))
}

/// `s` with ASCII capitals turned into small letters.
pub fn to_lower(s: &str) -> (r: String)
    ensures
        r@ == lowered(s@),
{
    let v = chars_of(s);
    let mut r = String::new();
    let mut i: usize = 0;
    assert(r@ =~= lowered(s@).take(0));
    while i < v.len()
        invariant
            i <= v.len(),
            v@ == s@,
            r@ == lowered(s@).take(i as int),
        decreases v.len() - i,
    {
        let c = v[i];
        if c >= 'A' && c <= 'Z' {
            r.push((c as u8 + 32) as char);
        } else {
            r.push(c);
        }
        assert(lowered(s@).take(i + 1) =~= lowered(s@).take(i as int).push(lower_char(c)));
        i = i + 1;
    }
    assert(lowered(s@).take(i as int) =~= lowered(s@));
    r
}

// ---------------------------------------------------------------------
// Finding
// ---------------------------------------------------------------------

/// Whether `p` stands in `s` at the index `i`.
pub open spec fn stands_at(s: Seq<char>, p: Seq<char>, i: int) -> bool {
    0 <= i && i + p.len() <= s.len() && s.subrange(i, i + p.len()) == p
}

/// Whether `i` is the first index at which `p` stands in `s`; `None` when it
/// stands nowhere.
pub open spec fn is_first(s: Seq<char>, p: Seq<char>, i: Option<int>) -> bool {
    match i {
        Some(i) => stands_at(s, p, i) && forall|k: int| 0 <= k < i ==> !stands_at(s, p, k),
        None => forall|k: int| !stands_at(s, p, k),
    }
}

fn stands(v: &Vec<char>, p: &Vec<char>, i: usize) -> (r: bool)
    requires
        i <= v@.len(),
    ensures
        r == stands_at(v@, p@, i as int),
{
    if v.len() - i < p.len() {
        return false;
    }
    let mut k: usize = 0;
    while k < p.len()
        invariant
            k <= p.len(),
            i + p.len() <= v.len(),
            forall|j: int| 0 <= j < k ==> v@[i + j] == p@[j],
        decreases p.len() - k,
    {
        if v[i + k] != p[k] {
            assert(v@.subrange(i as int, i + p@.len())[k as int] != p@[k as int]);
            return false;
        }
        k = k + 1;
    }
    assert(v@.subrange(i as int, i + p@.len()) =~= p@);
    true
}

/// The first index from `from` on at which `p` stands in `s`.
pub fn find_from(v: &Vec<char>, p: &str, from: usize) -> (r: Option<usize>)
    requires
        from <= v@.len(),
    ensures
        match r {
            Some(i) => from <= i && i + p@.len() <= v@.len() && stands_at(v@, p@, i as int)
                && forall|k: int| from <= k < i ==> !stands_at(v@, p@, k),
            None => forall|k: int| from <= k ==> !stands_at(v@, p@, k),
        },
{
    let c = chars_of(p);
    let mut i: usize = from;
    while i < v.len()
        invariant
            from <= i <= v.len(),
            c@ == p@,
            forall|k: int| from <= k < i ==> !stands_at(v@, p@, k),
        decreases v.len() - i,
    {
        if stands(v, &c, i) {
            return Some(i);
        }
        i = i + 1;
    }
    if stands(v, &c, i) {
        Some(i)
    } else {
        None
    }
}

/// The text of a range of characters.
pub fn text_of(v: &Vec<char>, from: usize, to: usize) -> (r: String)
    requires
        from <= to <= v@.len(),
    ensures
        r@ == v@.subrange(from as int, to as int),
{
    let mut r = "".to_owned();
    proof {
        reveal_strlit("");
    }
    let mut i: usize = from;
    assert(r@ =~= v@.subrange(from as int, from as int));
    while i < to
        invariant
            from <= i <= to <= v@.len(),
            r@ == v@.subrange(from as int, i as int),
        decreases to - i,
    {
        r.push(v[i]);
        i = i + 1;
        assert(r@ =~= v@.subrange(from as int, i as int));
    }
    r
}

/// Texts with a separator between them.
pub open spec fn strung(list: Seq<Seq<char>>, sep: char) -> Seq<char>
    decreases list.len(),
{
    if list.len() == 0 {
        seq![]
    } else if list.len() == 1 {
        list[0]
    } else {
        strung(list.drop_last(), sep) + seq![sep] + list.last()
    }
}

/// Words with a space between them are read as these words.
pub proof fn lemma_words_strung(list: Seq<Seq<char>>)
    requires
        list.len() > 0,
        forall|i: int| 0 <= i < list.len() ==> is_word(#[trigger] list[i]),
    ensures
        words(strung(list, ' ')) == list,
    decreases list.len(),
{
    if list.len() == 1 {
        lemma_words_one(list[0]);
        assert(seq![list[0]] =~= list);
    } else {
        let rest = list.drop_last();
        assert forall|i: int| 0 <= i < rest.len() implies is_word(#[trigger] rest[i]) by {
            assert(rest[i] == list[i]);
        }
        lemma_words_strung(rest);
        reveal_strlit(" ");
        assert(" "@ =~= seq![' ']);
        assert(is_word(list[list.len() - 1]));
        lemma_words_more(strung(rest, ' '), list.last());
        assert(rest.push(list.last()) =~= list);
    }
}

/// Texts with a separator between them that stands in none of them are read as these
/// texts.
pub proof fn lemma_pieces_strung(list: Seq<Seq<char>>, sep: char)
    requires
        list.len() > 0,
        forall|i: int| 0 <= i < list.len() ==> !(#[trigger] list[i]).contains(sep),
    ensures
        pieces(strung(list, sep), sep) == list,
    decreases list.len(),
{
    if list.len() == 1 {
        lemma_pieces_one(list[0], sep);
        assert(seq![list[0]] =~= list);
    } else {
        let rest = list.drop_last();
        assert forall|i: int| 0 <= i < rest.len() implies !(#[trigger] rest[i]).contains(sep) by {
            assert(rest[i] == list[i]);
        }
        lemma_pieces_strung(rest, sep);
        assert(!list[list.len() - 1].contains(sep));
        lemma_pieces_more(strung(rest, sep), list.last(), sep);
        assert(rest.push(list.last()) =~= list);
    }
}

/// A number in decimal holds nothing but digits.
pub proof fn lemma_dec_holds(n: nat, c: char)
    requires
        !is_digit(c),
    ensures
        !dec(n).contains(c),
{
    lemma_dec_value(n);
}

} // verus!
