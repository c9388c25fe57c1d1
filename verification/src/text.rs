//! Character-level building blocks: conversions between strings and
//! character vectors, number rendering and parsing, splitting and
//! substring replacement. Every contract is stated over `Seq<char>`.

use vstd::prelude::*;
use vstd::string::*;

verus! {

/// `String::push` of the standard library: appends one character to the
/// end of the string and leaves the rest untouched.
pub assume_specification[ std::string::String::push ](s: &mut std::string::String, c: char)
    ensures
        final(s)@ == old(s)@.push(c),
;

/// The characters of a string slice, in order.
pub fn to_chars(s: &str) -> (v: Vec<char>)
    ensures
        v@ == s@,
{
    let n: usize = s.unicode_len();
    let mut v: Vec<char> = Vec::new();
    let mut i: usize = 0;
    while i < n
        invariant
            n == s@.len(),
            i <= n,
            v@ == s@.subrange(0, i as int),
        decreases n - i,
    {
        v.push(s.get_char(i));
        i += 1;
    }
    v
}

/// The string made of the given characters, in order.
pub fn from_chars(v: &Vec<char>) -> (s: String)
    ensures
        s@ == v@,
{
    let mut s = String::new();
    let mut i: usize = 0;
    while i < v.len()
        invariant
            i <= v.len(),
            s@ == v@.subrange(0, i as int),
        decreases v.len() - i,
    {
        s.push(v[i]);
        i += 1;
    }
    s
}

/// Appends every character of `tail` to `out`.
pub fn push_all(out: &mut Vec<char>, tail: &Vec<char>)
    ensures
        final(out)@ == old(out)@ + tail@,
{
    let mut i: usize = 0;
    while i < tail.len()
        invariant
            i <= tail.len(),
            out@ == old(out)@ + tail@.subrange(0, i as int),
        decreases tail.len() - i,
    {
        out.push(tail[i]);
        i += 1;
    }
}

/// Appends the characters of a string slice to `out`.
pub fn push_str(out: &mut Vec<char>, tail: &str)
    ensures
        final(out)@ == old(out)@ + tail@,
{
    let chars = to_chars(tail);
    push_all(out, &chars);
}

/// Whether two character vectors hold the same text.
pub fn same_chars(a: &Vec<char>, b: &Vec<char>) -> (r: bool)
    ensures
        r == (a@ == b@),
{
    if a.len() != b.len() {
        return false;
    }
    let mut i: usize = 0;
    while i < a.len()
        invariant
            a.len() == b.len(),
            i <= a.len(),
            a@.subrange(0, i as int) == b@.subrange(0, i as int),
        decreases a.len() - i,
    {
        if a[i] != b[i] {
            return false;
        }
        assert(a@.subrange(0, i + 1) == a@.subrange(0, i as int).push(a@[i as int]));
        assert(b@.subrange(0, i + 1) == b@.subrange(0, i as int).push(b@[i as int]));
        i += 1;
    }
    assert(a@ == a@.subrange(0, a.len() as int));
    assert(b@ == b@.subrange(0, b.len() as int));
    true
}

/// Whether a character vector spells exactly the given string.
pub fn is_text(a: &Vec<char>, lit: &str) -> (r: bool)
    ensures
        r == (a@ == lit@),
{
    let b = to_chars(lit);
    same_chars(a, &b)
}

/// Whether two string slices hold the same text.
pub fn same_text(a: &str, b: &str) -> (r: bool)
    ensures
        r == (a@ == b@),
{
    let x = to_chars(a);
    let y = to_chars(b);
    same_chars(&x, &y)
}

/// A copy of a character vector.
pub fn copy_chars(v: &Vec<char>) -> (r: Vec<char>)
    ensures
        r@ == v@,
{
    let mut r: Vec<char> = Vec::new();
    push_all(&mut r, v);
    r
}

/// The digit character for a value below sixteen: `0`-`9`, then `a`-`f`
/// or `A`-`F`.
pub open spec fn digit_char(d: nat, upper: bool) -> char {
    if d == 0 {
        '0'
    } else if d == 1 {
        '1'
    } else if d == 2 {
        '2'
    } else if d == 3 {
        '3'
    } else if d == 4 {
        '4'
    } else if d == 5 {
        '5'
    } else if d == 6 {
        '6'
    } else if d == 7 {
        '7'
    } else if d == 8 {
        '8'
    } else if d == 9 {
        '9'
    } else if d == 10 {
        if upper { 'A' } else { 'a' }
    } else if d == 11 {
        if upper { 'B' } else { 'b' }
    } else if d == 12 {
        if upper { 'C' } else { 'c' }
    } else if d == 13 {
        if upper { 'D' } else { 'd' }
    } else if d == 14 {
        if upper { 'E' } else { 'e' }
    } else {
        if upper { 'F' } else { 'f' }
    }
}

/// Executable form of [`digit_char`].
pub fn digit_to_char(d: u8, upper: bool) -> (c: char)
    ensures
        c == digit_char(d as nat, upper),
{
    if d == 0 {
        '0'
    } else if d == 1 {
        '1'
    } else if d == 2 {
        '2'
    } else if d == 3 {
        '3'
    } else if d == 4 {
        '4'
    } else if d == 5 {
        '5'
    } else if d == 6 {
        '6'
    } else if d == 7 {
        '7'
    } else if d == 8 {
        '8'
    } else if d == 9 {
        '9'
    } else if d == 10 {
        if upper { 'A' } else { 'a' }
    } else if d == 11 {
        if upper { 'B' } else { 'b' }
    } else if d == 12 {
        if upper { 'C' } else { 'c' }
    } else if d == 13 {
        if upper { 'D' } else { 'd' }
    } else if d == 14 {
        if upper { 'E' } else { 'e' }
    } else {
        if upper { 'F' } else { 'f' }
    }
}

/// The decimal digits of `n`, most significant first, without leading
/// zeros; zero is written as a single `0`.
pub open spec fn decimal(n: nat) -> Seq<char>
    decreases n,
{
    if n < 10 {
        seq![digit_char(n, false)]
    } else {
        decimal(n / 10).push(digit_char(n % 10, false))
    }
}

/// The hexadecimal digits of `n`, most significant first, without leading
/// zeros, in upper or lower case.
pub open spec fn hexadecimal(n: nat, upper: bool) -> Seq<char>
    decreases n,
{
    if n < 16 {
        seq![digit_char(n, upper)]
    } else {
        hexadecimal(n / 16, upper).push(digit_char(n % 16, upper))
    }
}

/// The digits of `n` in base sixteen or base ten.
pub open spec fn digits(n: nat, hex: bool, upper: bool) -> Seq<char> {
    if hex {
        hexadecimal(n, upper)
    } else {
        decimal(n)
    }
}

/// `text` preceded by as many `0` as it takes to reach `width` characters.
pub open spec fn zero_fill(text: Seq<char>, width: nat) -> Seq<char> {
    if text.len() >= width {
        text
    } else {
        Seq::new((width - text.len()) as nat, |i: int| '0') + text
    }
}

/// A signed number in decimal, with a leading `-` below zero.
pub open spec fn signed_decimal(n: int) -> Seq<char> {
    if n < 0 {
        seq!['-'] + decimal((-n) as nat)
    } else {
        decimal(n as nat)
    }
}

/// The digits of `n` in base sixteen or ten, padded with zeros to `width`.
pub fn number_chars(n: u64, hex: bool, upper: bool, width: usize) -> (v: Vec<char>)
    ensures
        v@ == zero_fill(digits(n as nat, hex, upper), width as nat),
{
    // Least significant digit first.
    let mut rev: Vec<char> = Vec::new();
    let mut rest: u64 = n;
    let radix: u64 = if hex { 16 } else { 10 };
    let ghost mut tail: Seq<char> = Seq::empty();
    while rest >= radix
        invariant
            radix == if hex { 16u64 } else { 10u64 },
            rev@.len() == tail.len(),
            forall|k: int| 0 <= k < tail.len() ==> rev@[k] == tail[tail.len() - 1 - k],
            digits(n as nat, hex, upper) == digits(rest as nat, hex, upper) + tail,
        decreases rest,
    {
        let d: u8 = (rest % radix) as u8;
        let c = digit_to_char(d, !hex || upper);
        proof {
            let before = tail;
            tail = seq![c] + tail;
            let shorter = digits((rest / radix) as nat, hex, upper);
            assert(c == digit_char(d as nat, upper));
            assert(digits(rest as nat, hex, upper) == shorter.push(c));
            assert(shorter.push(c) + before == shorter + tail);
        }
        rev.push(c);
        rest = rest / radix;
    }
    let lead = digit_to_char(rest as u8, !hex || upper);
    proof {
        assert(lead == digit_char(rest as nat, upper));
        assert(digits(rest as nat, hex, upper) == seq![lead]);
    }
    let ghost text = digits(n as nat, hex, upper);
    let count: usize = rev.len();
    let mut v: Vec<char> = Vec::new();
    if count < width {
        let mut pad: usize = count + 1;
        while pad < width
            invariant
                count + 1 <= pad <= width,
                v@ == Seq::new((pad - count - 1) as nat, |i: int| '0'),
            decreases width - pad,
        {
            v.push('0');
            pad += 1;
        }
    }
    let ghost fill = v@;
    assert(text.len() == count + 1);
    assert(zero_fill(text, width as nat) == fill + text) by {
        if text.len() >= width {
            assert(fill == Seq::<char>::empty());
        }
    }
    v.push(lead);
    let mut i: usize = count;
    while i > 0
        invariant
            i <= count,
            count == tail.len(),
            rev@.len() == tail.len(),
            forall|k: int| 0 <= k < tail.len() ==> rev@[k] == tail[tail.len() - 1 - k],
            v@ == fill + seq![lead] + tail.subrange(0, count - i),
        decreases i,
    {
        i -= 1;
        v.push(rev[i]);
        assert(tail.subrange(0, count - i) == tail.subrange(0, count - i - 1).push(
            tail[count - i - 1],
        ));
    }
    assert(tail.subrange(0, count as int) == tail);
    v
}

/// Appends `n` in decimal.
pub fn push_decimal(out: &mut Vec<char>, n: u64)
    ensures
        final(out)@ == old(out)@ + decimal(n as nat),
{
    let v = number_chars(n, false, false, 0);
    push_all(out, &v);
}

/// Appends a signed number in decimal.
pub fn push_signed_decimal(out: &mut Vec<char>, n: i64)
    ensures
        final(out)@ == old(out)@ + signed_decimal(n as int),
{
    if n < 0 {
        out.push('-');
        let magnitude: u64 = if n == i64::MIN {
            9223372036854775808u64
        } else {
            (-n) as u64
        };
        let v = number_chars(magnitude, false, false, 0);
        push_all(out, &v);
        assert(out@ == old(out)@ + (seq!['-'] + decimal((-n) as nat)));
    } else {
        let v = number_chars(n as u64, false, false, 0);
        push_all(out, &v);
    }
}

/// The value of a digit character, if it is one: `0`-`9`, and in base
/// sixteen also `a`-`f` and `A`-`F`.
pub open spec fn digit_value(c: char, hex: bool) -> Option<nat> {
    if c == '0' {
        Some(0)
    } else if c == '1' {
        Some(1)
    } else if c == '2' {
        Some(2)
    } else if c == '3' {
        Some(3)
    } else if c == '4' {
        Some(4)
    } else if c == '5' {
        Some(5)
    } else if c == '6' {
        Some(6)
    } else if c == '7' {
        Some(7)
    } else if c == '8' {
        Some(8)
    } else if c == '9' {
        Some(9)
    } else if hex && (c == 'a' || c == 'A') {
        Some(10)
    } else if hex && (c == 'b' || c == 'B') {
        Some(11)
    } else if hex && (c == 'c' || c == 'C') {
        Some(12)
    } else if hex && (c == 'd' || c == 'D') {
        Some(13)
    } else if hex && (c == 'e' || c == 'E') {
        Some(14)
    } else if hex && (c == 'f' || c == 'F') {
        Some(15)
    } else {
        None
    }
}

/// Executable form of [`digit_value`].
pub fn char_to_digit(c: char, hex: bool) -> (d: Option<u8>)
    ensures
        d is Some <==> digit_value(c, hex) is Some,
        d matches Some(v) ==> digit_value(c, hex) == Some(v as nat) && v < 16 && (!hex ==> v
            < 10),
{
    if c == '0' {
        Some(0)
    } else if c == '1' {
        Some(1)
    } else if c == '2' {
        Some(2)
    } else if c == '3' {
        Some(3)
    } else if c == '4' {
        Some(4)
    } else if c == '5' {
        Some(5)
    } else if c == '6' {
        Some(6)
    } else if c == '7' {
        Some(7)
    } else if c == '8' {
        Some(8)
    } else if c == '9' {
        Some(9)
    } else if hex && (c == 'a' || c == 'A') {
        Some(10)
    } else if hex && (c == 'b' || c == 'B') {
        Some(11)
    } else if hex && (c == 'c' || c == 'C') {
        Some(12)
    } else if hex && (c == 'd' || c == 'D') {
        Some(13)
    } else if hex && (c == 'e' || c == 'E') {
        Some(14)
    } else if hex && (c == 'f' || c == 'F') {
        Some(15)
    } else {
        None
    }
}

/// Whether every character is a digit of the base.
pub open spec fn all_digits(s: Seq<char>, hex: bool) -> bool {
    forall|i: int| 0 <= i < s.len() ==> (#[trigger] digit_value(s[i], hex)) is Some
}

/// The number that a run of digits spells, most significant digit first.
/// A character that is no digit counts as zero.
pub open spec fn digits_number(s: Seq<char>, hex: bool) -> nat
    decreases s.len(),
{
    if s.len() == 0 {
        0
    } else {
        let last = match digit_value(s.last(), hex) {
            Some(d) => d,
            None => 0,
        };
        if hex {
            digits_number(s.drop_last(), hex) * 16 + last
        } else {
            digits_number(s.drop_last(), hex) * 10 + last
        }
    }
}

/// What remains of a number's text once one leading `+` is taken off.
pub open spec fn unsigned_body(s: Seq<char>) -> Seq<char> {
    if s.len() > 0 && s[0] == '+' {
        s.subrange(1, s.len() as int)
    } else {
        s
    }
}

/// Reads an unsigned number: an optional `+`, then one or more digits and
/// nothing else, spelling a value of at most `max`.
pub open spec fn parse_unsigned(s: Seq<char>, hex: bool, max: nat) -> Option<nat> {
    let body = unsigned_body(s);
    if body.len() == 0 || !all_digits(body, hex) || digits_number(body, hex) > max {
        None
    } else {
        Some(digits_number(body, hex))
    }
}

/// A longer run of digits never spells a smaller number than its prefix.
pub proof fn lemma_digits_number_grows(s: Seq<char>, hex: bool, i: int)
    requires
        0 <= i <= s.len(),
    ensures
        digits_number(s.subrange(0, i), hex) <= digits_number(s, hex),
    decreases s.len(),
{
    if i == s.len() {
        assert(s.subrange(0, i) == s);
    } else {
        assert(s.drop_last().subrange(0, i) == s.subrange(0, i));
        lemma_digits_number_grows(s.drop_last(), hex, i);
    }
}

/// Executable form of [`parse_unsigned`].
pub fn read_unsigned(s: &Vec<char>, hex: bool, max: u64) -> (r: Option<u64>)
    ensures
        r is Some <==> parse_unsigned(s@, hex, max as nat) is Some,
        r matches Some(v) ==> parse_unsigned(s@, hex, max as nat) == Some(v as nat),
{
    let start: usize = if s.len() > 0 && s[0] == '+' { 1 } else { 0 };
    let ghost body = unsigned_body(s@);
    if start == s.len() {
        return None;
    }
    let radix: u64 = if hex { 16 } else { 10 };
    let mut acc: u64 = 0;
    let mut i: usize = start;
    assert(body == s@.subrange(start as int, s.len() as int));
    while i < s.len()
        invariant
            start <= i <= s.len(),
            radix == if hex { 16u64 } else { 10u64 },
            body == unsigned_body(s@),
            body == s@.subrange(start as int, s.len() as int),
            acc as nat == digits_number(body.subrange(0, i - start), hex),
            acc <= max,
            all_digits(body.subrange(0, i - start), hex),
        decreases s.len() - i,
    {
        let ghost k: int = i - start;
        assert(body[k] == s@[i as int]);
        assert(body.subrange(0, k + 1).drop_last() == body.subrange(0, k));
        match char_to_digit(s[i], hex) {
            None => {
                assert(digit_value(body[k], hex) is None);
                return None;
            },
            Some(d) => {
                let ghost next = digits_number(body.subrange(0, k + 1), hex);
                assert(next == acc * radix + d);
                if d as u64 > max {
                    proof {
                        lemma_digits_number_grows(body, hex, k + 1);
                    }
                    return None;
                }
                if acc > (max - d as u64) / radix {
                    proof {
                        assert(acc * radix + d > max) by (nonlinear_arith)
                            requires
                                acc > (max - d) / (radix as int),
                                radix > 0,
                                d <= max,
                        ;
                        lemma_digits_number_grows(body, hex, k + 1);
                    }
                    return None;
                }
                assert(acc * radix + d <= max) by (nonlinear_arith)
                    requires
                        acc <= (max - d) / (radix as int),
                        radix > 0,
                        d <= max,
                ;
                acc = acc * radix + d as u64;
                assert forall|j: int| 0 <= j < k + 1 implies (#[trigger] digit_value(
                    body.subrange(0, k + 1)[j],
                    hex,
                )) is Some by {
                    if j < k {
                        assert(body.subrange(0, k)[j] == body.subrange(0, k + 1)[j]);
                    }
                }
            },
        }
        i += 1;
    }
    assert(body.subrange(0, body.len() as int) == body);
    Some(acc)
}

/// Whether `s` begins with `prefix`.
pub open spec fn has_prefix(s: Seq<char>, prefix: Seq<char>) -> bool {
    prefix.len() <= s.len() && s.subrange(0, prefix.len() as int) == prefix
}

/// Whether `pattern` stands in `s` at position `at`.
pub open spec fn occurs_at(s: Seq<char>, pattern: Seq<char>, at: int) -> bool {
    0 <= at && at + pattern.len() <= s.len() && s.subrange(at, at + pattern.len()) == pattern
}

/// Executable form of [`occurs_at`].
pub fn found_at(s: &Vec<char>, pattern: &Vec<char>, at: usize) -> (r: bool)
    ensures
        r == occurs_at(s@, pattern@, at as int),
{
    if at > s.len() || pattern.len() > s.len() - at {
        return false;
    }
    let mut i: usize = 0;
    while i < pattern.len()
        invariant
            i <= pattern.len(),
            at + pattern.len() <= s.len(),
            s@.subrange(at as int, at + i) == pattern@.subrange(0, i as int),
        decreases pattern.len() - i,
    {
        if s[at + i] != pattern[i] {
            assert(s@.subrange(at as int, at + pattern.len())[i as int] == s@[at + i]);
            return false;
        }
        assert(s@.subrange(at as int, at + i + 1) == s@.subrange(at as int, at + i).push(
            s@[at + i],
        ));
        assert(pattern@.subrange(0, i + 1) == pattern@.subrange(0, i as int).push(
            pattern@[i as int],
        ));
        i += 1;
    }
    assert(pattern@.subrange(0, pattern.len() as int) == pattern@);
    true
}

/// Whether the character `c` occurs in `s`.
pub fn has_char(s: &Vec<char>, c: char) -> (r: bool)
    ensures
        r == s@.contains(c),
{
    let mut i: usize = 0;
    while i < s.len()
        invariant
            i <= s.len(),
            forall|j: int| 0 <= j < i ==> s@[j] != c,
        decreases s.len() - i,
    {
        if s[i] == c {
            return true;
        }
        i += 1;
    }
    false
}

/// `s` with every occurrence of `pattern` replaced by `with`, scanning
/// from the left and never looking again at what was already replaced.
/// An empty pattern occurs nowhere.
pub open spec fn replaced(s: Seq<char>, pattern: Seq<char>, with: Seq<char>) -> Seq<char>
    decreases s.len(),
{
    if pattern.len() == 0 || s.len() < pattern.len() {
        s
    } else if occurs_at(s, pattern, 0) {
        with + replaced(s.subrange(pattern.len() as int, s.len() as int), pattern, with)
    } else {
        seq![s[0]] + replaced(s.subrange(1, s.len() as int), pattern, with)
    }
}

/// Executable form of [`replaced`].
pub fn replace_all(s: &Vec<char>, pattern: &Vec<char>, with: &Vec<char>) -> (r: Vec<char>)
    ensures
        r@ == replaced(s@, pattern@, with@),
{
    if pattern.len() == 0 {
        return copy_chars(s);
    }
    let mut out: Vec<char> = Vec::new();
    let mut i: usize = 0;
    assert(s@.subrange(0, s.len() as int) == s@);
    assert(out@ + replaced(s@, pattern@, with@) == replaced(s@, pattern@, with@));
    while i < s.len() && s.len() - i >= pattern.len()
        invariant
            i <= s.len(),
            pattern@.len() > 0,
            out@ + replaced(s@.subrange(i as int, s.len() as int), pattern@, with@) == replaced(
                s@,
                pattern@,
                with@,
            ),
        decreases s.len() - i,
    {
        let ghost rest = s@.subrange(i as int, s.len() as int);
        let ghost before = out@;
        let hit = found_at(s, pattern, i);
        assert(rest.subrange(0, pattern.len() as int) == s@.subrange(
            i as int,
            i + pattern.len(),
        ));
        assert(hit == occurs_at(rest, pattern@, 0));
        if hit {
            push_all(&mut out, with);
            assert(rest.subrange(pattern.len() as int, rest.len() as int) == s@.subrange(
                i + pattern.len(),
                s.len() as int,
            ));
            i += pattern.len();
            assert(out@ + replaced(s@.subrange(i as int, s.len() as int), pattern@, with@)
                == before + (with@ + replaced(
                s@.subrange(i as int, s.len() as int),
                pattern@,
                with@,
            )));
        } else {
            out.push(s[i]);
            assert(rest.subrange(1, rest.len() as int) == s@.subrange(i + 1, s.len() as int));
            assert(rest[0] == s@[i as int]);
            i += 1;
            assert(out@ + replaced(s@.subrange(i as int, s.len() as int), pattern@, with@)
                == before + (seq![rest[0]] + replaced(
                s@.subrange(i as int, s.len() as int),
                pattern@,
                with@,
            )));
        }
    }
    let ghost rest = s@.subrange(i as int, s.len() as int);
    assert(replaced(rest, pattern@, with@) == rest);
    while i < s.len()
        invariant
            i <= s.len(),
            out@ + s@.subrange(i as int, s.len() as int) == replaced(s@, pattern@, with@),
        decreases s.len() - i,
    {
        let ghost before = out@;
        out.push(s[i]);
        assert(s@.subrange(i as int, s.len() as int) == seq![s@[i as int]] + s@.subrange(
            i + 1,
            s.len() as int,
        ));
        assert(before + (seq![s@[i as int]] + s@.subrange(i + 1, s.len() as int)) == out@
            + s@.subrange(i + 1, s.len() as int));
        i += 1;
    }
    assert(s@.subrange(s.len() as int, s.len() as int) == Seq::<char>::empty());
    assert(out@ + Seq::<char>::empty() == out@);
    out
}

/// The pieces of `s` between occurrences of the separator `sep`, in order.
/// There is always at least one piece; a piece may be empty.
pub open spec fn split(s: Seq<char>, sep: char) -> Seq<Seq<char>>
    decreases s.len(),
{
    if s.len() == 0 {
        seq![Seq::<char>::empty()]
    } else {
        let before = split(s.drop_last(), sep);
        if s.last() == sep {
            before.push(Seq::<char>::empty())
        } else {
            before.drop_last().push(before.last().push(s.last()))
        }
    }
}

/// The views of a vector of character vectors.
pub open spec fn texts(v: Seq<Vec<char>>) -> Seq<Seq<char>> {
    Seq::new(v.len(), |i: int| v[i]@)
}

/// Executable form of [`split`].
pub fn split_on(s: &Vec<char>, sep: char) -> (parts: Vec<Vec<char>>)
    ensures
        texts(parts@) == split(s@, sep),
        parts@.len() >= 1,
{
    let mut parts: Vec<Vec<char>> = Vec::new();
    let mut current: Vec<char> = Vec::new();
    let mut i: usize = 0;
    while i < s.len()
        invariant
            i <= s.len(),
            texts(parts@).push(current@) == split(s@.subrange(0, i as int), sep),
        decreases s.len() - i,
    {
        let ghost prefix = s@.subrange(0, i as int);
        let ghost next = s@.subrange(0, i + 1);
        assert(next.drop_last() == prefix);
        assert(next.last() == s@[i as int]);
        let ghost done = texts(parts@);
        if s[i] == sep {
            let ghost finished = current@;
            parts.push(current);
            current = Vec::new();
            assert(texts(parts@) == done.push(finished));
        } else {
            let ghost open = current@;
            current.push(s[i]);
            assert(done.push(open).drop_last() == done);
        }
        i += 1;
    }
    assert(s@.subrange(0, s.len() as int) == s@);
    let ghost done = texts(parts@);
    let ghost finished = current@;
    parts.push(current);
    assert(texts(parts@) == done.push(finished));
    parts
}

/// Appends the characters of `s` from position `from` up to `to`.
pub(crate) fn push_range(out: &mut Vec<char>, s: &Vec<char>, from: usize, to: usize)
    requires
        from <= to <= s@.len(),
    ensures
        final(out)@ == old(out)@ + s@.subrange(from as int, to as int),
{
    let mut i: usize = from;
    while i < to
        invariant
            from <= i <= to <= s@.len(),
            out@ == old(out)@ + s@.subrange(from as int, i as int),
        decreases to - i,
    {
        out.push(s[i]);
        assert(s@.subrange(from as int, i + 1) == s@.subrange(from as int, i as int).push(
            s@[i as int],
        ));
        i += 1;
    }
}

/// The texts of `items` with `between` put between each two neighbours.
pub open spec fn joined(items: Seq<Seq<char>>, between: Seq<char>) -> Seq<char>
    decreases items.len(),
{
    if items.len() == 0 {
        Seq::empty()
    } else if items.len() == 1 {
        items[0]
    } else {
        joined(items.drop_last(), between) + between + items.last()
    }
}

/// How often the character `c` occurs in `s`.
pub open spec fn occurrences(s: Seq<char>, c: char) -> nat
    decreases s.len(),
{
    if s.len() == 0 {
        0
    } else {
        occurrences(s.drop_last(), c) + if s.last() == c {
            1nat
        } else {
            0nat
        }
    }
}

/// The occurrences in a concatenation are those in its two parts.
pub proof fn lemma_occurrences_concat(a: Seq<char>, b: Seq<char>, c: char)
    ensures
        occurrences(a + b, c) == occurrences(a, c) + occurrences(b, c),
    decreases b.len(),
{
    if b.len() == 0 {
        assert(a + b == a);
    } else {
        assert((a + b).drop_last() == a + b.drop_last());
        lemma_occurrences_concat(a, b.drop_last(), c);
    }
}

/// A text that does not hold a character has no occurrence of it.
pub proof fn lemma_occurrences_none(s: Seq<char>, c: char)
    requires
        !s.contains(c),
    ensures
        occurrences(s, c) == 0,
    decreases s.len(),
{
    if s.len() > 0 {
        assert(s.last() == s[s.len() - 1]);
        assert forall|i: int| 0 <= i < s.drop_last().len() implies s.drop_last()[i] != c by {
            assert(s.drop_last()[i] == s[i]);
        }
        lemma_occurrences_none(s.drop_last(), c);
    }
}

/// A character that is replaced by another one is gone.
pub proof fn lemma_replaced_char_is_gone(s: Seq<char>, c: char, with: char)
    requires
        c != with,
    ensures
        !replaced(s, seq![c], seq![with]).contains(c),
    decreases s.len(),
{
    let pattern = seq![c];
    let by = seq![with];
    if s.len() >= 1 {
        let rest = s.subrange(1, s.len() as int);
        lemma_replaced_char_is_gone(rest, c, with);
        let tail = replaced(rest, pattern, by);
        assert(s.subrange(0, 1) == seq![s[0]]);
        if occurs_at(s, pattern, 0) {
            assert(s[0] == pattern[0]);
            assert(replaced(s, pattern, by) == by + tail);
            assert forall|i: int| 0 <= i < (by + tail).len() implies (by + tail)[i] != c by {
                if i >= 1 {
                    assert((by + tail)[i] == tail[i - 1]);
                }
            }
        } else {
            assert(s[0] != c) by {
                if s[0] == c {
                    assert(s.subrange(0, 1) == pattern);
                }
            }
            assert(replaced(s, pattern, by) == seq![s[0]] + tail);
            assert forall|i: int| 0 <= i < (seq![s[0]] + tail).len() implies (seq![s[0]]
                + tail)[i] != c by {
                if i >= 1 {
                    assert((seq![s[0]] + tail)[i] == tail[i - 1]);
                }
            }
        }
    }
}

/// Texts that do not hold the separator, joined by it, hold it once
/// between each two neighbours and nowhere else.
pub proof fn lemma_joined_separators(items: Seq<Seq<char>>, separator: char)
    requires
        forall|i: int| 0 <= i < items.len() ==> !(#[trigger] items[i]).contains(separator),
    ensures
        occurrences(joined(items, seq![separator]), separator) == if items.len() == 0 {
            0
        } else {
            items.len() - 1
        },
    decreases items.len(),
{
    if items.len() == 1 {
        lemma_occurrences_none(items[0], separator);
    } else if items.len() > 1 {
        let head = joined(items.drop_last(), seq![separator]);
        assert forall|i: int| 0 <= i < items.drop_last().len() implies !(
        #[trigger] items.drop_last()[i]).contains(separator) by {
            assert(items.drop_last()[i] == items[i]);
        }
        lemma_joined_separators(items.drop_last(), separator);
        lemma_occurrences_concat(head, seq![separator], separator);
        lemma_occurrences_concat(head + seq![separator], items.last(), separator);
        lemma_occurrences_none(items.last(), separator);
        assert(seq![separator].drop_last() == Seq::<char>::empty());
        assert(seq![separator].last() == separator);
        assert(occurrences(Seq::<char>::empty(), separator) == 0);
        assert(occurrences(seq![separator], separator) == 1);
    }
}

} // verus!
