//! Text primitives: white space, splitting, and reading and writing numbers.
//!
//! A text is a sequence of characters. Functions that read take a slice of
//! characters; functions that write append to a `String`.

use vstd::prelude::*;
use vstd::slice::slice_subrange;
use vstd::utf8::{decode_utf8, valid_utf8};

verus! {

/// `String::push` appends one character and leaves what was there unchanged.
pub assume_specification[ String::push ](s: &mut String, c: char)
    ensures
        final(s)@ == old(s)@.push(c),
;

/// `core::str::from_utf8` reads bytes as text. It succeeds exactly on valid UTF-8, and
/// the text holds the characters that the bytes encode.
#[verifier::external_body]
pub(crate) fn utf8_text(bytes: &[u8]) -> (r: Option<&str>)
    ensures
        r is Some <==> valid_utf8(bytes@),
        r matches Some(s) ==> s@ == decode_utf8(bytes@),
{
    core::str::from_utf8(bytes).ok()
}

/// The characters that have the Unicode `White_Space` property.
pub open spec fn is_white_space(c: char) -> bool {
    let u = c as u32;
    ||| 0x09 <= u <= 0x0D
    ||| u == 0x20
    ||| u == 0x85
    ||| u == 0xA0
    ||| u == 0x1680
    ||| 0x2000 <= u <= 0x200A
    ||| u == 0x2028
    ||| u == 0x2029
    ||| u == 0x202F
    ||| u == 0x205F
    ||| u == 0x3000
}

/// Tell whether a character is white space.
pub fn white_space(c: char) -> (r: bool)
    ensures
        r == is_white_space(c),
{
    let u: u32 = c as u32;
    (0x09 <= u && u <= 0x0D) || u == 0x20 || u == 0x85 || u == 0xA0 || u == 0x1680 || (0x2000 <= u
        && u <= 0x200A) || u == 0x2028 || u == 0x2029 || u == 0x202F || u == 0x205F || u == 0x3000
}

/// The text without its leading white space.
pub open spec fn trim_start(s: Seq<char>) -> Seq<char>
    decreases s.len(),
{
    if s.len() > 0 && is_white_space(s[0]) {
        trim_start(s.skip(1))
    } else {
        s
    }
}

/// The text without its trailing white space.
pub open spec fn trim_end(s: Seq<char>) -> Seq<char>
    decreases s.len(),
{
    if s.len() > 0 && is_white_space(s.last()) {
        trim_end(s.drop_last())
    } else {
        s
    }
}

/// The text without the white space at its ends.
pub open spec fn trimmed(s: Seq<char>) -> Seq<char> {
    trim_end(trim_start(s))
}

/// Cut the leading white space off a text.
pub fn trim_front(s: &[char]) -> (r: &[char])
    ensures
        r@ == trim_start(s@),
{
    let n: usize = s.len();
    let mut from: usize = 0;
    assert(s@.skip(0) == s@);
    while from < n && white_space(s[from])
        invariant
            n == s@.len(),
            from <= n,
            trim_start(s@) == trim_start(s@.skip(from as int)),
        decreases n - from,
    {
        assert(s@.skip(from as int).skip(1) == s@.skip(from + 1));
        from = from + 1;
    }
    assert(s@.skip(from as int) == s@.subrange(from as int, n as int));
    slice_subrange(s, from, n)
}

/// Cut the white space off both ends of a text.
pub fn trim(s: &[char]) -> (r: &[char])
    ensures
        r@ == trimmed(s@),
{
    let body = trim_front(s);
    let mut to: usize = body.len();
    assert(body@.take(to as int) == body@);
    while 0 < to && white_space(body[to - 1])
        invariant
            to <= body@.len(),
            trim_end(body@) == trim_end(body@.take(to as int)),
        decreases to,
    {
        assert(body@.take(to as int).drop_last() == body@.take(to - 1));
        to = to - 1;
    }
    assert(body@.take(to as int) == body@.subrange(0, to as int));
    slice_subrange(body, 0, to)
}

/// Collect the characters of a string slice.
pub fn chars_of(s: &str) -> (r: Vec<char>)
    ensures
        r@ == s@,
{
    let mut out: Vec<char> = Vec::new();
    for c in it: s.chars()
        invariant
            out@ == it.seq().take(it.index()),
            it.seq() == s@,
    {
        out.push(c);
    }
    out
}

/// Build a string from characters.
pub fn string_of(s: &[char]) -> (r: String)
    ensures
        r@ == s@,
{
    let mut out = String::new();
    let n: usize = s.len();
    let mut i: usize = 0;
    while i < n
        invariant
            n == s@.len(),
            i <= n,
            out@ == s@.take(i as int),
        decreases n - i,
    {
        out.push(s[i]);
        i = i + 1;
        assert(out@ == s@.take(i as int));
    }
    assert(s@.take(n as int) == s@);
    out
}

/// Position of the first `sep` in a text, or the text's length if there is none.
pub open spec fn first_index(s: Seq<char>, sep: char) -> int
    decreases s.len(),
{
    if s.len() == 0 || s[0] == sep {
        0
    } else {
        1 + first_index(s.skip(1), sep)
    }
}

/// `first_index` is the only position that `sep` holds with none before it.
pub proof fn lemma_first_index(s: Seq<char>, sep: char, i: int)
    requires
        0 <= i <= s.len(),
        forall|j: int| 0 <= j < i ==> s[j] != sep,
        i < s.len() ==> s[i] == sep,
    ensures
        first_index(s, sep) == i,
    decreases s.len(),
{
    if i > 0 {
        assert(s[0] != sep);
        assert forall|j: int| 0 <= j < i - 1 implies s.skip(1)[j] != sep by {
            assert(s.skip(1)[j] == s[j + 1]);
        }
        lemma_first_index(s.skip(1), sep, i - 1);
    }
}

/// `first_index` holds `sep`, if it lies in the text, and nothing before it does.
pub proof fn lemma_at_first_index(s: Seq<char>, sep: char)
    ensures
        0 <= first_index(s, sep) <= s.len(),
        forall|j: int| 0 <= j < first_index(s, sep) ==> s[j] != sep,
        first_index(s, sep) < s.len() ==> s[first_index(s, sep)] == sep,
    decreases s.len(),
{
    if s.len() > 0 && s[0] != sep {
        let rest = s.skip(1);
        lemma_at_first_index(rest, sep);
        assert forall|j: int| 0 <= j < first_index(s, sep) implies s[j] != sep by {
            if j > 0 {
                assert(s[j] == rest[j - 1]);
            }
        }
    }
}

/// Find the first `sep` in a text; the text's length if there is none.
pub fn index_of(s: &[char], sep: char) -> (r: usize)
    ensures
        r == first_index(s@, sep),
        r <= s@.len(),
        forall|j: int| 0 <= j < r ==> s@[j] != sep,
        r < s@.len() ==> s@[r as int] == sep,
{
    let n: usize = s.len();
    let mut i: usize = 0;
    while i < n && s[i] != sep
        invariant
            n == s@.len(),
            i <= n,
            forall|j: int| 0 <= j < i ==> s@[j] != sep,
        decreases n - i,
    {
        i = i + 1;
    }
    proof {
        lemma_first_index(s@, sep, i as int);
    }
    i
}

/// The pieces of a text between the occurrences of `sep`; always at least one.
pub open spec fn fields(s: Seq<char>, sep: char) -> Seq<Seq<char>>
    decreases s.len(),
{
    let i = first_index(s, sep);
    if 0 <= i < s.len() {
        seq![s.take(i)] + fields(s.skip(i + 1), sep)
    } else {
        seq![s]
    }
}

/// Split a text at every `sep`.
pub fn split(s: &[char], sep: char) -> (r: Vec<Vec<char>>)
    ensures
        r@.len() == fields(s@, sep).len(),
        forall|i: int| 0 <= i < r@.len() ==> (#[trigger] r@[i])@ == fields(s@, sep)[i],
{
    let mut out: Vec<Vec<char>> = Vec::new();
    let mut rest: &[char] = s;
    let mut i: usize = index_of(rest, sep);
    let ghost mut done: Seq<Seq<char>> = Seq::empty();
    assert(done + fields(s@, sep) == fields(s@, sep));
    while i < rest.len()
        invariant
            i == first_index(rest@, sep),
            i <= rest@.len(),
            done.len() == out@.len(),
            forall|k: int| 0 <= k < done.len() ==> (#[trigger] out@[k])@ == done[k],
            done + fields(rest@, sep) == fields(s@, sep),
        decreases rest@.len(),
    {
        let piece = slice_subrange(rest, 0, i);
        assert(piece@ == rest@.take(i as int));
        let next = slice_subrange(rest, i + 1, rest.len());
        assert(next@ == rest@.skip(i + 1));
        out.push(copy_of(piece));
        proof {
            let grown = done.push(rest@.take(i as int));
            assert(grown + fields(next@, sep) == done + fields(rest@, sep));
            done = grown;
        }
        rest = next;
        i = index_of(rest, sep);
    }
    out.push(copy_of(rest));
    assert(done.push(rest@) == done + fields(rest@, sep));
    out
}

/// Copy a slice of characters.
fn copy_of(s: &[char]) -> (r: Vec<char>)
    ensures
        r@ == s@,
{
    let mut out: Vec<char> = Vec::new();
    let n: usize = s.len();
    let mut i: usize = 0;
    while i < n
        invariant
            n == s@.len(),
            i <= n,
            out@ == s@.take(i as int),
        decreases n - i,
    {
        out.push(s[i]);
        i = i + 1;
        assert(out@ == s@.take(i as int));
    }
    assert(s@.take(n as int) == s@);
    out
}

/// Whether two texts are the same.
pub fn same(a: &[char], b: &[char]) -> (r: bool)
    ensures
        r == (a@ == b@),
{
    let n: usize = a.len();
    if n != b.len() {
        return false;
    }
    let mut i: usize = 0;
    while i < n
        invariant
            n == a@.len(),
            n == b@.len(),
            i <= n,
            forall|j: int| 0 <= j < i ==> a@[j] == b@[j],
        decreases n - i,
    {
        if a[i] != b[i] {
            return false;
        }
        i = i + 1;
    }
    assert(a@ == b@);
    true
}

/// Whether a text begins with another.
pub open spec fn begins_with(s: Seq<char>, prefix: Seq<char>) -> bool {
    prefix.len() <= s.len() && s.take(prefix.len() as int) == prefix
}

/// Tell whether a text begins with another.
pub fn starts_with(s: &[char], prefix: &str) -> (r: bool)
    ensures
        r == begins_with(s@, prefix@),
{
    let p = chars_of(prefix);
    if p.len() > s.len() {
        return false;
    }
    let head = slice_subrange(s, 0, p.len());
    assert(head@ == s@.take(p@.len() as int));
    same(head, p.as_slice())
}

/// Whether a character is one of `0` to `9`.
pub open spec fn is_digit(c: char) -> bool {
    '0' <= c <= '9'
}

/// The number that a decimal digit stands for.
pub open spec fn digit_value(c: char) -> int {
    c as int - '0' as int
}

/// Whether every character is a decimal digit.
pub open spec fn all_digits(s: Seq<char>) -> bool {
    forall|i: int| 0 <= i < s.len() ==> is_digit(#[trigger] s[i])
}

/// The number that a row of decimal digits stands for.
pub open spec fn digits_value(s: Seq<char>) -> int
    decreases s.len(),
{
    if s.len() == 0 {
        0
    } else {
        digits_value(s.drop_last()) * 10 + digit_value(s.last())
    }
}

/// A row of at least one digit whose value does not exceed `max`.
pub open spec fn plain_number(s: Seq<char>, max: int) -> Option<int> {
    if s.len() > 0 && all_digits(s) && digits_value(s) <= max {
        Some(digits_value(s))
    } else {
        None
    }
}

/// An unsigned number: digits, with an optional `+` in front.
pub open spec fn unsigned_number(s: Seq<char>, max: int) -> Option<int> {
    if s.len() > 0 && s[0] == '+' {
        plain_number(s.skip(1), max)
    } else {
        plain_number(s, max)
    }
}

/// A signed number: digits, with an optional `+` or `-` in front.
pub open spec fn signed_number(s: Seq<char>, min: int, max: int) -> Option<int> {
    if s.len() > 0 && s[0] == '-' {
        match plain_number(s.skip(1), -min) {
            Some(v) => Some(-v),
            None => None,
        }
    } else {
        unsigned_number(s, max)
    }
}

/// Read a row of digits that stands for a number up to `max`.
fn read_plain(s: &[char], max: u64) -> (r: Option<u64>)
    requires
        max <= u32::MAX,
    ensures
        r is Some <==> plain_number(s@, max as int) is Some,
        r matches Some(v) ==> plain_number(s@, max as int) == Some(v as int),
{
    let n: usize = s.len();
    if n == 0 {
        return None;
    }
    let mut value: u64 = 0;
    let mut over: bool = false;
    let mut i: usize = 0;
    while i < n
        invariant
            n == s@.len(),
            i <= n,
            max <= u32::MAX,
            all_digits(s@.take(i as int)),
            over ==> digits_value(s@.take(i as int)) > max,
            !over ==> digits_value(s@.take(i as int)) == value && value <= max,
        decreases n - i,
    {
        let c: char = s[i];
        if c < '0' || c > '9' {
            assert(!is_digit(s@[i as int]));
            return None;
        }
        let d: u64 = c as u64 - '0' as u64;
        proof {
            let longer = s@.take(i + 1);
            assert(longer.drop_last() == s@.take(i as int));
            assert(longer.last() == c);
            assert(all_digits(longer)) by {
                assert forall|j: int| 0 <= j < longer.len() implies is_digit(
                    #[trigger] longer[j],
                ) by {
                    if j < i {
                        assert(s@.take(i as int)[j] == longer[j]);
                    }
                }
            }
        }
        if !over {
            value = value * 10 + d;
            if value > max {
                over = true;
            }
        }
        i = i + 1;
    }
    assert(s@.take(n as int) == s@);
    if over {
        None
    } else {
        Some(value)
    }
}

/// Read an unsigned number up to `max`, with an optional `+` in front.
pub fn read_unsigned(s: &[char], max: u64) -> (r: Option<u64>)
    requires
        max <= u32::MAX,
    ensures
        r is Some <==> unsigned_number(s@, max as int) is Some,
        r matches Some(v) ==> unsigned_number(s@, max as int) == Some(v as int),
{
    if s.len() > 0 && s[0] == '+' {
        let body = slice_subrange(s, 1, s.len());
        assert(body@ == s@.skip(1));
        read_plain(body, max)
    } else {
        read_plain(s, max)
    }
}

/// Read a signed number from `-limit` to `limit`, with an optional sign in front.
pub fn read_signed(s: &[char], limit: u64) -> (r: Option<i64>)
    requires
        limit <= u32::MAX,
    ensures
        r is Some <==> signed_number(s@, -limit, limit as int) is Some,
        r matches Some(v) ==> signed_number(s@, -limit, limit as int) == Some(v as int) && -limit
            <= v <= limit,
{
    if s.len() > 0 && s[0] == '-' {
        let body = slice_subrange(s, 1, s.len());
        assert(body@ == s@.skip(1));
        match read_plain(body, limit) {
            Some(v) => Some(-(v as i64)),
            None => None,
        }
    } else {
        match read_unsigned(s, limit) {
            Some(v) => Some(v as i64),
            None => None,
        }
    }
}

/// The digit that stands for `d` in bases up to sixteen, letters in upper case.
pub open spec fn digit_char(d: int) -> char {
    if d < 10 {
        ('0' as int + d) as char
    } else {
        ('A' as int + d - 10) as char
    }
}

/// Append the digit that stands for `d`.
fn push_digit(out: &mut String, d: u8)
    requires
        d < 16,
    ensures
        final(out)@ == old(out)@.push(digit_char(d as int)),
{
    let c: char = if d < 10 {
        (48 + d) as char
    } else {
        (65 + (d - 10)) as char
    };
    out.push(c);
}

/// `n` in decimal, without leading zeros.
pub open spec fn dec(n: int) -> Seq<char>
    decreases n,
{
    if n < 10 {
        seq![digit_char(n)]
    } else {
        dec(n / 10).push(digit_char(n % 10))
    }
}

/// Append `n` in decimal.
pub fn push_dec(out: &mut String, n: u128)
    ensures
        final(out)@ == old(out)@ + dec(n as int),
    decreases n,
{
    if n >= 10 {
        push_dec(out, n / 10);
    }
    push_digit(out, (n % 10) as u8);
    assert(out@ == old(out)@ + dec(n as int));
}

/// The last `width` digits of `n` in the given base.
pub open spec fn padded(n: int, base: int, width: nat) -> Seq<char>
    decreases width,
{
    if width == 0 {
        Seq::empty()
    } else {
        padded(n / base, base, (width - 1) as nat).push(digit_char(n % base))
    }
}

/// Append the last `width` digits of `n` in the given base.
pub fn push_padded(out: &mut String, n: u64, base: u64, width: u8)
    requires
        2 <= base <= 16,
    ensures
        final(out)@ == old(out)@ + padded(n as int, base as int, width as nat),
    decreases width,
{
    if width > 0 {
        push_padded(out, n / base, base, width - 1);
        push_digit(out, (n % base) as u8);
    }
    assert(out@ == old(out)@ + padded(n as int, base as int, width as nat));
}

/// A count of thousandths as a decimal with three places.
pub open spec fn thousandths(n: int) -> Seq<char> {
    dec(n / 1000) + "."@ + padded(n % 1000, 10, 3)
}

/// Append a count of thousandths as a decimal with three places.
pub fn push_thousandths(out: &mut String, n: u128)
    ensures
        final(out)@ == old(out)@ + thousandths(n as int),
{
    push_dec(out, n / 1000);
    out.append(".");
    push_padded(out, (n % 1000) as u64, 10, 3);
    assert(out@ == old(out)@ + thousandths(n as int));
}

/// A signed count of thousandths, with `-` in front of what is below zero.
pub open spec fn signed_thousandths(n: int) -> Seq<char> {
    if n < 0 {
        "-"@ + thousandths(-n)
    } else {
        thousandths(n)
    }
}

/// Append a signed count of thousandths.
pub fn push_signed_thousandths(out: &mut String, n: i64)
    ensures
        final(out)@ == old(out)@ + signed_thousandths(n as int),
{
    if n < 0 {
        out.append("-");
        push_thousandths(out, (-(n as i128)) as u128);
    } else {
        push_thousandths(out, n as u128);
    }
    assert(out@ == old(out)@ + signed_thousandths(n as int));
}

/// An integer in decimal, with `-` in front of what is below zero.
pub open spec fn signed_dec(n: int) -> Seq<char> {
    if n < 0 {
        "-"@ + dec(-n)
    } else {
        dec(n)
    }
}

/// Append an integer in decimal.
pub fn push_signed_dec(out: &mut String, n: i64)
    ensures
        final(out)@ == old(out)@ + signed_dec(n as int),
{
    if n < 0 {
        out.append("-");
        push_dec(out, (-(n as i128)) as u128);
    } else {
        push_dec(out, n as u128);
    }
    assert(out@ == old(out)@ + signed_dec(n as int));
}

/// A row of digits grows by a digit at its end: ten times its value and the digit.
pub proof fn law_digits_value(s: Seq<char>, c: char)
    ensures
        digits_value(Seq::<char>::empty()) == 0,
        digits_value(s.push(c)) == 10 * digits_value(s) + (c as int - 48),
{
    assert(s.push(c).drop_last() == s);
}

/// A number written in decimal is a row of digits that has its value, without a zero in
/// front unless it is zero itself.
pub proof fn law_decimal(n: int)
    requires
        0 <= n,
    ensures
        dec(n).len() > 0,
        all_digits(dec(n)),
        digits_value(dec(n)) == n,
        n > 0 ==> dec(n)[0] != '0',
        n < 10 ==> dec(n).len() == 1,
    decreases n,
{
    if n < 10 {
        reveal_with_fuel(digits_value, 2);
        assert(dec(n).drop_last() == Seq::<char>::empty());
        assert(dec(n).last() == digit_char(n));
    } else {
        law_decimal(n / 10);
        let head = dec(n / 10);
        assert(dec(n).drop_last() == head);
        assert(dec(n)[0] == head[0]);
        assert forall|i: int| 0 <= i < dec(n).len() implies is_digit(#[trigger] dec(n)[i]) by {
            if i < head.len() {
                assert(dec(n)[i] == head[i]);
            }
        }
    }
}

/// The last digits of a number are as many as asked for, and have the value of its
/// remainder.
pub proof fn law_fixed_width(n: int, width: nat)
    requires
        0 <= n,
    ensures
        padded(n, 10, width).len() == width,
        all_digits(padded(n, 10, width)),
        digits_value(padded(n, 10, width)) == n % vstd::arithmetic::power::pow(10, width),
    decreases width,
{
    reveal_with_fuel(vstd::arithmetic::power::pow, 2);
    vstd::arithmetic::power::lemma_pow_positive(10, width);
    if width == 0 {
        assert(n % 1 == 0);
    } else {
        let less = (width - 1) as nat;
        law_fixed_width(n / 10, less);
        vstd::arithmetic::power::lemma_pow_positive(10, less);
        let p = vstd::arithmetic::power::pow(10, less);
        let head = padded(n / 10, 10, less);
        let s = padded(n, 10, width);
        assert(s.drop_last() == head);
        assert forall|i: int| 0 <= i < s.len() implies is_digit(#[trigger] s[i]) by {
            if i < head.len() {
                assert(s[i] == head[i]);
            }
        }
        assert(vstd::arithmetic::power::pow(10, width) == 10 * p);
        vstd::arithmetic::div_mod::lemma_mod_breakdown(n, 10, p);
        assert(n % (10 * p) == 10 * ((n / 10) % p) + n % 10);
    }
}

/// Reading a number that was written in decimal gives it again, if it is not above the
/// largest that is asked for.
pub proof fn law_number_is_read_back(n: int, max: int)
    requires
        0 <= n,
    ensures
        unsigned_number(dec(n), max) == if n <= max {
            Some(n)
        } else {
            None
        },
{
    law_decimal(n);
    assert(is_digit(dec(n)[0]));
}

/// Splitting a text at a separator that stands between two texts gives the pieces of
/// the one and then those of the other.
pub proof fn law_pieces_add_up(a: Seq<char>, b: Seq<char>, sep: char)
    ensures
        fields(a + seq![sep] + b, sep) == fields(a, sep) + fields(b, sep),
    decreases a.len(),
{
    let s = a + seq![sep] + b;
    lemma_at_first_index(a, sep);
    let i = first_index(a, sep);
    if i < a.len() {
        assert forall|j: int| 0 <= j < i implies s[j] != sep by {
            assert(s[j] == a[j]);
        }
        assert(s[i] == a[i]);
        lemma_first_index(s, sep, i);
        assert(s.take(i) == a.take(i));
        assert(s.skip(i + 1) == a.skip(i + 1) + seq![sep] + b);
        law_pieces_add_up(a.skip(i + 1), b, sep);
        assert(fields(s, sep) == fields(a, sep) + fields(b, sep));
    } else {
        assert forall|j: int| 0 <= j < a.len() implies s[j] != sep by {
            assert(s[j] == a[j]);
        }
        assert(s[a.len() as int] == sep);
        lemma_first_index(s, sep, a.len() as int);
        assert(s.take(a.len() as int) == a);
        assert(s.skip(a.len() as int + 1) == b);
    }
}

/// A text without the separator is one piece.
pub proof fn law_one_piece(s: Seq<char>, sep: char)
    requires
        !s.contains(sep),
    ensures
        fields(s, sep) == seq![s],
{
    lemma_at_first_index(s, sep);
    assert(first_index(s, sep) < s.len() ==> s.contains(s[first_index(s, sep)]));
}

/// White space around a text is cut off, and nothing else.
pub proof fn law_white_space_is_cut_off(front: Seq<char>, s: Seq<char>, back: Seq<char>)
    requires
        forall|i: int| 0 <= i < front.len() ==> is_white_space(#[trigger] front[i]),
        forall|i: int| 0 <= i < back.len() ==> is_white_space(#[trigger] back[i]),
        s.len() > 0,
        !is_white_space(s[0]),
        !is_white_space(s.last()),
    ensures
        trimmed(front + s + back) == s,
    decreases front.len() + back.len(),
{
    let all = front + s + back;
    if front.len() > 0 {
        assert(all[0] == front[0]);
        assert(all.skip(1) == front.skip(1) + s + back);
        assert forall|i: int| 0 <= i < front.skip(1).len() implies is_white_space(
            #[trigger] front.skip(1)[i],
        ) by {
            assert(front.skip(1)[i] == front[i + 1]);
        }
        law_white_space_is_cut_off(front.skip(1), s, back);
    } else {
        assert(all == s + back);
        assert(all[0] == s[0]);
        assert(trim_start(all) == all);
        if back.len() > 0 {
            assert(all.last() == back.last());
            assert(all.drop_last() == s + back.drop_last());
            assert(front + s + back.drop_last() == s + back.drop_last());
            assert((s + back.drop_last())[0] == s[0]);
            law_white_space_is_cut_off(front, s, back.drop_last());
        } else {
            assert(all == s);
        }
    }
}

/// The space, the tabulator and the ends of a line are white space; letters, digits and
/// the marks of sentences are not. Beyond ASCII there are nineteen more: the end
/// of a line, spaces of various widths, and the separators of lines and paragraphs.
pub proof fn law_white_space(c: char)
    ensures
        c == ' ' || c == '\t' || c == '\n' || c == '\r' ==> is_white_space(c),
        '!' <= c <= '~' ==> !is_white_space(c),
        c as int <= 0x7f ==> (is_white_space(c) <==> c == ' ' || 9 <= c as int <= 13),
        c as int > 0x7f ==> (is_white_space(c) <==> seq![
            0x85int,
            0xa0,
            0x1680,
            0x2000,
            0x2001,
            0x2002,
            0x2003,
            0x2004,
            0x2005,
            0x2006,
            0x2007,
            0x2008,
            0x2009,
            0x200a,
            0x2028,
            0x2029,
            0x202f,
            0x205f,
            0x3000,
        ].contains(c as int)),
{
    let beyond = seq![
        0x85int,
        0xa0,
        0x1680,
        0x2000,
        0x2001,
        0x2002,
        0x2003,
        0x2004,
        0x2005,
        0x2006,
        0x2007,
        0x2008,
        0x2009,
        0x200a,
        0x2028,
        0x2029,
        0x202f,
        0x205f,
        0x3000,
    ];
    let u = c as int;
    if is_white_space(c) && u > 0x7f {
        let at = if u < 0x2000 {
            if u == 0x85 {
                0int
            } else if u == 0xa0 {
                1
            } else {
                2
            }
        } else if u <= 0x200a {
            u - 0x2000 + 3
        } else if u == 0x2028 {
            14
        } else if u == 0x2029 {
            15
        } else if u == 0x202f {
            16
        } else if u == 0x205f {
            17
        } else {
            18
        };
        assert(beyond[at] == u);
    }
}

/// The number, in thousandths, that a decimal with three places stands for; a sign may
/// stand in front. Nothing for any other text.
pub open spec fn decimal_thousandths(s: Seq<char>) -> Option<int> {
    let signed = s.len() > 0 && (s[0] == '-' || s[0] == '+');
    let t = if signed {
        s.skip(1)
    } else {
        s
    };
    let whole = t.take(t.len() - 4);
    let places = t.skip(t.len() - 3);
    if t.len() >= 5 && t[t.len() - 4] == '.' && all_digits(whole) && all_digits(places) {
        let size = 1000 * digits_value(whole) + digits_value(places);
        Some(
            if s[0] == '-' {
                -size
            } else {
                size
            },
        )
    } else {
        None
    }
}

/// A count of thousandths is read back from how it is written, with and without a sign.
pub proof fn law_thousandths_are_read_back(n: int)
    ensures
        n >= 0 ==> decimal_thousandths(thousandths(n)) == Some(n),
        n >= 0 ==> decimal_thousandths("+"@ + thousandths(n)) == Some(n),
        decimal_thousandths(signed_thousandths(n)) == Some(n),
        n < 0 <==> signed_thousandths(n)[0] == '-',
{
    reveal_strlit("+");
    reveal_strlit("-");
    reveal_strlit(".");
    let size = if n < 0 {
        -n
    } else {
        n
    };
    let t = thousandths(size);
    let whole = dec(size / 1000);
    let places = padded(size % 1000, 10, 3);
    law_decimal(size / 1000);
    law_fixed_width(size % 1000, 3);
    assert(vstd::arithmetic::power::pow(10, 3) == 1000) by {
        reveal_with_fuel(vstd::arithmetic::power::pow, 4);
    }
    assert(t.len() == whole.len() + 4);
    assert(t.take(t.len() - 4) == whole);
    assert(t.skip(t.len() - 3) == places);
    assert(t[t.len() - 4] == '.');
    assert(is_digit(whole[0]));
    assert(t[0] == whole[0]);
    assert(("-"@ + t).skip(1) == t);
    assert(("+"@ + t).skip(1) == t);
}

/// The number that a row of hexadecimal digits stands for, letters in upper case;
/// nothing for any other text.
pub open spec fn hex_value(s: Seq<char>) -> Option<int>
    decreases s.len(),
{
    if s.len() == 0 {
        Some(0)
    } else {
        let c = s.last();
        let digit = if '0' <= c <= '9' {
            c as int - 48
        } else if 'A' <= c <= 'F' {
            c as int - 55
        } else {
            -1
        };
        match hex_value(s.drop_last()) {
            Some(head) if digit >= 0 => Some(16 * head + digit),
            _ => None,
        }
    }
}

/// The last hexadecimal digits of a number are as many as asked for, and have the value
/// of its remainder.
pub proof fn law_hexadecimal(n: int, width: nat)
    requires
        0 <= n,
    ensures
        padded(n, 16, width).len() == width,
        hex_value(padded(n, 16, width)) == Some(n % vstd::arithmetic::power::pow(16, width)),
    decreases width,
{
    reveal_with_fuel(vstd::arithmetic::power::pow, 2);
    vstd::arithmetic::power::lemma_pow_positive(16, width);
    if width == 0 {
        assert(n % 1 == 0);
    } else {
        let less = (width - 1) as nat;
        law_hexadecimal(n / 16, less);
        vstd::arithmetic::power::lemma_pow_positive(16, less);
        let p = vstd::arithmetic::power::pow(16, less);
        let s = padded(n, 16, width);
        assert(s.drop_last() == padded(n / 16, 16, less));
        assert(vstd::arithmetic::power::pow(16, width) == 16 * p);
        vstd::arithmetic::div_mod::lemma_mod_breakdown(n, 16, p);
        assert(n % (16 * p) == 16 * ((n / 16) % p) + n % 16);
    }
}

/// A number with a minus sign if it is below zero is read back.
pub proof fn law_signed_number_is_read_back(n: int, limit: int)
    requires
        -limit <= n <= limit,
    ensures
        signed_number(signed_dec(n), -limit, limit) == Some(n),
        n < 0 <==> signed_dec(n)[0] == '-',
{
    reveal_strlit("-");
    let size = if n < 0 {
        -n
    } else {
        n
    };
    law_decimal(size);
    law_number_is_read_back(size, limit);
    assert(is_digit(dec(size)[0]));
    assert(("-"@ + dec(size)).skip(1) == dec(size));
}

/// Of white space alone nothing is left.
pub proof fn law_white_space_alone_is_nothing(s: Seq<char>)
    requires
        forall|i: int| 0 <= i < s.len() ==> is_white_space(#[trigger] s[i]),
    ensures
        trimmed(s).len() == 0,
    decreases s.len(),
{
    if s.len() > 0 {
        assert forall|i: int| 0 <= i < s.skip(1).len() implies is_white_space(
            #[trigger] s.skip(1)[i],
        ) by {
            assert(s.skip(1)[i] == s[i + 1]);
        }
        law_white_space_alone_is_nothing(s.skip(1));
    }
}

/// The digits are the characters from 48 to 57, and those alone.
pub proof fn law_digits(c: char)
    ensures
        is_digit(c) <==> 48 <= c as int <= 57,
        is_digit(c) ==> 0 <= digit_value(c) <= 9 && digit_char(digit_value(c)) == c,
{
}

/// Nothing and whatever holds a character that is no digit are no numbers, but for one
/// sign in front: a plus, or a minus where numbers may be below zero.
pub proof fn law_what_is_no_number(s: Seq<char>, i: int, min: int, max: int)
    requires
        0 <= i < s.len(),
        !(48 <= s[i] as int <= 57),
    ensures
        i > 0 || s[0] != '+' ==> unsigned_number(s, max) is None,
        i > 0 || (s[0] != '+' && s[0] != '-') ==> signed_number(s, min, max) is None,
        unsigned_number(Seq::empty(), max) is None,
        signed_number(Seq::empty(), min, max) is None,
        unsigned_number(seq!['+'], max) is None,
        signed_number(seq!['-'], min, max) is None,
{
    if i > 0 {
        assert(s.skip(1)[i - 1] == s[i]);
    }
    assert(seq!['+'].skip(1).len() == 0);
    assert(seq!['-'].skip(1).len() == 0);
}

/// A plus in front of a number changes nothing.
pub proof fn law_plus_changes_nothing(n: int, max: int)
    requires
        0 <= n <= max,
    ensures
        unsigned_number(seq!['+'] + dec(n), max) == Some(n),
{
    law_decimal(n);
    assert((seq!['+'] + dec(n)).skip(1) == dec(n));
}

/// A text begins with another if and only if it is that text with something behind it.
pub proof fn law_beginning(s: Seq<char>, prefix: Seq<char>, rest: Seq<char>)
    ensures
        begins_with(prefix + rest, prefix),
        begins_with(s, prefix) ==> s == prefix + s.skip(prefix.len() as int),
{
    assert((prefix + rest).take(prefix.len() as int) == prefix);
    if begins_with(s, prefix) {
        assert(s == s.take(prefix.len() as int) + s.skip(prefix.len() as int));
    }
}

} // verus!
