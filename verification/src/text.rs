//! Text primitives shared by the rest of the crate.
//!
//! Strings are modelled as sequences of characters. The functions here are
//! the ones the protocol and routing code needs: comparing and copying text,
//! trimming, decimal rendering and parsing, and escaping.

use vstd::prelude::*;
use vstd::string::*;
use vstd::utf8::*;

verus! {

/// `String::push` appends one character and changes nothing else.
pub assume_specification[ String::push ](s: &mut String, c: char)
    ensures
        final(s)@ == old(s)@.push(c),
;

/// The characters of `s`, in order.
pub fn to_chars(s: &str) -> (v: Vec<char>)
    ensures
        v@ == s@,
{
    let mut v: Vec<char> = Vec::new();
    for c in it: s.chars()
        invariant
            v@ == it.seq().take(it.index() as int),
            it.seq() == s@,
    {
        v.push(c);
    }
    v
}

/// The text made of `chars[from..to]`.
pub fn from_chars(chars: &Vec<char>, from: usize, to: usize) -> (s: String)
    requires
        from <= to <= chars.len(),
    ensures
        s@ == chars@.subrange(from as int, to as int),
{
    let mut s = String::new();
    let mut i: usize = from;
    while i < to
        invariant
            from <= i <= to <= chars.len(),
            s@ == chars@.subrange(from as int, i as int),
        decreases to - i,
    {
        s.push(chars[i]);
        i += 1;
    }
    s
}

/// Texts with the same UTF-8 bytes are the same text.
proof fn lemma_bytes_determine_text(a: Seq<char>, b: Seq<char>)
    ensures
        (encode_utf8(a) == encode_utf8(b)) <==> (a == b),
{
    encode_utf8_decode_utf8(a);
    encode_utf8_decode_utf8(b);
}

/// Whether two texts are equal.
pub fn same_text(a: &str, b: &str) -> (r: bool)
    ensures
        r == (a@ == b@),
{
    let x = a.as_bytes();
    let y = b.as_bytes();
    proof {
        lemma_bytes_determine_text(a@, b@);
    }
    if x.len() != y.len() {
        return false;
    }
    let mut i: usize = 0;
    while i < x.len()
        invariant
            i <= x.len(),
            x.len() == y.len(),
            x@ == encode_utf8(a@),
            y@ == encode_utf8(b@),
            (encode_utf8(a@) == encode_utf8(b@)) <==> (a@ == b@),
            forall|j: int| 0 <= j < i ==> x@[j] == y@[j],
        decreases x.len() - i,
    {
        if x[i] != y[i] {
            return false;
        }
        i += 1;
    }
    assert(x@ =~= y@);
    true
}

/// Whether a text has no characters.
pub fn is_blank(s: &str) -> (r: bool)
    ensures
        r == (s@.len() == 0),
{
    let chars = to_chars(s);
    chars.len() == 0
}

/// The view of an optional text.
pub open spec fn opt_text(s: Option<String>) -> Option<Seq<char>> {
    match s {
        Some(t) => Some(t@),
        None => None,
    }
}

/// The view of an optional borrowed text.
pub open spec fn opt_str(s: Option<&str>) -> Option<Seq<char>> {
    match s {
        Some(t) => Some(t@),
        None => None,
    }
}

/// The view of a list of texts.
pub open spec fn texts(v: Seq<String>) -> Seq<Seq<char>> {
    v.map_values(|s: String| s@)
}

/// A copy of an optional text.
pub fn copy_opt(s: &Option<String>) -> (r: Option<String>)
    ensures
        r == *s,
{
    match s {
        Some(t) => Some(t.clone()),
        None => None,
    }
}

/// A copy of a list of integers.
pub fn copy_u32s(v: &Vec<u32>) -> (r: Vec<u32>)
    ensures
        r@ == v@,
{
    let mut r: Vec<u32> = Vec::new();
    let mut i: usize = 0;
    while i < v.len()
        invariant
            i <= v.len(),
            r@ == v@.take(i as int),
        decreases v.len() - i,
    {
        r.push(v[i]);
        i += 1;
    }
    assert(v@.take(v.len() as int) == v@);
    r
}

/// The first position at which `item` stands.
pub open spec fn first_index(items: Seq<Seq<char>>, item: Seq<char>) -> Option<int>
    decreases items.len(),
{
    if items.len() == 0 {
        None
    } else {
        match first_index(items.drop_last(), item) {
            Some(i) => Some(i),
            None => if items.last() == item {
                Some(items.len() - 1)
            } else {
                None
            },
        }
    }
}

/// What `first_index` finds: a position that holds the item, with none
/// before it; or nothing, when no position holds it.
pub proof fn law_first_index(items: Seq<Seq<char>>, item: Seq<char>)
    ensures
        match first_index(items, item) {
            Some(i) => {
                &&& 0 <= i < items.len()
                &&& items[i] == item
                &&& forall|j: int| 0 <= j < i ==> items[j] != item
            },
            None => forall|j: int| 0 <= j < items.len() ==> items[j] != item,
        },
    decreases items.len(),
{
    if items.len() > 0 {
        law_first_index(items.drop_last(), item);
        assert forall|j: int| 0 <= j < items.len() - 1 implies items[j] == items.drop_last()[j] by {}
    }
}

// ---------------------------------------------------------------------------
// white space and trimming
// ---------------------------------------------------------------------------

/// The characters with the Unicode `White_Space` property.
pub open spec fn is_white_space(c: char) -> bool {
    ||| '\u{9}' <= c <= '\u{d}'
    ||| c == ' '
    ||| c == '\u{85}'
    ||| c == '\u{a0}'
    ||| c == '\u{1680}'
    ||| '\u{2000}' <= c <= '\u{200a}'
    ||| c == '\u{2028}'
    ||| c == '\u{2029}'
    ||| c == '\u{202f}'
    ||| c == '\u{205f}'
    ||| c == '\u{3000}'
}

/// Whether `c` is white space.
pub fn white_space(c: char) -> (r: bool)
    ensures
        r == is_white_space(c),
{
    ('\u{9}' <= c && c <= '\u{d}') || c == ' ' || c == '\u{85}' || c == '\u{a0}' || c == '\u{1680}'
        || ('\u{2000}' <= c && c <= '\u{200a}') || c == '\u{2028}' || c == '\u{2029}' || c
        == '\u{202f}' || c == '\u{205f}' || c == '\u{3000}'
}

/// `s` without its leading white space.
pub open spec fn trim_start(s: Seq<char>) -> Seq<char>
    decreases s.len(),
{
    if s.len() > 0 && is_white_space(s[0]) {
        trim_start(s.skip(1))
    } else {
        s
    }
}

/// `s` without its trailing white space.
pub open spec fn trim_end(s: Seq<char>) -> Seq<char>
    decreases s.len(),
{
    if s.len() > 0 && is_white_space(s.last()) {
        trim_end(s.drop_last())
    } else {
        s
    }
}

/// `s` without white space at either end.
pub open spec fn trim(s: Seq<char>) -> Seq<char> {
    trim_end(trim_start(s))
}

/// `s` without the run of `c` at its end.
pub open spec fn trim_end_of(s: Seq<char>, c: char) -> Seq<char>
    decreases s.len(),
{
    if s.len() > 0 && s.last() == c {
        trim_end_of(s.drop_last(), c)
    } else {
        s
    }
}

/// The first index at or after `from` that does not hold white space.
pub fn skip_white_space(chars: &Vec<char>, from: usize) -> (i: usize)
    requires
        from <= chars.len(),
    ensures
        from <= i <= chars.len(),
        chars@.skip(i as int) == trim_start(chars@.skip(from as int)),
        i < chars.len() ==> !is_white_space(chars@[i as int]),
{
    let mut i: usize = from;
    while i < chars.len() && white_space(chars[i])
        invariant
            from <= i <= chars.len(),
            trim_start(chars@.skip(i as int)) == trim_start(chars@.skip(from as int)),
        decreases chars.len() - i,
    {
        assert(chars@.skip(i as int)[0] == chars@[i as int]);
        assert(chars@.skip(i as int).skip(1) == chars@.skip(i + 1));
        i += 1;
    }
    assert(i < chars.len() ==> chars@.skip(i as int)[0] == chars@[i as int]);
    i
}

/// The end of `chars[from..to]` once trailing white space is left out.
pub fn white_space_end(chars: &Vec<char>, from: usize, to: usize) -> (e: usize)
    requires
        from <= to <= chars.len(),
    ensures
        from <= e <= to,
        chars@.subrange(from as int, e as int) == trim_end(
            chars@.subrange(from as int, to as int),
        ),
{
    let mut e: usize = to;
    while e > from && white_space(chars[e - 1])
        invariant
            from <= e <= to <= chars.len(),
            trim_end(chars@.subrange(from as int, e as int)) == trim_end(
                chars@.subrange(from as int, to as int),
            ),
        decreases e,
    {
        let ghost s = chars@.subrange(from as int, e as int);
        assert(s.last() == chars@[e - 1]);
        assert(s.drop_last() == chars@.subrange(from as int, e - 1));
        e -= 1;
    }
    let ghost s = chars@.subrange(from as int, e as int);
    assert(e > from ==> s.last() == chars@[e - 1]);
    e
}

/// `s` without white space at either end.
pub fn trimmed(s: &str) -> (r: String)
    ensures
        r@ == trim(s@),
{
    let chars = to_chars(s);
    assert(chars@.skip(0) == chars@);
    let from = skip_white_space(&chars, 0);
    let to = white_space_end(&chars, from, chars.len());
    assert(chars@.subrange(from as int, chars.len() as int) == chars@.skip(from as int));
    from_chars(&chars, from, to)
}

/// `s` without the run of `c` at its end.
pub fn trimmed_end_of(s: &str, c: char) -> (r: String)
    ensures
        r@ == trim_end_of(s@, c),
{
    let chars = to_chars(s);
    let mut e: usize = chars.len();
    assert(chars@.take(e as int) == s@);
    while e > 0 && chars[e - 1] == c
        invariant
            e <= chars.len(),
            trim_end_of(chars@.take(e as int), c) == trim_end_of(s@, c),
        decreases e,
    {
        assert(chars@.take(e as int).last() == chars@[e - 1]);
        assert(chars@.take(e as int).drop_last() == chars@.take(e - 1));
        e -= 1;
    }
    assert(e > 0 ==> chars@.take(e as int).last() == chars@[e - 1]);
    assert(chars@.subrange(0, e as int) == chars@.take(e as int));
    from_chars(&chars, 0, e)
}

// ---------------------------------------------------------------------------
// decimal numbers
// ---------------------------------------------------------------------------

/// The decimal digit that stands for `d`.
pub open spec fn digit_char(d: nat) -> char {
    if d == 0 {
        '0'
    } else if d == 1 {
        '1'
    } else if d == 2 {
        '2'
    } else if d == 3 {
        '3'
    } else if d == 4 {
        '4'
    } else if d == 5 {
        '5'
    } else if d == 6 {
        '6'
    } else if d == 7 {
        '7'
    } else if d == 8 {
        '8'
    } else {
        '9'
    }
}

/// `n` in decimal, without leading zeros.
pub open spec fn decimal(n: nat) -> Seq<char>
    decreases n,
{
    if n < 10 {
        seq![digit_char(n)]
    } else {
        decimal(n / 10).push(digit_char(n % 10))
    }
}

/// `i` in decimal, with a leading `-` when it is negative.
pub open spec fn decimal_int(i: int) -> Seq<char> {
    if i < 0 {
        seq!['-'] + decimal((-i) as nat)
    } else {
        decimal(i as nat)
    }
}

fn digit(d: u8) -> (c: char)
    requires
        d < 10,
    ensures
        c == digit_char(d as nat),
{
    match d {
        0 => '0',
        1 => '1',
        2 => '2',
        3 => '3',
        4 => '4',
        5 => '5',
        6 => '6',
        7 => '7',
        8 => '8',
        _ => '9',
    }
}

/// Writing a number in decimal gives digits that stand for it.
pub proof fn law_decimal_round_trip(n: nat)
    ensures
        decimal(n).len() > 0,
        all_digits(decimal(n)),
        digits_value(decimal(n)) == n,
    decreases n,
{
    reveal_with_fuel(digits_value, 2);
    if n < 10 {
        assert(decimal(n).drop_last() =~= seq![]);
    } else {
        law_decimal_round_trip(n / 10);
        assert(decimal(n).drop_last() =~= decimal(n / 10));
        assert forall|i: int| 0 <= i < decimal(n).len() implies is_digit(
            #[trigger] decimal(n)[i],
        ) by {
            if i < decimal(n).len() - 1 {
                assert(decimal(n)[i] == decimal(n / 10)[i]);
            }
        }
    }
}

/// Append `n` in decimal.
pub fn push_decimal(s: &mut String, n: u128)
    ensures
        final(s)@ == old(s)@ + decimal(n as nat),
    decreases n,
{
    let ghost before = s@;
    if n >= 10 {
        push_decimal(s, n / 10);
        s.push(digit((n % 10) as u8));
        assert(s@ == before + decimal((n / 10) as nat).push(digit_char((n % 10) as nat)));
    } else {
        s.push(digit(n as u8));
        assert(s@ == before + seq![digit_char(n as nat)]);
    }
}

/// `i` in decimal.
pub fn decimal_int_text(i: i128) -> (s: String)
    ensures
        s@ == decimal_int(i as int),
{
    let mut s = String::new();
    if i < 0 {
        s.push('-');
        let m: u128 = (-(i + 1)) as u128 + 1;
        assert(m == -i);
        push_decimal(&mut s, m);
        assert(s@ == seq!['-'] + decimal((-i) as nat));
    } else {
        push_decimal(&mut s, i as u128);
        assert(s@ == decimal(i as nat));
    }
    s
}

/// Whether `c` is an ASCII decimal digit.
pub open spec fn is_digit(c: char) -> bool {
    '0' <= c <= '9'
}

/// Whether every character of `s` is an ASCII decimal digit.
pub open spec fn all_digits(s: Seq<char>) -> bool {
    forall|i: int| 0 <= i < s.len() ==> is_digit(#[trigger] s[i])
}

/// The number that a run of decimal digits stands for.
pub open spec fn digits_value(s: Seq<char>) -> nat
    decreases s.len(),
{
    if s.len() == 0 {
        0
    } else {
        digits_value(s.drop_last()) * 10 + (s.last() as nat - '0' as nat) as nat
    }
}

/// More digits never make the number smaller.
proof fn lemma_digits_value_grows(s: Seq<char>, k: int)
    requires
        0 <= k <= s.len(),
        all_digits(s),
    ensures
        digits_value(s.take(k)) <= digits_value(s),
    decreases s.len() - k,
{
    if k < s.len() {
        assert(s.take(k + 1).drop_last() == s.take(k));
        assert(is_digit(s[k]));
        lemma_digits_value_grows(s, k + 1);
    } else {
        assert(s.take(k) == s);
    }
}

/// The value of `chars[from..to]`, when all of it is digits and the value
/// fits in 128 bits.
pub fn parse_digits(chars: &Vec<char>, from: usize, to: usize) -> (r: Option<u128>)
    requires
        from <= to <= chars.len(),
        all_digits(chars@.subrange(from as int, to as int)),
    ensures
        ({
            let v = digits_value(chars@.subrange(from as int, to as int));
            &&& v <= u128::MAX ==> r == Some(v as u128)
            &&& v > u128::MAX ==> r is None
        }),
{
    let ghost s = chars@.subrange(from as int, to as int);
    let mut acc: u128 = 0;
    let mut i: usize = from;
    while i < to
        invariant
            from <= i <= to <= chars.len(),
            s == chars@.subrange(from as int, to as int),
            all_digits(s),
            acc == digits_value(s.take(i - from)),
        decreases to - i,
    {
        proof {
            assert(s.take(i - from + 1).drop_last() == s.take(i - from));
            assert(s.take(i - from + 1).last() == chars@[i as int]);
            assert(is_digit(s[i - from]));
            lemma_digits_value_grows(s, i - from + 1);
        }
        let d: u128 = (chars[i] as u32 - '0' as u32) as u128;
        match acc.checked_mul(10) {
            None => {
                return None;
            },
            Some(m) => {
                match m.checked_add(d) {
                    None => {
                        return None;
                    },
                    Some(next) => {
                        acc = next;
                    },
                }
            },
        }
        i += 1;
    }
    assert(s.take(to - from) == s);
    Some(acc)
}

/// Whether `chars[from..to]` is all digits.
pub fn digits_only(chars: &Vec<char>, from: usize, to: usize) -> (r: bool)
    requires
        from <= to <= chars.len(),
    ensures
        r == all_digits(chars@.subrange(from as int, to as int)),
{
    let ghost s = chars@.subrange(from as int, to as int);
    let mut i: usize = from;
    while i < to
        invariant
            from <= i <= to <= chars.len(),
            s == chars@.subrange(from as int, to as int),
            forall|j: int| 0 <= j < i - from ==> is_digit(#[trigger] s[j]),
        decreases to - i,
    {
        let c = chars[i];
        if !('0' <= c && c <= '9') {
            assert(!is_digit(s[i - from]));
            return false;
        }
        assert(is_digit(s[i - from]));
        i += 1;
    }
    true
}

/// The 128-bit integer that `s` spells: an optional sign and then digits.
pub open spec fn parse_int(s: Seq<char>) -> Option<int> {
    let signed = s.len() > 0 && (s[0] == '-' || s[0] == '+');
    let digits = if signed {
        s.skip(1)
    } else {
        s
    };
    let value = if s.len() > 0 && s[0] == '-' {
        -digits_value(digits)
    } else {
        digits_value(digits) as int
    };
    if digits.len() > 0 && all_digits(digits) && i128::MIN <= value <= i128::MAX {
        Some(value)
    } else {
        None
    }
}

/// Writing a 128-bit integer in decimal and reading it back gives that
/// integer.
pub proof fn law_integer_round_trip(i: int)
    requires
        i128::MIN <= i <= i128::MAX,
    ensures
        parse_int(decimal_int(i)) == Some(i),
{
    if i < 0 {
        law_decimal_round_trip((-i) as nat);
        assert(decimal_int(i).skip(1) =~= decimal((-i) as nat));
    } else {
        law_decimal_round_trip(i as nat);
        let s = decimal_int(i);
        assert(is_digit(s[0]));
    }
}

/// A number below a power of ten has at most that many digits.
proof fn lemma_decimal_len(n: nat, k: nat)
    requires
        k > 0,
        n < vstd::arithmetic::power::pow(10, k),
    ensures
        decimal(n).len() <= k,
    decreases k,
{
    reveal(vstd::arithmetic::power::pow);
    if n >= 10 {
        assert(k > 1) by {
            if k == 1 {
                assert(vstd::arithmetic::power::pow(10, 1) == 10 * vstd::arithmetic::power::pow(
                    10,
                    0,
                ));
            }
        }
        assert(vstd::arithmetic::power::pow(10, k) == 10 * vstd::arithmetic::power::pow(
            10,
            (k - 1) as nat,
        ));
        lemma_decimal_len(n / 10, (k - 1) as nat);
    }
}

/// The decimal form of a 128-bit integer is short, also once encoded.
pub(crate) proof fn lemma_decimal_int_short(i: int)
    requires
        i128::MIN <= i <= i128::MAX,
    ensures
        encode_utf8(decimal_int(i)).len() <= 200,
{
    let m = (if i < 0 {
        -i
    } else {
        i
    }) as nat;
    assert(m < vstd::arithmetic::power::pow(10, 40)) by {
        assert(vstd::arithmetic::power::pow(10, 40) == 10000000000000000000000000000000000000000int)
            by {
            reveal_with_fuel(vstd::arithmetic::power::pow, 41);
        }
    }
    lemma_decimal_len(m, 40);
    lemma_encoding_len(decimal_int(i));
}

/// A character takes at most four bytes.
proof fn lemma_encoding_len(s: Seq<char>)
    ensures
        encode_utf8(s).len() <= 4 * s.len(),
    decreases s.len(),
{
    reveal_with_fuel(encode_utf8, 2);
    if s.len() > 0 {
        lemma_encoding_len(s.drop_first());
    }
}

/// Parse `chars[from..to]` as a 128-bit integer.
pub fn parse_i128(chars: &Vec<char>, from: usize, to: usize) -> (r: Option<i128>)
    requires
        from <= to <= chars.len(),
    ensures
        r is Some <==> parse_int(chars@.subrange(from as int, to as int)) is Some,
        r matches Some(v) ==> parse_int(chars@.subrange(from as int, to as int)) == Some(v as int),
{
    let ghost s = chars@.subrange(from as int, to as int);
    if from == to {
        return None;
    }
    let first = chars[from];
    assert(s[0] == first);
    let negative = first == '-';
    let start: usize = if first == '-' || first == '+' {
        from + 1
    } else {
        from
    };
    assert(s.skip(1) == chars@.subrange(from + 1, to as int));
    if start == to || !digits_only(chars, start, to) {
        return None;
    }
    match parse_digits(chars, start, to) {
        None => None,
        Some(v) => {
            if negative {
                if v == 0 {
                    Some(0)
                } else if v - 1 <= i128::MAX as u128 {
                    Some(-((v - 1) as i128) - 1)
                } else {
                    None
                }
            } else if v <= i128::MAX as u128 {
                Some(v as i128)
            } else {
                None
            }
        },
    }
}

// ---------------------------------------------------------------------------
// escaping
// ---------------------------------------------------------------------------

/// `s` with every `c` replaced by `with`.
pub open spec fn replace_char(s: Seq<char>, c: char, with: Seq<char>) -> Seq<char>
    decreases s.len(),
{
    if s.len() == 0 {
        seq![]
    } else {
        let last = if s.last() == c {
            with
        } else {
            seq![s.last()]
        };
        replace_char(s.drop_last(), c, with) + last
    }
}

/// `s` with every `c` replaced by `with`.
pub fn replaced(s: &str, c: char, with: &str) -> (r: String)
    ensures
        r@ == replace_char(s@, c, with@),
{
    let chars = to_chars(s);
    let mut r = String::new();
    let mut i: usize = 0;
    while i < chars.len()
        invariant
            i <= chars.len(),
            r@ == replace_char(chars@.take(i as int), c, with@),
        decreases chars.len() - i,
    {
        assert(chars@.take(i + 1).drop_last() == chars@.take(i as int));
        let ghost before = r@;
        if chars[i] == c {
            r.append(with);
        } else {
            r.push(chars[i]);
            assert(r@ == before + seq![chars@[i as int]]);
        }
        i += 1;
    }
    assert(chars@.take(chars.len() as int) == s@);
    r
}

/// `std::str::from_utf8`: the text that the bytes encode, when they are valid
/// UTF-8.
#[verifier::external_body]
pub(crate) fn utf8_text(bytes: &[u8]) -> (r: Option<&str>)
    ensures
        match r {
            Some(s) => valid_utf8(bytes@) && s@ == decode_utf8(bytes@),
            None => !valid_utf8(bytes@),
        },
{
    std::str::from_utf8(bytes).ok()
}

/// The rendering of a text as a quoted, escaped literal.
pub uninterp spec fn quoted_text(s: Seq<char>) -> Seq<char>;

/// The `Debug` rendering of a `str`: the text in double quotes with special
/// characters escaped. It depends on the text alone; the escapes are those of
/// the standard library and are not spelled out here.
#[verifier::external_body]
pub(crate) fn quoted(s: &str) -> (r: String)
    ensures
        r@ == quoted_text(s@),
{
    format!("{s:?}")
}

/// The lower-case form of a text.
pub uninterp spec fn lowercase_text(s: Seq<char>) -> Seq<char>;

/// `str::to_lowercase`: Unicode lower-casing, which depends on the text alone.
/// The case tables of the standard library are not spelled out here.
#[verifier::external_body]
pub(crate) fn lowercase(s: &str) -> (r: String)
    ensures
        r@ == lowercase_text(s@),
{
    s.to_lowercase()
}

// ---------------------------------------------------------------------------
// laws of texts
// ---------------------------------------------------------------------------

/// Among the ASCII characters, white space is the space and the five control
/// characters from tab to carriage return.
pub proof fn law_ascii_white_space(c: char)
    requires
        (c as u32) < 0x80,
    ensures
        is_white_space(c) <==> c == ' ' || c == '\t' || c == '\n' || c == '\u{b}' || c == '\u{c}'
            || c == '\r',
{
}

/// Whether a text is nothing but white space.
pub open spec fn all_white(s: Seq<char>) -> bool {
    forall|i: int| 0 <= i < s.len() ==> is_white_space(#[trigger] s[i])
}

proof fn lemma_trim_start(left: Seq<char>, rest: Seq<char>)
    requires
        all_white(left),
        rest.len() == 0 || !is_white_space(rest[0]),
    ensures
        trim_start(left + rest) == rest,
    decreases left.len(),
{
    if left.len() == 0 {
        assert(left + rest =~= rest);
    } else {
        assert((left + rest)[0] == left[0]);
        assert((left + rest).skip(1) =~= left.skip(1) + rest);
        assert forall|i: int| 0 <= i < left.skip(1).len() implies is_white_space(
            #[trigger] left.skip(1)[i],
        ) by {
            assert(left.skip(1)[i] == left[i + 1]);
        }
        lemma_trim_start(left.skip(1), rest);
    }
}

proof fn lemma_trim_end(rest: Seq<char>, right: Seq<char>)
    requires
        all_white(right),
        rest.len() == 0 || !is_white_space(rest.last()),
    ensures
        trim_end(rest + right) == rest,
    decreases right.len(),
{
    if right.len() == 0 {
        assert(rest + right =~= rest);
    } else {
        assert((rest + right).last() == right.last());
        assert((rest + right).drop_last() =~= rest + right.drop_last());
        lemma_trim_end(rest, right.drop_last());
    }
}

/// Trimming takes off the white space on both sides and nothing else.
pub proof fn law_trim(left: Seq<char>, middle: Seq<char>, right: Seq<char>)
    requires
        all_white(left),
        all_white(right),
        middle.len() > 0 ==> !is_white_space(middle[0]) && !is_white_space(middle.last()),
    ensures
        trim(left + middle + right) == middle,
        middle.len() > 0 ==> trim_start(left + middle + right) == middle + right,
        trim_end(left + middle + right) == (if middle.len() > 0 {
            left + middle
        } else {
            Seq::empty()
        }),
{
    let whole = left + middle + right;
    if middle.len() == 0 {
        assert(middle =~= Seq::empty());
        assert(whole =~= left + right);
        assert(all_white(whole));
        assert(whole + Seq::<char>::empty() =~= whole);
        assert(Seq::<char>::empty() + whole =~= whole);
        lemma_trim_start(whole, Seq::empty());
        lemma_trim_end(Seq::empty(), whole);
        assert(trim_end(Seq::<char>::empty()) =~= Seq::empty());
    } else {
        assert(whole =~= left + (middle + right));
        assert((middle + right)[0] == middle[0]);
        lemma_trim_start(left, middle + right);
        lemma_trim_end(middle, right);
        assert((left + middle).last() == middle.last());
        lemma_trim_end(left + middle, right);
    }
}

/// Trimming a character off the end leaves the longest start of the text that
/// does not end in it.
pub proof fn law_trim_end_of(s: Seq<char>, c: char)
    ensures
        ({
            let r = trim_end_of(s, c);
            &&& r.len() <= s.len()
            &&& r == s.take(r.len() as int)
            &&& r.len() > 0 ==> r.last() != c
            &&& forall|i: int| r.len() <= i < s.len() ==> #[trigger] s[i] == c
        }),
    decreases s.len(),
{
    if s.len() > 0 && s.last() == c {
        law_trim_end_of(s.drop_last(), c);
        let r = trim_end_of(s, c);
        assert(s.drop_last().take(r.len() as int) =~= s.take(r.len() as int));
        assert forall|i: int| r.len() <= i < s.len() implies #[trigger] s[i] == c by {
            if i < s.len() - 1 {
                assert(s.drop_last()[i] == c);
            }
        }
    } else {
        assert(s.take(s.len() as int) =~= s);
    }
}

/// Replacing goes character by character: the one that is replaced becomes the
/// replacement, every other stays.
pub proof fn law_replace_char(a: Seq<char>, b: Seq<char>, c: char, other: char, with: Seq<char>)
    requires
        other != c,
    ensures
        replace_char(a + b, c, with) == replace_char(a, c, with) + replace_char(b, c, with),
        replace_char(seq![c], c, with) == with,
        replace_char(seq![other], c, with) == seq![other],
        replace_char(seq![], c, with) == Seq::<char>::empty(),
    decreases b.len(),
{
    reveal_with_fuel(replace_char, 2);
    assert(seq![c].drop_last() =~= seq![]);
    assert(seq![other].drop_last() =~= seq![]);
    assert(replace_char(seq![c], c, with) =~= with);
    assert(replace_char(seq![other], c, with) =~= seq![other]);
    if b.len() == 0 {
        assert(a + b =~= a);
        assert(replace_char(a, c, with) + replace_char(b, c, with) =~= replace_char(a, c, with));
    } else {
        law_replace_char(a, b.drop_last(), c, other, with);
        assert((a + b).drop_last() =~= a + b.drop_last());
        assert(replace_char(a + b, c, with) =~= replace_char(a, c, with) + replace_char(
            b,
            c,
            with,
        ));
    }
}

/// The value of a digit is its place behind zero, and a leading part counts ten
/// times as much for every digit behind it.
pub proof fn law_digits_value(a: Seq<char>, b: Seq<char>, c: char)
    requires
        is_digit(c),
    ensures
        digits_value(seq![]) == 0,
        digits_value(seq![c]) == c as int - '0' as int,
        digits_value(a + b) == digits_value(a) * vstd::arithmetic::power::pow(10, b.len())
            + digits_value(b),
    decreases b.len(),
{
    reveal_with_fuel(digits_value, 2);
    assert(seq![c].drop_last() =~= seq![]);
    if b.len() == 0 {
        assert(a + b =~= a);
        vstd::arithmetic::power::lemma_pow0(10);
        assert(digits_value(a) * 1 == digits_value(a)) by (nonlinear_arith);
    } else {
        law_digits_value(a, b.drop_last(), c);
        assert((a + b).drop_last() =~= a + b.drop_last());
        let p = vstd::arithmetic::power::pow(10, (b.len() - 1) as nat);
        let x = digits_value(a) as int;
        reveal(vstd::arithmetic::power::pow);
        assert(vstd::arithmetic::power::pow(10, b.len()) == 10 * p);
        assert((x * p) * 10 == x * (10 * p)) by (nonlinear_arith);
    }
}

/// The decimal text of a number has no leading zero.
pub proof fn law_decimal_leads(n: nat)
    ensures
        n > 0 ==> decimal(n)[0] != '0',
        decimal(0) == seq!['0'],
    decreases n,
{
    if n >= 10 {
        law_decimal_leads(n / 10);
        law_decimal_round_trip(n / 10);
        assert(decimal(n)[0] == decimal(n / 10)[0]);
    }
}

/// An integer is read from digits with an optional sign in front. Anything else
/// is no integer, and neither is one outside the 128-bit range.
pub proof fn law_parse_int(digits: Seq<char>, sign: char)
    requires
        sign == '+' || sign == '-',
    ensures
        digits.len() > 0 && all_digits(digits) ==> {
            let v = digits_value(digits) as int;
            &&& parse_int(digits) == (if v <= i128::MAX {
                Some(v)
            } else {
                None
            })
            &&& parse_int(seq!['+'] + digits) == parse_int(digits)
            &&& parse_int(seq!['-'] + digits) == (if -v >= i128::MIN {
                Some(-v)
            } else {
                None
            })
        },
        digits.len() == 0 || !all_digits(digits) ==> parse_int(seq![sign] + digits) is None,
        digits.len() == 0 ==> parse_int(digits) is None,
        digits.len() > 0 && !all_digits(digits) && digits[0] != '+' && digits[0] != '-'
            ==> parse_int(digits) is None,
{
    assert((seq!['+'] + digits).skip(1) =~= digits);
    assert((seq!['-'] + digits).skip(1) =~= digits);
    assert((seq![sign] + digits).skip(1) =~= digits);
    assert((seq!['+'] + digits)[0] == '+');
    assert((seq!['-'] + digits)[0] == '-');
    if digits.len() > 0 && all_digits(digits) {
        assert(is_digit(digits[0]));
    }
}

} // verus!
