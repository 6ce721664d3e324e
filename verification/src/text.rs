//! The text that requests are made of: decimal numbers, lists with a separator, and
//! percent-encoding.

use vstd::prelude::*;
use vstd::utf8::encode_utf8;

verus! {

/// The character that writes the decimal digit `d`.
pub open spec fn digit_char(d: nat) -> char
    recommends
        d < 10,
{
    ((48 + d) as u8) as char
}

/// Whether `c` is one of `'0'` to `'9'`.
pub open spec fn is_digit(c: char) -> bool {
    '0' <= c && c <= '9'
}

/// The number that the digit `c` writes.
pub open spec fn digit_value(c: char) -> nat
    recommends
        is_digit(c),
{
    ((c as u8) - 48) as nat
}

/// The decimal text of `n`: no sign, no leading zero but for `0` itself.
pub open spec fn decimal(n: nat) -> Seq<char>
    decreases n,
{
    if n < 10 {
        seq![digit_char(n)]
    } else {
        decimal(n / 10).push(digit_char(n % 10))
    }
}

fn digit_str(d: u8) -> (s: &'static str)
    requires
        d < 10,
    ensures
        s@ == seq![digit_char(d as nat)],
{
    let digits = "0123456789";
    proof {
        reveal_strlit("0123456789");
    }
    let s = digits.substring_ascii(d as usize, d as usize + 1);
    assert(s@ =~= seq![digit_char(d as nat)]);
    s
}

/// Writes `n` in decimal.
pub fn u64_to_string(n: u64) -> (s: String)
    ensures
        s@ == decimal(n as nat),
    decreases n,
{
    if n < 10 {
        let mut s = String::new();
        s.append(digit_str(n as u8));
        assert(s@ =~= decimal(n as nat));
        s
    } else {
        let mut s = u64_to_string(n / 10);
        s.append(digit_str((n % 10) as u8));
        assert(s@ =~= decimal(n as nat));
        s
    }
}

/// Why a text is not an unsigned decimal number.
#[derive(Debug, Clone, Copy, PartialEq, Eq, Structural)]
pub enum ParseIntError {
    /// The text is empty.
    Empty,
    /// A character that is not a decimal digit, or a sign with nothing behind it.
    InvalidDigit,
    /// The number does not fit in the integer type.
    PosOverflow,
}

/// Reads `digits` from the left, starting from the value `acc` of what was read before:
/// the first character that is no digit, or that takes the value past `max`, decides
/// the error.
pub open spec fn accumulate(acc: nat, digits: Seq<char>, max: u64) -> Result<u64, ParseIntError>
    decreases digits.len(),
{
    if digits.len() == 0 {
        Ok(acc as u64)
    } else if !is_digit(digits[0]) {
        Err(ParseIntError::InvalidDigit)
    } else if acc * 10 + digit_value(digits[0]) > max {
        Err(ParseIntError::PosOverflow)
    } else {
        accumulate(acc * 10 + digit_value(digits[0]), digits.drop_first(), max)
    }
}

/// The number up to `max` that a text writes: decimal digits, with one `+` allowed in
/// front.
pub open spec fn parsed_unsigned(s: Seq<char>, max: u64) -> Result<u64, ParseIntError> {
    if s.len() == 0 {
        Err(ParseIntError::Empty)
    } else if s[0] == '+' {
        if s.len() == 1 {
            Err(ParseIntError::InvalidDigit)
        } else {
            accumulate(0, s.drop_first(), max)
        }
    } else {
        accumulate(0, s, max)
    }
}

/// The `u64` that a text writes.
pub open spec fn parsed_u64(s: Seq<char>) -> Result<u64, ParseIntError> {
    parsed_unsigned(s, u64::MAX)
}

/// The `u8` that a text writes.
pub open spec fn parsed_u8(s: Seq<char>) -> Result<u8, ParseIntError> {
    match parsed_unsigned(s, 255) {
        Ok(n) => Ok(n as u8),
        Err(e) => Err(e),
    }
}

/// Reads an unsigned decimal number that is not above `max`.
pub fn parse_unsigned(s: &str, max: u64) -> (r: Result<u64, ParseIntError>)
    ensures
        r == parsed_unsigned(s@, max),
        r matches Ok(n) ==> n <= max,
{
    broadcast use vstd::string::group_string_axioms;

    let mut acc: u64 = 0;
    let mut first: bool = true;
    let mut sign_only: bool = false;
    for c in it: s.chars()
        invariant
            it.seq() == s@,
            first == (it.index() == 0),
            first ==> acc == 0 && !sign_only,
            sign_only ==> it.index() == 1 && s@[0] == '+' && acc == 0,
            acc <= max,
            !first && !sign_only ==> parsed_unsigned(s@, max) == accumulate(
                acc as nat,
                s@.skip(it.index()),
                max,
            ),
    {
        let ghost i = it.index();
        assert(s@.skip(i)[0] == c);
        assert(s@.skip(i).drop_first() =~= s@.skip(i + 1));
        assert(s@.skip(0) =~= s@);
        assert(s@.drop_first() =~= s@.skip(1));
        if first && c == '+' {
            sign_only = true;
        } else {
            sign_only = false;
            if !(c >= '0' && c <= '9') {
                return Err(ParseIntError::InvalidDigit);
            }
            assert('0' as u8 == 48 && '9' as u8 == 57);
            let d: u64 = (c as u8 - 48) as u64;
            assert(d == digit_value(c));
            let next = match acc.checked_mul(10) {
                Some(m) => m.checked_add(d),
                None => None,
            };
            match next {
                Some(v) => {
                    if v > max {
                        return Err(ParseIntError::PosOverflow);
                    }
                    acc = v;
                },
                None => {
                    return Err(ParseIntError::PosOverflow);
                },
            }
        }
        first = false;
    }
    if first {
        Err(ParseIntError::Empty)
    } else if sign_only {
        Err(ParseIntError::InvalidDigit)
    } else {
        Ok(acc)
    }
}

/// Reads an unsigned decimal number.
pub fn parse_u64(s: &str) -> (r: Result<u64, ParseIntError>)
    ensures
        r == parsed_u64(s@),
{
    parse_unsigned(s, u64::MAX)
}

/// Reads an unsigned decimal number below 256.
pub fn parse_u8(s: &str) -> (r: Result<u8, ParseIntError>)
    ensures
        r == parsed_u8(s@),
{
    match parse_unsigned(s, 255) {
        Ok(n) => Ok(n as u8),
        Err(e) => Err(e),
    }
}

/// A digit's character writes that digit.
proof fn lemma_digit_char(d: nat)
    requires
        d < 10,
    ensures
        is_digit(digit_char(d)),
        digit_value(digit_char(d)) == d,
{
    let b = (48 + d) as u8;
    assert(b as char as u8 == b);
    assert('0' as u8 == 48 && '9' as u8 == 57);
}

/// Reading on after `front` has given `v`: one more digit `d` gives `10 * v + d`, where
/// that fits.
proof fn lemma_accumulate_push(acc: nat, front: Seq<char>, d: nat, max: u64)
    requires
        d < 10,
        accumulate(acc, front, max) is Ok,
        accumulate(acc, front, max)->Ok_0 * 10 + d <= max,
        acc <= max,
    ensures
        accumulate(acc, front.push(digit_char(d)), max) == Ok::<u64, ParseIntError>(
            (accumulate(acc, front, max)->Ok_0 * 10 + d) as u64,
        ),
    decreases front.len(),
{
    let whole = front.push(digit_char(d));
    lemma_digit_char(d);
    reveal_with_fuel(accumulate, 2);
    if front.len() == 0 {
        assert(whole.drop_first() =~= Seq::<char>::empty());
        assert(whole[0] == digit_char(d));
    } else {
        assert(whole[0] == front[0]);
        assert(whole.drop_first() =~= front.drop_first().push(digit_char(d)));
        lemma_accumulate_push(acc * 10 + digit_value(front[0]), front.drop_first(), d, max);
    }
}

/// Reading the decimal text of a number gives the number back, where the number is not
/// above what is read for.
pub proof fn lemma_parse_decimal(n: u64, max: u64)
    requires
        n <= max,
    ensures
        accumulate(0, decimal(n as nat), max) == Ok::<u64, ParseIntError>(n),
        parsed_unsigned(decimal(n as nat), max) == Ok::<u64, ParseIntError>(n),
        decimal(n as nat).len() > 0,
        is_digit(decimal(n as nat)[0]),
    decreases n,
{
    reveal_with_fuel(accumulate, 2);
    if n < 10 {
        lemma_digit_char(n as nat);
        assert(decimal(n as nat).drop_first() =~= Seq::<char>::empty());
    } else {
        lemma_parse_decimal(n / 10, max);
        lemma_accumulate_push(0, decimal((n / 10) as nat), (n % 10) as nat, max);
    }
}

/// The decimal texts of `numbers`, one for one.
pub open spec fn decimals(numbers: Seq<u64>) -> Seq<Seq<char>> {
    Seq::new(numbers.len(), |i: int| decimal(numbers[i] as nat))
}

/// The texts of `parts`, one for one.
pub open spec fn texts(parts: Seq<&str>) -> Seq<Seq<char>> {
    Seq::new(parts.len(), |i: int| parts[i]@)
}

/// `parts` in one text, with `sep` between each two neighbours.
pub open spec fn joined(parts: Seq<Seq<char>>, sep: Seq<char>) -> Seq<char>
    decreases parts.len(),
{
    if parts.len() == 0 {
        Seq::empty()
    } else if parts.len() == 1 {
        parts[0]
    } else {
        joined(parts.drop_last(), sep) + sep + parts.last()
    }
}

/// Writes each of `numbers` in decimal.
pub fn u64s_to_strings(numbers: &[u64]) -> (strings: Vec<String>)
    ensures
        strings.deep_view() == decimals(numbers@),
{
    let mut strings: Vec<String> = Vec::new();
    let mut i: usize = 0;
    while i < numbers.len()
        invariant
            i <= numbers.len(),
            strings.len() == i,
            forall|j: int| 0 <= j < i ==> strings[j]@ == decimal(numbers[j] as nat),
        decreases numbers.len() - i,
    {
        strings.push(u64_to_string(numbers[i]));
        i = i + 1;
    }
    assert(strings.deep_view() =~= decimals(numbers@));
    strings
}

/// Puts `parts` in one string, with `sep` between each two neighbours.
pub fn join_strs(parts: &[&str], sep: &str) -> (s: String)
    ensures
        s@ == joined(texts(parts@), sep@),
{
    let mut s = String::new();
    let mut i: usize = 0;
    while i < parts.len()
        invariant
            i <= parts.len(),
            s@ == joined(texts(parts@).take(i as int), sep@),
        decreases parts.len() - i,
    {
        let ghost before = texts(parts@).take(i as int);
        let ghost now = texts(parts@).take(i + 1);
        assert(now.drop_last() =~= before);
        assert(now.last() == parts[i as int]@);
        if i > 0 {
            s.append(sep);
        }
        s.append(parts[i]);
        assert(s@ =~= joined(now, sep@));
        i = i + 1;
    }
    assert(texts(parts@).take(i as int) =~= texts(parts@));
    s
}

/// `itertools::Itertools::join` on the strings of a vector. It writes the items in
/// order, each as its `Display` gives it, which for a string is the string itself, and
/// `sep` between each two neighbours; of no item it makes the empty string.
#[verifier::external_body]
pub(crate) fn join_strings(parts: &Vec<String>, sep: &str) -> (s: String)
    ensures
        s@ == joined(parts.deep_view(), sep@),
{
    itertools::Itertools::join(&mut parts.iter(), sep)
}

/// Whether `s` begins with `prefix`.
pub fn starts_with(s: &str, prefix: &str) -> (b: bool)
    ensures
        b == prefix@.is_prefix_of(s@),
{
    broadcast use vstd::string::group_string_axioms;

    let m = prefix.unicode_len();
    let mut i: usize = 0;
    for c in it: s.chars()
        invariant
            it.seq() == s@,
            i == it.index(),
            i <= m,
            m == prefix@.len(),
            forall|j: int| 0 <= j < i ==> s@[j] == prefix@[j],
    {
        if i >= m {
            assert(prefix@ =~= s@.subrange(0, m as int));
            return true;
        }
        if prefix.get_char(i) != c {
            proof {
                if m <= s@.len() {
                    assert(s@.subrange(0, m as int)[i as int] == s@[i as int]);
                }
            }
            return false;
        }
        i = i + 1;
    }
    if i >= m {
        assert(prefix@ =~= s@.subrange(0, m as int));
    }
    i >= m
}

/// Whether a byte stands for itself in a percent-encoded text: the letters and digits of
/// ASCII, and `-`, `.`, `_`, `~`.
pub open spec fn is_unreserved(b: u8) -> bool {
    ||| 0x30 <= b <= 0x39
    ||| 0x41 <= b <= 0x5a
    ||| 0x61 <= b <= 0x7a
    ||| b == 0x2d
    ||| b == 0x2e
    ||| b == 0x5f
    ||| b == 0x7e
}

/// The hexadecimal digit for `n`, in upper case.
pub open spec fn hex_digit(n: u8) -> char
    recommends
        n < 16,
{
    if n < 10 {
        ((0x30 + n) as u8) as char
    } else {
        ((0x41 + n - 10) as u8) as char
    }
}

/// One byte, percent-encoded: itself where it is unreserved, else `%` and its two
/// hexadecimal digits.
pub open spec fn percent_encoded_byte(b: u8) -> Seq<char> {
    if is_unreserved(b) {
        seq![b as char]
    } else {
        seq!['%', hex_digit(b / 16), hex_digit(b % 16)]
    }
}

/// A sequence of bytes, percent-encoded byte by byte.
pub open spec fn percent_encoded(bytes: Seq<u8>) -> Seq<char>
    decreases bytes.len(),
{
    if bytes.len() == 0 {
        Seq::empty()
    } else {
        percent_encoded(bytes.drop_last()) + percent_encoded_byte(bytes.last())
    }
}

/// A text as it stands in a URL: the bytes of its UTF-8 form, percent-encoded.
pub open spec fn url_encoded(s: Seq<char>) -> Seq<char> {
    percent_encoded(encode_utf8(s))
}

/// `urlencoding::encode`. It goes through the bytes of the text's UTF-8 form and keeps
/// each unreserved byte as it is; every other byte becomes `%` and two upper-case
/// hexadecimal digits.
#[verifier::external_body]
pub(crate) fn url_encode(s: &str) -> (encoded: String)
    ensures
        encoded@ == url_encoded(s@),
{
    urlencoding::encode(s)
}

/// Whether a byte stands for itself in a form-encoded text: the letters and digits of
/// ASCII, and `*`, `-`, `.`, `_`.
pub open spec fn is_form_unchanged(b: u8) -> bool {
    ||| 0x30 <= b <= 0x39
    ||| 0x41 <= b <= 0x5a
    ||| 0x61 <= b <= 0x7a
    ||| b == 0x2a
    ||| b == 0x2d
    ||| b == 0x2e
    ||| b == 0x5f
}

/// One byte, form-encoded: itself where it is unchanged, `+` for a space, else `%` and
/// its two hexadecimal digits.
pub open spec fn form_encoded_byte(b: u8) -> Seq<char> {
    if is_form_unchanged(b) {
        seq![b as char]
    } else if b == 0x20 {
        seq!['+']
    } else {
        seq!['%', hex_digit(b / 16), hex_digit(b % 16)]
    }
}

/// A sequence of bytes, form-encoded byte by byte.
pub open spec fn form_encoded_bytes(bytes: Seq<u8>) -> Seq<char>
    decreases bytes.len(),
{
    if bytes.len() == 0 {
        Seq::empty()
    } else {
        form_encoded_bytes(bytes.drop_last()) + form_encoded_byte(bytes.last())
    }
}

/// A text as it stands in the query of a URL: the bytes of its UTF-8 form,
/// form-encoded.
pub open spec fn form_encoded(s: Seq<char>) -> Seq<char> {
    form_encoded_bytes(encode_utf8(s))
}

/// `url::form_urlencoded::byte_serialize` on the bytes of a text, its pieces put
/// together. It keeps each unchanged byte as it is, writes `+` for a space, and `%` and
/// two upper-case hexadecimal digits for every other byte.
#[verifier::external_body]
pub(crate) fn form_encode(s: &str) -> (encoded: String)
    ensures
        encoded@ == form_encoded(s@),
{
    url::form_urlencoded::byte_serialize(s.as_bytes()).collect()
}

/// The keys and values of `pairs`, as texts.
pub open spec fn pair_texts(pairs: Seq<(String, String)>) -> Seq<(Seq<char>, Seq<char>)> {
    Seq::new(pairs.len(), |i: int| (pairs[i].0@, pairs[i].1@))
}

/// Each of `pairs` as it stands in a query: key, `=` and value, both form-encoded.
pub open spec fn form_pairs(pairs: Seq<(Seq<char>, Seq<char>)>) -> Seq<Seq<char>> {
    Seq::new(pairs.len(), |i: int| form_encoded(pairs[i].0) + "="@ + form_encoded(pairs[i].1))
}

/// The query that carries `pairs`: the pairs in order, with `&` between each two.
pub open spec fn form_query(pairs: Seq<(Seq<char>, Seq<char>)>) -> Seq<char> {
    joined(form_pairs(pairs), "&"@)
}

/// Writes `pairs` as the query of a URL.
pub fn form_query_string(pairs: &Vec<(String, String)>) -> (query: String)
    ensures
        query@ == form_query(pair_texts(pairs@)),
{
    let mut parts: Vec<String> = Vec::new();
    let mut i: usize = 0;
    while i < pairs.len()
        invariant
            i <= pairs.len(),
            parts.len() == i,
            forall|j: int|
                0 <= j < i ==> parts[j]@ == form_encoded(pairs[j].0@) + "="@ + form_encoded(
                    pairs[j].1@,
                ),
        decreases pairs.len() - i,
    {
        let mut part = form_encode(pairs[i].0.as_str());
        part.append("=");
        part.append(form_encode(pairs[i].1.as_str()).as_str());
        parts.push(part);
        i = i + 1;
    }
    assert(parts.deep_view() =~= form_pairs(pair_texts(pairs@)));
    join_strings(&parts, "&")
}

} // verus!
