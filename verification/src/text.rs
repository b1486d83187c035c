//! Character-level helpers shared by the validators and formatters.

use vstd::prelude::*;

verus! {

broadcast use vstd::string::group_string_axioms;

/// The characters of `s`, in order.
pub fn chars_of(s: &str) -> (v: Vec<char>)
    ensures
        v@ == s@,
{
    let mut v: Vec<char> = Vec::new();
    for c in it: s.chars()
        invariant
            v@ == it.seq().take(it.index() as int),
    {
        v.push(c);
    }
    v
}

/// Appends one character to a string (`String::push`).
#[verifier::external_body]
pub(crate) fn push_char(s: &mut String, c: char)
    ensures
        final(s)@ == old(s)@.push(c),
{
    s.push(c);
}

/// An owned copy of a string slice.
pub fn owned(s: &str) -> (r: String)
    ensures
        r@ == s@,
{
    s.to_string()
}

/// Appends every character of `v` to `s`.
pub fn push_all(s: &mut String, v: &Vec<char>)
    ensures
        final(s)@ == old(s)@ + v@,
{
    let mut i: usize = 0;
    while i < v.len()
        invariant
            i <= v.len(),
            s@ == old(s)@ + v@.take(i as int),
        decreases v.len() - i,
    {
        push_char(s, v[i]);
        assert(v@.take(i as int).push(v@[i as int]) =~= v@.take(i + 1));
        i += 1;
    }
    assert(v@.take(v.len() as int) =~= v@);
}

/// A string holding exactly the characters of `v`.
pub fn string_of(v: &Vec<char>) -> (r: String)
    ensures
        r@ == v@,
{
    let mut s = String::new();
    push_all(&mut s, v);
    s
}

/// Appends a string slice to a string.
pub fn push_str(s: &mut String, t: &str)
    ensures
        final(s)@ == old(s)@ + t@,
{
    let v = chars_of(t);
    push_all(s, &v);
}

/// `true` for the Unicode control characters (general category Cc).
pub open spec fn is_control_char(c: char) -> bool {
    (c as u32) <= 0x1f || (0x7f <= (c as u32) && (c as u32) <= 0x9f)
}

/// `char::is_control`.
pub fn is_control(c: char) -> (r: bool)
    ensures
        r == is_control_char(c),
{
    let v = c as u32;
    v <= 0x1f || (0x7f <= v && v <= 0x9f)
}

/// `true` for the characters with the Unicode White_Space property, as
/// `char::is_whitespace` and `str::trim` use them.
pub open spec fn is_space_char(c: char) -> bool {
    let v = c as u32;
    ||| 0x9 <= v && v <= 0xd
    ||| v == 0x20
    ||| v == 0x85
    ||| v == 0xa0
    ||| v == 0x1680
    ||| 0x2000 <= v && v <= 0x200a
    ||| v == 0x2028
    ||| v == 0x2029
    ||| v == 0x202f
    ||| v == 0x205f
    ||| v == 0x3000
}

/// `char::is_whitespace`.
pub fn is_space(c: char) -> (r: bool)
    ensures
        r == is_space_char(c),
{
    let v = c as u32;
    (0x9 <= v && v <= 0xd) || v == 0x20 || v == 0x85 || v == 0xa0 || v == 0x1680 || (0x2000
        <= v && v <= 0x200a) || v == 0x2028 || v == 0x2029 || v == 0x202f || v == 0x205f || v
        == 0x3000
}

/// A text is blank when trimming it leaves nothing: every character is white space.
pub open spec fn is_blank(s: Seq<char>) -> bool {
    forall|i: int| 0 <= i < s.len() ==> is_space_char(#[trigger] s[i])
}

/// `s.trim().is_empty()`.
pub fn blank(s: &str) -> (r: bool)
    ensures
        r == is_blank(s@),
{
    let v = chars_of(s);
    let mut i: usize = 0;
    while i < v.len()
        invariant
            i <= v.len(),
            v@ == s@,
            forall|j: int| 0 <= j < i ==> is_space_char(#[trigger] v@[j]),
        decreases v.len() - i,
    {
        if !is_space(v[i]) {
            return false;
        }
        i += 1;
    }
    true
}

/// Whether `c` occurs in `s`.
pub open spec fn has_char(s: Seq<char>, c: char) -> bool {
    exists|i: int| 0 <= i < s.len() && s[i] == c
}

/// `s.contains(c)`.
pub fn contains_char(s: &str, c: char) -> (r: bool)
    ensures
        r == has_char(s@, c),
{
    let v = chars_of(s);
    let mut i: usize = 0;
    while i < v.len()
        invariant
            i <= v.len(),
            v@ == s@,
            forall|j: int| 0 <= j < i ==> v@[j] != c,
        decreases v.len() - i,
    {
        if v[i] == c {
            return true;
        }
        i += 1;
    }
    false
}

/// Whether some character of `s` is a control character.
pub open spec fn has_control(s: Seq<char>) -> bool {
    exists|i: int| 0 <= i < s.len() && is_control_char(s[i])
}

/// `s.chars().any(char::is_control)`.
pub fn any_control(s: &str) -> (r: bool)
    ensures
        r == has_control(s@),
{
    let v = chars_of(s);
    let mut i: usize = 0;
    while i < v.len()
        invariant
            i <= v.len(),
            v@ == s@,
            forall|j: int| 0 <= j < i ==> !is_control_char(v@[j]),
        decreases v.len() - i,
    {
        if is_control(v[i]) {
            return true;
        }
        i += 1;
    }
    false
}

/// The number of bytes of the UTF-8 encoding of `s`.
pub open spec fn byte_len(s: Seq<char>) -> nat {
    vstd::utf8::encode_utf8(s).len()
}

/// `s.len()`: the UTF-8 byte length.
pub fn utf8_len(s: &str) -> (n: usize)
    ensures
        n == byte_len(s@),
{
    s.as_bytes().len()
}

/// `char::to_ascii_lowercase`.
pub open spec fn ascii_lower_char(c: char) -> char {
    if 'A' <= c && c <= 'Z' {
        ((c as u32) + 32) as char
    } else {
        c
    }
}

/// `str::to_ascii_lowercase`.
pub open spec fn ascii_lower(s: Seq<char>) -> Seq<char> {
    s.map_values(|c: char| ascii_lower_char(c))
}

/// Whether `s` ends with `suffix`.
pub open spec fn ends_with(s: Seq<char>, suffix: Seq<char>) -> bool {
    suffix.len() <= s.len() && s.subrange(s.len() - suffix.len(), s.len() as int) == suffix
}

/// Whether `s` starts with `prefix`.
pub open spec fn starts_with(s: Seq<char>, prefix: Seq<char>) -> bool {
    prefix.len() <= s.len() && s.subrange(0, prefix.len() as int) == prefix
}

/// Whether `needle` occurs in `s`.
pub open spec fn has_part(s: Seq<char>, needle: Seq<char>) -> bool {
    exists|i: int|
        0 <= i && i + needle.len() <= s.len() && #[trigger] s.subrange(i, i + needle.len())
            == needle
}

/// `s.to_ascii_lowercase().ends_with(suffix)`, for a lower-case `suffix`.
pub fn ends_with_ignoring_ascii_case(s: &Vec<char>, suffix: &Vec<char>) -> (r: bool)
    ensures
        r == ends_with(ascii_lower(s@), suffix@),
{
    if suffix.len() > s.len() {
        return false;
    }
    let start = s.len() - suffix.len();
    let mut i: usize = 0;
    while i < suffix.len()
        invariant
            start == s.len() - suffix.len(),
            i <= suffix.len(),
            forall|j: int| 0 <= j < i ==> ascii_lower_char(s@[start + j]) == suffix@[j],
        decreases suffix.len() - i,
    {
        let c = s[start + i];
        let lower = if 'A' <= c && c <= 'Z' {
            ((c as u8) + 32) as char
        } else {
            c
        };
        if lower != suffix[i] {
            assert(ascii_lower(s@).subrange(start as int, s@.len() as int)[i as int] != suffix@[i as int]);
            return false;
        }
        i += 1;
    }
    assert(ascii_lower(s@).subrange(start as int, s@.len() as int) =~= suffix@);
    true
}

/// Whether `needle` occurs in `s` (`str::contains` with a string pattern).
pub fn contains_part(s: &Vec<char>, needle: &Vec<char>) -> (r: bool)
    ensures
        r == has_part(s@, needle@),
{
    if needle.len() > s.len() {
        return false;
    }
    let last = s.len() - needle.len();
    let mut i: usize = 0;
    while i <= last
        invariant
            last == s.len() - needle.len(),
            i <= last + 1,
            forall|k: int| 0 <= k < i ==> #[trigger] s@.subrange(k, k + needle@.len()) != needle@,
        decreases last + 1 - i,
    {
        let mut j: usize = 0;
        let mut same = true;
        while j < needle.len()
            invariant
                i <= last,
                last == s.len() - needle.len(),
                j <= needle.len(),
                same == (forall|m: int| 0 <= m < j ==> s@[i + m] == needle@[m]),
            decreases needle.len() - j,
        {
            if s[i + j] != needle[j] {
                same = false;
            }
            j += 1;
        }
        if same {
            assert(s@.subrange(i as int, i + needle@.len()) =~= needle@);
            return true;
        }
        assert(s@.subrange(i as int, i + needle@.len()) != needle@) by {
            let m = choose|m: int| 0 <= m < needle@.len() && s@[i + m] != needle@[m];
            assert(s@.subrange(i as int, i + needle@.len())[m] != needle@[m]);
        }
        i += 1;
    }
    false
}

/// The lower-case hexadecimal digit for a nibble.
pub open spec fn hex_digit(n: u8) -> char {
    if n < 10 {
        ((n as u32) + 48) as char
    } else {
        ((n as u32) + 87) as char
    }
}

/// Lower-case hexadecimal text of a byte string, two digits per byte.
pub open spec fn hex_text(bytes: Seq<u8>) -> Seq<char>
    decreases bytes.len(),
{
    if bytes.len() == 0 {
        Seq::empty()
    } else {
        hex_text(bytes.drop_last()) + seq![
            hex_digit(bytes.last() / 16),
            hex_digit(bytes.last() % 16),
        ]
    }
}

/// The character of a lower-case hexadecimal digit.
pub fn hex_char(n: u8) -> (c: char)
    requires
        n < 16,
    ensures
        c == hex_digit(n),
{
    if n < 10 {
        (n + 48) as char
    } else {
        (n + 87) as char
    }
}

/// Lower-case hexadecimal text of a byte string (`format!("{:x}", digest)`).
pub fn hex_lower(bytes: &[u8]) -> (r: String)
    ensures
        r@ == hex_text(bytes@),
        r@.len() == 2 * bytes@.len(),
{
    let mut out = String::new();
    let mut i: usize = 0;
    while i < bytes.len()
        invariant
            i <= bytes.len(),
            out@ == hex_text(bytes@.take(i as int)),
            out@.len() == 2 * i,
        decreases bytes.len() - i,
    {
        let b = bytes[i];
        push_char(&mut out, hex_char(b / 16));
        push_char(&mut out, hex_char(b % 16));
        assert(bytes@.take(i + 1).drop_last() =~= bytes@.take(i as int));
        i += 1;
    }
    assert(bytes@.take(bytes.len() as int) =~= bytes@);
    out
}

/// Whether `c` is an ASCII hexadecimal digit (either case).
pub open spec fn is_hex_char(c: char) -> bool {
    ('0' <= c && c <= '9') || ('a' <= c && c <= 'f') || ('A' <= c && c <= 'F')
}

/// Whether every character of `s` is an ASCII hexadecimal digit.
pub open spec fn all_hex(s: Seq<char>) -> bool {
    forall|i: int| 0 <= i < s.len() ==> is_hex_char(#[trigger] s[i])
}

/// `s.bytes().all(|b| b.is_ascii_hexdigit())`.
pub fn only_hex_digits(s: &str) -> (r: bool)
    ensures
        r == all_hex(s@),
{
    let v = chars_of(s);
    let mut i: usize = 0;
    while i < v.len()
        invariant
            i <= v.len(),
            v@ == s@,
            forall|j: int| 0 <= j < i ==> is_hex_char(#[trigger] v@[j]),
        decreases v.len() - i,
    {
        let c = v[i];
        if !(('0' <= c && c <= '9') || ('a' <= c && c <= 'f') || ('A' <= c && c <= 'F')) {
            return false;
        }
        i += 1;
    }
    true
}


/// `a == b` for string slices.
pub fn same_text(a: &str, b: &str) -> (r: bool)
    ensures
        r == (a@ == b@),
{
    let x = chars_of(a);
    let y = chars_of(b);
    if x.len() != y.len() {
        return false;
    }
    let mut i: usize = 0;
    while i < x.len()
        invariant
            x@ == a@,
            y@ == b@,
            x.len() == y.len(),
            i <= x.len(),
            forall|j: int| 0 <= j < i ==> x@[j] == y@[j],
        decreases x.len() - i,
    {
        if x[i] != y[i] {
            return false;
        }
        i += 1;
    }
    assert(x@ =~= y@);
    true
}

/// The texts of `parts` joined by `sep` (`[String]::join`).
pub open spec fn joined(parts: Seq<Seq<char>>, sep: Seq<char>) -> Seq<char>
    decreases parts.len(),
{
    if parts.len() == 0 {
        Seq::empty()
    } else if parts.len() == 1 {
        parts[0]
    } else {
        joined(parts.drop_last(), sep) + sep + parts.last()
    }
}

/// The views of a list of strings.
pub open spec fn texts(v: Seq<String>) -> Seq<Seq<char>> {
    v.map_values(|s: String| s@)
}

/// `parts.join(sep)`.
pub fn join(parts: &Vec<String>, sep: &str) -> (r: String)
    ensures
        r@ == joined(texts(parts@), sep@),
{
    let mut out = String::new();
    let mut i: usize = 0;
    while i < parts.len()
        invariant
            i <= parts.len(),
            out@ == joined(texts(parts@.take(i as int)), sep@),
        decreases parts.len() - i,
    {
        assert(texts(parts@.take(i + 1)).drop_last() =~= texts(parts@.take(i as int)));
        if i > 0 {
            push_str(&mut out, sep);
        }
        push_str(&mut out, parts[i].as_str());
        i += 1;
    }
    assert(parts@.take(parts.len() as int) =~= parts@);
    out
}

/// `a` followed by `b`, as a new string.
pub fn concat(a: &str, b: &str) -> (r: String)
    ensures
        r@ == a@ + b@,
{
    let mut s = owned(a);
    push_str(&mut s, b);
    s
}


/// The decimal digit character of `d` (below ten).
pub open spec fn digit_char(d: int) -> char {
    ((d + 48) as u32) as char
}

/// The decimal text of a number, without sign or leading zeros.
pub open spec fn decimal_text(n: nat) -> Seq<char>
    decreases n,
{
    if n < 10 {
        seq![digit_char(n as int)]
    } else {
        decimal_text(n / 10) + seq![digit_char((n % 10) as int)]
    }
}

/// `n.to_string()` for an unsigned number.
pub fn decimal(n: u64) -> (r: String)
    ensures
        r@ == decimal_text(n as nat),
    decreases n,
{
    let d = (n % 10) as u8;
    let c = (d + 48) as char;
    if n < 10 {
        let mut s = String::new();
        push_char(&mut s, c);
        assert(s@ =~= seq![digit_char(n as int)]);
        s
    } else {
        let mut s = decimal(n / 10);
        push_char(&mut s, c);
        s
    }
}

/// Whether `c` is an ASCII decimal digit.
pub open spec fn is_digit(c: char) -> bool {
    '0' <= c && c <= '9'
}

/// The value of a text of decimal digits.
pub open spec fn digits_value(s: Seq<char>) -> int
    decreases s.len(),
{
    if s.len() == 0 {
        0
    } else {
        digits_value(s.drop_last()) * 10 + ((s.last() as u32) - 48)
    }
}

/// The number `str::parse::<u64>` reads from a text: an optional `+`, then
/// at least one decimal digit and nothing else, with a value that fits.
pub open spec fn u64_text_value(s: Seq<char>) -> Option<u64> {
    if unsigned_digits(s).len() > 0 && all_digits(unsigned_digits(s)) && digits_value(unsigned_digits(s))
        <= u64::MAX {
        Some(digits_value(unsigned_digits(s)) as u64)
    } else {
        None
    }
}

/// The text after an optional leading `+`.
pub open spec fn unsigned_digits(s: Seq<char>) -> Seq<char> {
    if s.len() > 0 && s[0] == '+' {
        s.drop_first()
    } else {
        s
    }
}

/// Whether every character is a decimal digit.
pub open spec fn all_digits(d: Seq<char>) -> bool {
    forall|i: int| 0 <= i < d.len() ==> is_digit(#[trigger] d[i])
}

proof fn digits_value_grows(s: Seq<char>, i: int)
    requires
        0 <= i <= s.len(),
        forall|k: int| 0 <= k < s.len() ==> is_digit(#[trigger] s[k]),
    ensures
        digits_value(s.take(i)) <= digits_value(s),
        digits_value(s.take(i)) >= 0,
    decreases s.len() - i,
{
    if i < s.len() {
        digits_value_grows(s, i + 1);
        assert(s.take(i + 1).drop_last() =~= s.take(i));
    } else {
        assert(s.take(i) =~= s);
    }
    if i > 0 {
        digits_value_nonneg(s.take(i));
    }
}

proof fn digits_value_nonneg(s: Seq<char>)
    requires
        forall|k: int| 0 <= k < s.len() ==> is_digit(#[trigger] s[k]),
    ensures
        digits_value(s) >= 0,
    decreases s.len(),
{
    if s.len() > 0 {
        digits_value_nonneg(s.drop_last());
    }
}

/// `str::parse::<u64>()`, as `Some` value or `None` for an error.
pub fn parse_u64(s: &str) -> (r: Option<u64>)
    ensures
        r == u64_text_value(s@),
{
    let v = chars_of(s);
    parse_u64_chars(&v)
}

/// `str::parse::<u64>()` on the text held as characters.
pub fn parse_u64_chars(v: &Vec<char>) -> (r: Option<u64>)
    ensures
        r == u64_text_value(v@),
{
    let ghost s = v@;
    let start: usize = if v.len() > 0 && v[0] == '+' {
        1
    } else {
        0
    };
    let ghost d = unsigned_digits(s);
    assert(d =~= v@.skip(start as int));
    if start >= v.len() {
        return None;
    }
    let mut i: usize = start;
    let mut value: u64 = 0;
    while i < v.len()
        invariant
            v@ == s,
            start <= i <= v.len(),
            d == unsigned_digits(s),
            d =~= v@.skip(start as int),
            forall|k: int| 0 <= k < i - start ==> is_digit(#[trigger] d[k]),
            value == digits_value(d.take(i - start)),
        decreases v.len() - i,
    {
        let c = v[i];
        if !('0' <= c && c <= '9') {
            assert(!is_digit(d[i - start]));
            assert(!all_digits(d));
            assert(u64_text_value(s) is None);
            return None;
        }
        let digit = (c as u8 - 48) as u64;
        assert(d.take(i + 1 - start).drop_last() =~= d.take(i - start));
        assert(d.take(i + 1 - start).last() == c);
        if value > (u64::MAX - digit) / 10 {
            proof {
                assert(forall|k: int| 0 <= k < i + 1 - start ==> is_digit(#[trigger] d.take(i + 1 - start)[k]));
                assert(digits_value(d.take(i + 1 - start)) == value * 10 + digit);
                assert(value * 10 + digit > u64::MAX) by (nonlinear_arith)
                    requires
                        value > (u64::MAX - digit) / 10,
                        digit <= 9,
                ;
                if all_digits(d) {
                    digits_value_grows(d, i + 1 - start);
                    assert(digits_value(d) > u64::MAX);
                }
                assert(u64_text_value(s) is None);
            }
            return None;
        }
        assert(value * 10 + digit <= u64::MAX) by (nonlinear_arith)
            requires
                value <= (u64::MAX - digit) / 10,
                digit <= 9,
        ;
        value = value * 10 + digit;
        i += 1;
    }
    assert(d.take(v.len() - start) =~= d);
    Some(value)
}

/// The position of the first `c` in `s`, if any.
pub open spec fn first_index(s: Seq<char>, c: char) -> Option<int>
    decreases s.len(),
{
    if s.len() == 0 {
        None
    } else if s[0] == c {
        Some(0)
    } else {
        match first_index(s.drop_first(), c) {
            Some(k) => Some(k + 1),
            None => None,
        }
    }
}

proof fn first_index_at(s: Seq<char>, c: char, k: int)
    requires
        0 <= k < s.len(),
        s[k] == c,
        forall|j: int| 0 <= j < k ==> s[j] != c,
    ensures
        first_index(s, c) == Some(k),
    decreases s.len(),
{
    if k > 0 {
        first_index_at(s.drop_first(), c, k - 1);
    }
}

proof fn first_index_absent(s: Seq<char>, c: char)
    requires
        forall|j: int| 0 <= j < s.len() ==> s[j] != c,
    ensures
        first_index(s, c) is None,
    decreases s.len(),
{
    if s.len() > 0 {
        first_index_absent(s.drop_first(), c);
    }
}

/// The position of the first `c` in `v` (`str::find` with a `char`).
pub fn find_char(v: &Vec<char>, c: char) -> (r: Option<usize>)
    ensures
        match r {
            Some(k) => first_index(v@, c) == Some(k as int) && k < v.len() && v@[k as int] == c,
            None => first_index(v@, c) is None,
        },
{
    let mut i: usize = 0;
    while i < v.len()
        invariant
            i <= v.len(),
            forall|j: int| 0 <= j < i ==> v@[j] != c,
        decreases v.len() - i,
    {
        if v[i] == c {
            proof {
                first_index_at(v@, c, i as int);
            }
            return Some(i);
        }
        i += 1;
    }
    proof {
        first_index_absent(v@, c);
    }
    None
}

/// The characters of `v` from `start` up to `end`.
pub fn slice_chars(v: &Vec<char>, start: usize, end: usize) -> (r: Vec<char>)
    requires
        start <= end <= v.len(),
    ensures
        r@ == v@.subrange(start as int, end as int),
{
    let mut r: Vec<char> = Vec::new();
    let mut i: usize = start;
    while i < end
        invariant
            start <= i <= end <= v.len(),
            r@ == v@.subrange(start as int, i as int),
        decreases end - i,
    {
        r.push(v[i]);
        assert(v@.subrange(start as int, i + 1) =~= v@.subrange(start as int, i as int).push(v@[i as int]));
        i += 1;
    }
    r
}

/// Whether `v` starts with the characters of `prefix`.
pub fn has_prefix(v: &Vec<char>, prefix: &str) -> (r: bool)
    ensures
        r == starts_with(v@, prefix@),
{
    let p = chars_of(prefix);
    if p.len() > v.len() {
        return false;
    }
    let mut i: usize = 0;
    while i < p.len()
        invariant
            p@ == prefix@,
            p.len() <= v.len(),
            i <= p.len(),
            forall|j: int| 0 <= j < i ==> v@[j] == p@[j],
        decreases p.len() - i,
    {
        if v[i] != p[i] {
            assert(v@.subrange(0, p@.len() as int)[i as int] != p@[i as int]);
            return false;
        }
        i += 1;
    }
    assert(v@.subrange(0, p@.len() as int) =~= p@);
    true
}

/// What a trim removes: white space, or one given character.
#[derive(Debug, Clone, Copy)]
pub enum Trim {
    Spaces,
    Char(char),
}

/// Whether a trim of kind `t` removes `c`.
pub open spec fn trims(t: Trim, c: char) -> bool {
    match t {
        Trim::Spaces => is_space_char(c),
        Trim::Char(x) => c == x,
    }
}

fn trims_exec(t: Trim, c: char) -> (r: bool)
    ensures
        r == trims(t, c),
{
    match t {
        Trim::Spaces => is_space(c),
        Trim::Char(x) => c == x,
    }
}

/// `s` without the leading characters a trim of kind `t` removes.
pub open spec fn trim_start(s: Seq<char>, t: Trim) -> Seq<char>
    decreases s.len(),
{
    if s.len() > 0 && trims(t, s[0]) {
        trim_start(s.drop_first(), t)
    } else {
        s
    }
}

/// `s` without the trailing characters a trim of kind `t` removes.
pub open spec fn trim_end(s: Seq<char>, t: Trim) -> Seq<char>
    decreases s.len(),
{
    if s.len() > 0 && trims(t, s.last()) {
        trim_end(s.drop_last(), t)
    } else {
        s
    }
}

/// `s` trimmed at both ends (`str::trim`, `str::trim_matches`).
pub open spec fn trim_both(s: Seq<char>, t: Trim) -> Seq<char> {
    trim_end(trim_start(s, t), t)
}

proof fn trim_start_skip(s: Seq<char>, t: Trim, i: int)
    requires
        0 <= i <= s.len(),
        forall|j: int| 0 <= j < i ==> trims(t, #[trigger] s[j]),
    ensures
        trim_start(s, t) == trim_start(s.skip(i), t),
    decreases i,
{
    if i == 0 {
        assert(s.skip(0) =~= s);
    } else {
        assert(trims(t, s[0]));
        assert forall|j: int| 0 <= j < i - 1 implies trims(t, #[trigger] s.drop_first()[j]) by {
            assert(s.drop_first()[j] == s[j + 1]);
        }
        trim_start_skip(s.drop_first(), t, i - 1);
        assert(s.drop_first().skip(i - 1) =~= s.skip(i));
    }
}

proof fn trim_end_take(s: Seq<char>, t: Trim, i: int)
    requires
        0 <= i <= s.len(),
        forall|j: int| i <= j < s.len() ==> trims(t, #[trigger] s[j]),
    ensures
        trim_end(s, t) == trim_end(s.take(i), t),
    decreases s.len() - i,
{
    if i == s.len() {
        assert(s.take(i) =~= s);
    } else {
        assert(trims(t, s.last()));
        assert forall|j: int| i <= j < s.len() - 1 implies trims(t, #[trigger] s.drop_last()[j]) by {
            assert(s.drop_last()[j] == s[j]);
        }
        trim_end_take(s.drop_last(), t, i);
        assert(s.drop_last().take(i) =~= s.take(i));
    }
}

/// The characters of `v` trimmed at both ends by a trim of kind `t`.
pub fn trim_chars(v: &Vec<char>, t: Trim) -> (r: Vec<char>)
    ensures
        r@ == trim_both(v@, t),
{
    let mut a: usize = 0;
    while a < v.len() && trims_exec(t, v[a])
        invariant
            a <= v.len(),
            forall|j: int| 0 <= j < a ==> trims(t, #[trigger] v@[j]),
        decreases v.len() - a,
    {
        a += 1;
    }
    proof {
        trim_start_skip(v@, t, a as int);
    }
    let ghost rest = v@.skip(a as int);
    assert(trim_start(rest, t) == rest);
    let mut b: usize = v.len();
    while b > a && trims_exec(t, v[b - 1])
        invariant
            a <= b <= v.len(),
            forall|j: int| b <= j < v.len() ==> trims(t, #[trigger] v@[j]),
        decreases b,
    {
        b -= 1;
    }
    let r = slice_chars(v, a, b);
    proof {
        assert forall|j: int| b - a <= j < rest.len() implies trims(t, #[trigger] rest[j]) by {
            assert(rest[j] == v@[a + j]);
        }
        trim_end_take(rest, t, b - a);
        assert(rest.take(b - a) =~= r@);
        if r@.len() > 0 {
            assert(r@.last() == v@[b - 1]);
        }
        assert(trim_end(r@, t) == r@);
    }
    r
}

/// The text after the last `c` in `s`, or all of `s` where there is none
/// (the first item of `str::rsplit`).
pub open spec fn after_last(s: Seq<char>, c: char) -> Seq<char>
    decreases s.len(),
{
    if s.len() == 0 {
        s
    } else if s.last() == c {
        Seq::empty()
    } else {
        after_last(s.drop_last(), c).push(s.last())
    }
}

proof fn after_last_from(s: Seq<char>, c: char, i: int)
    requires
        0 <= i <= s.len(),
        i == 0 || s[i - 1] == c,
        forall|j: int| i <= j < s.len() ==> s[j] != c,
    ensures
        after_last(s, c) == s.skip(i),
    decreases s.len(),
{
    if s.len() == i {
        if i > 0 {
            assert(s.skip(i) =~= Seq::<char>::empty());
        } else {
            assert(s.skip(0) =~= s);
        }
    } else {
        after_last_from(s.drop_last(), c, i);
        assert(s.drop_last().skip(i).push(s.last()) =~= s.skip(i));
    }
}

/// The characters after the last `c` in `v`.
pub fn after_last_char(v: &Vec<char>, c: char) -> (r: Vec<char>)
    ensures
        r@ == after_last(v@, c),
{
    let mut i: usize = v.len();
    while i > 0 && v[i - 1] != c
        invariant
            i <= v.len(),
            forall|j: int| i <= j < v.len() ==> v@[j] != c,
        decreases i,
    {
        i -= 1;
    }
    proof {
        after_last_from(v@, c, i as int);
    }
    slice_chars(v, i, v.len())
}

/// The characters of `v` without the trailing ones a trim of kind `t`
/// removes (`str::trim_end_matches`).
pub fn trim_end_chars(v: &Vec<char>, t: Trim) -> (r: Vec<char>)
    ensures
        r@ == trim_end(v@, t),
{
    let mut b: usize = v.len();
    while b > 0 && trims_exec(t, v[b - 1])
        invariant
            b <= v.len(),
            forall|j: int| b <= j < v.len() ==> trims(t, #[trigger] v@[j]),
        decreases b,
    {
        b -= 1;
    }
    proof {
        trim_end_take(v@, t, b as int);
    }
    let r = slice_chars(v, 0, b);
    proof {
        assert(v@.take(b as int) =~= r@);
        if r@.len() > 0 {
            assert(r@.last() == v@[b - 1]);
        }
    }
    r
}

} // verus!
