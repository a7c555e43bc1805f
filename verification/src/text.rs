//! Text: comparison, numbers in positional notation, trimming, searching.
//!
//! A text is modelled by the sequence of its characters.
use vstd::prelude::*;
use vstd::utf8::{encode_utf8, encode_utf8_decode_utf8};

verus! {

/// `String::push` of the standard library: the character is appended at the end.
pub assume_specification[ String::push ](text: &mut String, ch: char)
    ensures
        final(text)@ == old(text)@.push(ch),
;

/// Whether two texts hold the same characters.
pub fn same(a: &str, b: &str) -> (r: bool)
    ensures
        r == (a@ == b@),
{
    let x = a.as_bytes();
    let y = b.as_bytes();
    proof {
        encode_utf8_decode_utf8(a@);
        encode_utf8_decode_utf8(b@);
    }
    if x.len() != y.len() {
        return false;
    }
    let mut i: usize = 0;
    while i < x.len()
        invariant
            i <= x.len(),
            x.len() == y.len(),
            x@ == encode_utf8(a@),
            y@ == encode_utf8(b@),
            forall|j: int| 0 <= j < i ==> x@[j] == y@[j],
        decreases x.len() - i,
    {
        if x[i] != y[i] {
            return false;
        }
        i += 1;
    }
    assert(x@ =~= y@);
    true
}

/// A copy of a list of bytes.
pub fn copy_bytes(bytes: &[u8]) -> (r: Vec<u8>)
    ensures
        r@ == bytes@,
{
    vstd::slice::slice_to_vec(bytes)
}

/// Whether two byte lists are equal.
pub fn same_bytes(a: &[u8], b: &[u8]) -> (r: bool)
    ensures
        r == (a@ == b@),
{
    if a.len() != b.len() {
        return false;
    }
    let mut i: usize = 0;
    while i < a.len()
        invariant
            i <= a.len(),
            a.len() == b.len(),
            forall|j: int| 0 <= j < i ==> a@[j] == b@[j],
        decreases a.len() - i,
    {
        if a[i] != b[i] {
            return false;
        }
        i += 1;
    }
    assert(a@ =~= b@);
    true
}

/// The characters of a text.
pub fn to_chars(s: &str) -> (r: Vec<char>)
    ensures
        r@ == s@,
{
    let mut out: Vec<char> = Vec::new();
    for c in it: s.chars()
        invariant
            out@ == s@.take(it.index()),
            it.seq() == s@,
    {
        out.push(c);
        assert(out@ =~= s@.take(it.index() + 1));
    }
    assert(s@.take(s@.len() as int) =~= s@);
    out
}

/// The text that holds the characters from `from` up to, not including, `to`.
pub fn slice_text(chars: &[char], from: usize, to: usize) -> (r: String)
    requires
        from <= to <= chars@.len(),
    ensures
        r@ == chars@.subrange(from as int, to as int),
{
    let mut out = String::new();
    let mut i: usize = from;
    while i < to
        invariant
            from <= i <= to <= chars@.len(),
            out@ == chars@.subrange(from as int, i as int),
        decreases to - i,
    {
        out.push(chars[i]);
        assert(out@ =~= chars@.subrange(from as int, i + 1));
        i += 1;
    }
    out
}

/// Two texts in a row.
pub fn join2(a: &str, b: &str) -> (r: String)
    ensures
        r@ == a@ + b@,
{
    let mut out = a.to_owned();
    out.append(b);
    out
}

/// Three texts in a row.
pub fn join3(a: &str, b: &str, c: &str) -> (r: String)
    ensures
        r@ == a@ + b@ + c@,
{
    let mut out = a.to_owned();
    out.append(b);
    out.append(c);
    out
}

/// The digit that stands for `n`, in lower case.
pub open spec fn digit_char(n: nat) -> char {
    if n < 10 {
        (48 + n) as char
    } else {
        (87 + n) as char
    }
}

/// A number in positional notation, without leading zeros.
pub open spec fn digits(n: nat, base: nat) -> Seq<char>
    decreases n,
{
    if base < 2 || n < base {
        seq![digit_char(n)]
    } else {
        proof {
            vstd::arithmetic::div_mod::lemma_div_decreases(n as int, base as int);
        }
        digits(n / base, base).push(digit_char(n % base))
    }
}

/// A number in base ten.
pub open spec fn decimal(n: nat) -> Seq<char> {
    digits(n, 10)
}

/// A number in base sixteen, in lower case.
pub open spec fn hex(n: nat) -> Seq<char> {
    digits(n, 16)
}

/// A number in base sixteen with zeros in front up to the given width.
pub open spec fn hex_padded(n: nat, width: nat) -> Seq<char> {
    if hex(n).len() >= width {
        hex(n)
    } else {
        Seq::new((width - hex(n).len()) as nat, |i: int| '0') + hex(n)
    }
}

fn digit_of(n: u64) -> (c: char)
    requires
        n < 16,
    ensures
        c == digit_char(n as nat),
{
    if n < 10 {
        (48u8 + n as u8) as char
    } else {
        (87u8 + n as u8) as char
    }
}

fn push_digits(n: u64, base: u64, out: &mut String)
    requires
        2 <= base <= 16,
    ensures
        final(out)@ == old(out)@ + digits(n as nat, base as nat),
    decreases n,
{
    if n >= base {
        proof {
            vstd::arithmetic::div_mod::lemma_div_decreases(n as int, base as int);
        }
        push_digits(n / base, base, out);
    } else {
        proof {
            vstd::arithmetic::div_mod::lemma_small_mod(n as nat, base as nat);
        }
    }
    out.push(digit_of(n % base));
    assert(out@ =~= old(out)@ + digits(n as nat, base as nat));
}

/// Writes a number in base ten.
pub fn decimal_text(n: u64) -> (r: String)
    ensures
        r@ == decimal(n as nat),
{
    let mut out = String::new();
    push_digits(n, 10, &mut out);
    assert(out@ =~= decimal(n as nat));
    out
}

/// Writes a number in base sixteen.
pub fn hex_text(n: u64) -> (r: String)
    ensures
        r@ == hex(n as nat),
{
    let mut out = String::new();
    push_digits(n, 16, &mut out);
    assert(out@ =~= hex(n as nat));
    out
}

/// Writes a number in base sixteen with zeros in front up to the given width.
pub fn hex_padded_text(n: u64, width: usize) -> (r: String)
    ensures
        r@ == hex_padded(n as nat, width as nat),
{
    let body = hex_text(n);
    let len: usize = body.as_str().unicode_len();
    let mut out = String::new();
    let mut i: usize = len;
    while i < width
        invariant
            len == body@.len(),
            len <= i,
            i <= width || i == len,
            out@ == Seq::new((i - len) as nat, |j: int| '0'),
        decreases width - i,
    {
        out.push('0');
        i += 1;
        assert(out@ =~= Seq::new((i - len) as nat, |j: int| '0'));
    }
    out.append(body.as_str());
    assert(out@ =~= hex_padded(n as nat, width as nat));
    out
}

/// The Unicode property `White_Space`.
pub open spec fn white_space(c: char) -> bool {
    let n = c as int;
    ||| 0x09 <= n <= 0x0d
    ||| n == 0x20
    ||| n == 0x85
    ||| n == 0xa0
    ||| n == 0x1680
    ||| 0x2000 <= n <= 0x200a
    ||| n == 0x2028
    ||| n == 0x2029
    ||| n == 0x202f
    ||| n == 0x205f
    ||| n == 0x3000
}

/// Whether a character is white space.
pub fn is_white_space(c: char) -> (r: bool)
    ensures
        r == white_space(c),
{
    let n: u32 = c as u32;
    (0x09 <= n && n <= 0x0d) || n == 0x20 || n == 0x85 || n == 0xa0 || n == 0x1680 || (0x2000 <= n
        && n <= 0x200a) || n == 0x2028 || n == 0x2029 || n == 0x202f || n == 0x205f || n == 0x3000
}

/// The text without white space at its start.
pub open spec fn trimmed_start(s: Seq<char>) -> Seq<char>
    decreases s.len(),
{
    if s.len() > 0 && white_space(s[0]) {
        trimmed_start(s.drop_first())
    } else {
        s
    }
}

/// The text without white space at its end.
pub open spec fn trimmed_end(s: Seq<char>) -> Seq<char>
    decreases s.len(),
{
    if s.len() > 0 && white_space(s.last()) {
        trimmed_end(s.drop_last())
    } else {
        s
    }
}

/// The text without white space at either end.
pub open spec fn trimmed(s: Seq<char>) -> Seq<char> {
    trimmed_end(trimmed_start(s))
}

/// Removes white space at either end.
pub fn trim(s: &str) -> (r: String)
    ensures
        r@ == trimmed(s@),
{
    let chars = to_chars(s);
    let len: usize = chars.len();
    let mut from: usize = 0;
    assert(chars@.subrange(0, len as int) =~= chars@);
    while from < len && is_white_space(chars[from])
        invariant
            from <= len == chars@.len(),
            trimmed_start(chars@.subrange(from as int, len as int)) == trimmed_start(chars@),
        decreases len - from,
    {
        assert(chars@.subrange(from as int, len as int).drop_first() =~= chars@.subrange(
            from + 1,
            len as int,
        ));
        from += 1;
    }
    let mut to: usize = len;
    let ghost body = chars@.subrange(from as int, len as int);
    assert(trimmed_start(chars@) == body);
    while to > from && is_white_space(chars[to - 1])
        invariant
            from <= to <= len == chars@.len(),
            trimmed_end(chars@.subrange(from as int, to as int)) == trimmed_end(body),
        decreases to - from,
    {
        assert(chars@.subrange(from as int, to as int).drop_last() =~= chars@.subrange(
            from as int,
            to - 1,
        ));
        to -= 1;
    }
    slice_text(&chars, from, to)
}

/// Whether `needle` stands in `s` at position `i`.
pub open spec fn occurs_at<A>(s: Seq<A>, needle: Seq<A>, i: int) -> bool {
    0 <= i && i + needle.len() <= s.len() && s.subrange(i, i + needle.len()) == needle
}

/// Whether `needle` stands somewhere in `s`.
pub open spec fn occurs<A>(s: Seq<A>, needle: Seq<A>) -> bool {
    exists|i: int| occurs_at(s, needle, i)
}

/// Whether `s` begins with `prefix`.
pub open spec fn begins(s: Seq<char>, prefix: Seq<char>) -> bool {
    occurs_at(s, prefix, 0)
}

/// Whether `s` ends with `suffix`.
pub open spec fn ends(s: Seq<char>, suffix: Seq<char>) -> bool {
    occurs_at(s, suffix, s.len() - suffix.len())
}

fn chars_at(s: &[char], needle: &[char], i: usize) -> (r: bool)
    requires
        i + needle@.len() <= s@.len(),
    ensures
        r == occurs_at(s@, needle@, i as int),
{
    let len: usize = s.len();
    let mut j: usize = 0;
    while j < needle.len()
        invariant
            j <= needle@.len(),
            i + needle@.len() <= s@.len() == len,
            forall|k: int| 0 <= k < j ==> s@[i + k] == needle@[k],
        decreases needle.len() - j,
    {
        if s[i + j] != needle[j] {
            assert(s@.subrange(i as int, i + needle@.len())[j as int] != needle@[j as int]);
            return false;
        }
        j += 1;
    }
    assert(s@.subrange(i as int, i + needle@.len()) =~= needle@);
    true
}

/// The first place at or after `from` where `needle` stands.
pub open spec fn first_place<A>(s: Seq<A>, needle: Seq<A>, from: int) -> Option<int>
    decreases s.len() + 1 - from,
{
    if from < 0 || from + needle.len() > s.len() {
        None
    } else if occurs_at(s, needle, from) {
        Some(from)
    } else {
        first_place(s, needle, from + 1)
    }
}

/// The first place is one where the needle stands, and there is none before it.
pub proof fn lemma_first_place<A>(s: Seq<A>, needle: Seq<A>, from: int)
    requires
        0 <= from,
    ensures
        match first_place(s, needle, from) {
            Some(i) => from <= i && occurs_at(s, needle, i) && forall|j: int|
                from <= j < i ==> !occurs_at(s, needle, j),
            None => forall|j: int| from <= j ==> !occurs_at(s, needle, j),
        },
    decreases s.len() + 1 - from,
{
    if from + needle.len() <= s.len() && !occurs_at(s, needle, from) {
        lemma_first_place(s, needle, from + 1);
    }
}

/// The first place is the given one where the needle stands there and not before.
pub proof fn lemma_first_place_is<A>(s: Seq<A>, needle: Seq<A>, from: int, i: int)
    requires
        0 <= from <= i,
        occurs_at(s, needle, i),
        forall|j: int| from <= j < i ==> !occurs_at(s, needle, j),
    ensures
        first_place(s, needle, from) == Some(i),
    decreases i - from,
{
    if from < i {
        lemma_first_place_is(s, needle, from + 1, i);
    }
}

/// Finds the first place at or after `from` where `needle` stands.
pub fn find_from(s: &[char], needle: &[char], from: usize) -> (r: Option<usize>)
    requires
        from <= s@.len(),
    ensures
        match r {
            Some(i) => first_place(s@, needle@, from as int) == Some(i as int) && i
                + needle@.len() <= s@.len(),
            None => first_place(s@, needle@, from as int) is None,
        },
{
    let mut i: usize = from;
    while needle.len() <= s.len() - i
        invariant
            from <= i <= s@.len(),
            first_place(s@, needle@, from as int) == first_place(s@, needle@, i as int),
        decreases s@.len() - i,
    {
        if chars_at(s, needle, i) {
            return Some(i);
        }
        if i == s.len() {
            assert(first_place(s@, needle@, i + 1) is None);
            return None;
        }
        i += 1;
    }
    None
}

/// Whether `needle` stands somewhere in `s`.
pub fn contains(s: &str, needle: &str) -> (r: bool)
    ensures
        r == occurs(s@, needle@),
{
    let hay = to_chars(s);
    let pin = to_chars(needle);
    proof {
        lemma_first_place(s@, needle@, 0);
    }
    match find_from(&hay, &pin, 0) {
        Some(i) => {
            assert(occurs_at(s@, needle@, i as int));
            true
        },
        None => false,
    }
}

/// Whether `s` begins with `prefix`.
pub fn starts_with(s: &[char], prefix: &[char]) -> (r: bool)
    ensures
        r == begins(s@, prefix@),
{
    prefix.len() <= s.len() && chars_at(s, prefix, 0)
}

/// Whether `s` ends with `suffix`.
pub fn ends_with(s: &[char], suffix: &[char]) -> (r: bool)
    ensures
        r == ends(s@, suffix@),
{
    suffix.len() <= s.len() && chars_at(s, suffix, s.len() - suffix.len())
}

/// A character in lower case, where it is an ASCII letter.
pub open spec fn lower_char(c: char) -> char {
    if 'A' <= c <= 'Z' {
        (c as u8 + 32) as char
    } else {
        c
    }
}

/// The text with its ASCII letters in lower case.
pub open spec fn lower(s: Seq<char>) -> Seq<char> {
    s.map_values(|c: char| lower_char(c))
}

/// Appends characters with ASCII letters in lower case.
pub fn push_lower(chars: &[char], from: usize, to: usize, out: &mut String)
    requires
        from <= to <= chars@.len(),
    ensures
        final(out)@ == old(out)@ + lower(chars@.subrange(from as int, to as int)),
{
    let mut i: usize = from;
    while i < to
        invariant
            from <= i <= to <= chars@.len(),
            out@ == old(out)@ + lower(chars@.subrange(from as int, i as int)),
        decreases to - i,
    {
        let c: char = chars[i];
        let small: char = if 'A' <= c && c <= 'Z' {
            (c as u8 + 32) as char
        } else {
            c
        };
        out.push(small);
        assert(chars@.subrange(from as int, i + 1) =~= chars@.subrange(from as int, i as int).push(
            c,
        ));
        assert(out@ =~= old(out)@ + lower(chars@.subrange(from as int, i + 1)));
        i += 1;
    }
}

/// Appends characters.
pub fn push_slice(chars: &[char], from: usize, to: usize, out: &mut String)
    requires
        from <= to <= chars@.len(),
    ensures
        final(out)@ == old(out)@ + chars@.subrange(from as int, to as int),
{
    let part = slice_text(chars, from, to);
    out.append(part.as_str());
}

/// Whether `needle` stands somewhere in a list of bytes.
pub fn bytes_contain(s: &[u8], needle: &[u8]) -> (r: bool)
    ensures
        r == occurs(s@, needle@),
{
    let mut i: usize = 0;
    while needle.len() <= s.len() - i
        invariant
            i <= s@.len(),
            forall|j: int| 0 <= j < i ==> !occurs_at(s@, needle@, j),
        decreases s@.len() - i,
    {
        let part = vstd::slice::slice_subrange(s, i, i + needle.len());
        if same_bytes(part, needle) {
            assert(occurs_at(s@, needle@, i as int));
            return true;
        }
        if i == s.len() {
            return false;
        }
        i += 1;
    }
    false
}

/// Whether every character is a decimal digit.
pub open spec fn all_digits(s: Seq<char>) -> bool {
    forall|i: int| 0 <= i < s.len() ==> '0' <= #[trigger] s[i] <= '9'
}

/// The number that decimal digits write.
pub open spec fn digits_value(s: Seq<char>) -> nat
    decreases s.len(),
{
    if s.len() == 0 {
        0
    } else {
        digits_value(s.drop_last()) * 10 + (s.last() as nat - '0' as nat) as nat
    }
}

/// The digits of a number that may have a plus sign in front.
pub open spec fn unsigned_part(s: Seq<char>) -> Seq<char> {
    if s.len() > 0 && s[0] == '+' {
        s.drop_first()
    } else {
        s
    }
}

/// The number that decimal digits alone write, where it fits.
pub open spec fn parsed_digits(part: Seq<char>) -> Option<u64> {
    if part.len() > 0 && all_digits(part) && digits_value(part) <= u64::MAX {
        Some(digits_value(part) as u64)
    } else {
        None
    }
}

/// The number that a text writes in base ten, where it fits.
pub open spec fn parsed_u64(s: Seq<char>) -> Option<u64> {
    parsed_digits(unsigned_part(s))
}

/// The signed number that a text writes in base ten, where it fits.
pub open spec fn parsed_i32(s: Seq<char>) -> Option<i32> {
    if s.len() > 0 && s[0] == '-' {
        match parsed_digits(s.drop_first()) {
            Some(n) => if n <= 0x8000_0000 {
                Some((0 - n) as i32)
            } else {
                None
            },
            None => None,
        }
    } else {
        match parsed_u64(s) {
            Some(n) => if n <= i32::MAX {
                Some(n as i32)
            } else {
                None
            },
            None => None,
        }
    }
}

fn parse_digits(chars: &[char], from: usize) -> (r: Option<u64>)
    requires
        from <= chars@.len(),
    ensures
        r == parsed_digits(chars@.skip(from as int)),
{
    let ghost part = chars@.skip(from as int);
    if from == chars.len() {
        return None;
    }
    let mut value: u64 = 0;
    let mut i: usize = from;
    assert(part.take(0) =~= Seq::<char>::empty());
    while i < chars.len()
        invariant
            from <= i <= chars@.len(),
            part == chars@.skip(from as int),
            value == digits_value(part.take(i - from)),
            all_digits(part.take(i - from)),
        decreases chars@.len() - i,
    {
        let c: char = chars[i];
        proof {
            let now = part.take(i - from + 1);
            assert(now.drop_last() =~= part.take(i - from));
            assert(now.last() == c);
            assert(part[i - from] == c);
        }
        if c < '0' || c > '9' {
            assert(!all_digits(part));
            return None;
        }
        let digit: u64 = (c as u32 - '0' as u32) as u64;
        if value > (u64::MAX - digit) / 10 {
            proof {
                let now = part.take(i - from + 1);
                assert(digits_value(now) == value * 10 + digit);
                assert(value * 10 + digit > u64::MAX);
                lemma_value_grows(part, i - from + 1);
            }
            return None;
        }
        value = value * 10 + digit;
        assert forall|j: int| 0 <= j < i - from + 1 implies '0' <= #[trigger] part.take(
            i - from + 1,
        )[j] <= '9' by {
            if j < i - from {
                assert(part.take(i - from)[j] == part.take(i - from + 1)[j]);
            }
        }
        i += 1;
    }
    assert(part.take(i - from) =~= part);
    Some(value)
}

/// Reads a number in base ten.
pub fn parse_u64(s: &str) -> (r: Option<u64>)
    ensures
        r == parsed_u64(s@),
{
    let chars = to_chars(s);
    if chars.len() > 0 && chars[0] == '+' {
        assert(chars@.skip(1) =~= unsigned_part(s@));
        parse_digits(&chars, 1)
    } else {
        assert(chars@.skip(0) =~= unsigned_part(s@));
        parse_digits(&chars, 0)
    }
}

/// Reads a signed number in base ten.
pub fn parse_i32(s: &str) -> (r: Option<i32>)
    ensures
        r == parsed_i32(s@),
{
    let chars = to_chars(s);
    if chars.len() > 0 && chars[0] == '-' {
        assert(chars@.skip(1) =~= s@.drop_first());
        match parse_digits(&chars, 1) {
            Some(n) => {
                if n <= 0x8000_0000 {
                    let wide: i64 = 0 - n as i64;
                    Some(wide as i32)
                } else {
                    None
                }
            },
            None => None,
        }
    } else {
        match parse_u64(s) {
            Some(n) => {
                if n <= i32::MAX as u64 {
                    Some(n as i32)
                } else {
                    None
                }
            },
            None => None,
        }
    }
}

/// The text with spaces behind it up to the given width.
pub open spec fn padded(s: Seq<char>, width: nat) -> Seq<char> {
    if s.len() >= width {
        s
    } else {
        s + Seq::new((width - s.len()) as nat, |i: int| ' ')
    }
}

/// Appends a text with spaces behind it up to the given width.
pub fn push_padded(s: &str, width: usize, out: &mut String)
    ensures
        final(out)@ == old(out)@ + padded(s@, width as nat),
{
    let len: usize = s.unicode_len();
    out.append(s);
    let ghost start = out@;
    let mut i: usize = len;
    assert(start + Seq::new(0, |j: int| ' ') =~= start);
    while i < width
        invariant
            len == s@.len(),
            len <= i,
            i <= width || i == len,
            out@ == start + Seq::new((i - len) as nat, |j: int| ' '),
        decreases width - i,
    {
        out.push(' ');
        i += 1;
        assert(out@ =~= start + Seq::new((i - len) as nat, |j: int| ' '));
    }
    assert(out@ =~= old(out)@ + padded(s@, width as nat));
}

proof fn lemma_value_grows(s: Seq<char>, k: int)
    requires
        0 <= k <= s.len(),
    ensures
        all_digits(s) ==> digits_value(s.take(k)) <= digits_value(s),
    decreases s.len(),
{
    if all_digits(s) {
        if k == s.len() {
            assert(s.take(k) =~= s);
        } else {
            let t = s.drop_last();
            assert forall|i: int| 0 <= i < t.len() implies '0' <= #[trigger] t[i] <= '9' by {
                assert(t[i] == s[i]);
            }
            lemma_value_grows(t, k);
            assert(t.take(k) =~= s.take(k));
            assert('0' <= s[s.len() - 1]);
        }
    }
}

/// The bytes of two texts in a row are the bytes of the one and of the other.
pub proof fn lemma_encode_concat(a: Seq<char>, b: Seq<char>)
    ensures
        encode_utf8(a + b) == encode_utf8(a) + encode_utf8(b),
    decreases a.len(),
{
    if a.len() == 0 {
        assert(a + b =~= b);
        assert(encode_utf8(a) + encode_utf8(b) =~= encode_utf8(b));
    } else {
        lemma_encode_concat(a.drop_first(), b);
        assert((a + b).drop_first() =~= a.drop_first() + b);
        assert((a + b)[0] == a[0]);
        assert(encode_utf8(a + b) =~= encode_utf8(a) + encode_utf8(b));
    }
}

/// Two texts with the same bytes are equal.
pub proof fn lemma_encode_injective(a: Seq<char>, b: Seq<char>)
    requires
        encode_utf8(a) == encode_utf8(b),
    ensures
        a == b,
{
    encode_utf8_decode_utf8(a);
    encode_utf8_decode_utf8(b);
}

/// A text is split in one way only at the first of some separator.
pub proof fn lemma_split_at_first<A>(a: Seq<A>, b: Seq<A>, sep: A, x: Seq<A>, y: Seq<A>)
    requires
        a.push(sep) + x == b.push(sep) + y,
        !a.contains(sep),
        !b.contains(sep),
    ensures
        a == b,
        x == y,
{
    let s = a.push(sep) + x;
    let t = b.push(sep) + y;
    assert(s.len() == a.len() + 1 + x.len());
    assert(t.len() == b.len() + 1 + y.len());
    if a.len() < b.len() {
        assert(s[a.len() as int] == sep);
        assert(t[a.len() as int] == b[a.len() as int]);
        assert(b.contains(sep));
    }
    if b.len() < a.len() {
        assert(t[b.len() as int] == sep);
        assert(s[b.len() as int] == a[b.len() as int]);
        assert(a.contains(sep));
    }
    assert(a.len() == b.len());
    assert forall|i: int| 0 <= i < a.len() implies a[i] == b[i] by {
        assert(s[i] == a[i]);
        assert(t[i] == b[i]);
    }
    assert(a =~= b);
    assert forall|i: int| 0 <= i < x.len() implies x[i] == y[i] by {
        assert(s[a.len() + 1 + i] == x[i]);
        assert(t[b.len() + 1 + i] == y[i]);
    }
    assert(x =~= y);
}

/// A text is split in one way only at the last of some separator.
pub proof fn lemma_split_at_last<A>(a: Seq<A>, b: Seq<A>, sep: A, x: Seq<A>, y: Seq<A>)
    requires
        a.push(sep) + x == b.push(sep) + y,
        !x.contains(sep),
        !y.contains(sep),
    ensures
        a == b,
        x == y,
{
    let s = a.push(sep) + x;
    let t = b.push(sep) + y;
    assert(s.len() == a.len() + 1 + x.len());
    assert(t.len() == b.len() + 1 + y.len());
    if a.len() < b.len() {
        assert(t[b.len() as int] == sep);
        assert(s[b.len() as int] == x[b.len() - a.len() - 1]);
        assert(x.contains(sep));
    }
    if b.len() < a.len() {
        assert(s[a.len() as int] == sep);
        assert(t[a.len() as int] == y[a.len() - b.len() - 1]);
        assert(y.contains(sep));
    }
    assert(a.len() == b.len());
    assert forall|i: int| 0 <= i < a.len() implies a[i] == b[i] by {
        assert(s[i] == a[i]);
        assert(t[i] == b[i]);
    }
    assert(a =~= b);
    assert forall|i: int| 0 <= i < x.len() implies x[i] == y[i] by {
        assert(s[a.len() + 1 + i] == x[i]);
        assert(t[b.len() + 1 + i] == y[i]);
    }
    assert(x =~= y);
}

/// A number below a power of sixteen has at most so many digits.
pub proof fn lemma_hex_len(n: nat, k: nat)
    requires
        k > 0,
        n < vstd::arithmetic::power::pow(16, k),
    ensures
        0 < hex(n).len() <= k,
    decreases k,
{
    reveal(vstd::arithmetic::power::pow);
    if n >= 16 {
        if k == 1 {
            assert(vstd::arithmetic::power::pow(16, 1) == 16 * vstd::arithmetic::power::pow(16, 0));
        } else {
            let below = vstd::arithmetic::power::pow(16, (k - 1) as nat);
            assert(n / 16 < below) by (nonlinear_arith)
                requires
                    n < 16 * below,
            ;
            lemma_hex_len(n / 16, (k - 1) as nat);
        }
    }
}

/// Hexadecimal digits are no slashes.
pub proof fn lemma_hex_no_slash(n: nat)
    ensures
        hex(n).len() > 0,
        forall|i: int| 0 <= i < hex(n).len() ==> #[trigger] hex(n)[i] != '/',
        vstd::utf8::is_ascii_chars(hex(n)),
    decreases n,
{
    if n >= 16 {
        lemma_hex_no_slash(n / 16);
    }
}

/// Texts and byte lists are the same exactly where they hold the same, and are put
/// behind each other as they are.
pub proof fn law_texts_are_compared_and_joined(
    a: &str,
    b: &str,
    c: &str,
    equal: bool,
    two: String,
    three: String,
    chars: Vec<char>,
)
    requires
        call_ensures(same, (a, b), equal),
        call_ensures(join2, (a, b), two),
        call_ensures(join3, (a, b, c), three),
        call_ensures(to_chars, (a,), chars),
    ensures
        equal <==> a@ == b@,
        two@ == a@ + b@,
        three@ == two@ + c@,
        chars@ == a@,
{
}

/// Byte lists are equal exactly where they hold the same bytes, and a copy does.
pub proof fn law_bytes_are_compared_and_copied(a: &[u8], b: &[u8], equal: bool, copied: Vec<u8>)
    requires
        call_ensures(same_bytes, (a, b), equal),
        call_ensures(copy_bytes, (a,), copied),
    ensures
        equal <==> a@ == b@,
        copied@ == a@,
{
}

proof fn lemma_decimal_value(n: nat)
    ensures
        all_digits(decimal(n)),
        digits_value(decimal(n)) == n,
        decimal(n).len() > 0,
    decreases n,
{
    reveal_with_fuel(digits_value, 2);
    if n >= 10 {
        lemma_decimal_value(n / 10);
        let init = decimal(n / 10);
        let last = digit_char(n % 10);
        assert(decimal(n) == init.push(last));
        assert(decimal(n).drop_last() =~= init);
        assert(last as nat - '0' as nat == n % 10);
        assert forall|i: int| 0 <= i < decimal(n).len() implies '0' <= #[trigger] decimal(n)[i]
            <= '9' by {
            if i < init.len() {
                assert(decimal(n)[i] == init[i]);
            }
        }
    } else {
        assert(decimal(n) == seq![digit_char(n)]);
        assert(decimal(n).drop_last() =~= Seq::<char>::empty());
        assert(digit_char(n) as nat - '0' as nat == n);
    }
}

/// A number that is written in base ten is read back as it was.
pub proof fn law_numbers_are_read_back(n: u64, text: String, given: &str, r: Option<u64>)
    requires
        call_ensures(decimal_text, (n,), text),
        given@ == text@,
        call_ensures(parse_u64, (given,), r),
    ensures
        r == Some(n),
{
    lemma_decimal_value(n as nat);
    assert('0' <= decimal(n as nat)[0]);
    assert(unsigned_part(given@) == given@);
}

/// Reading a number goes digit by digit: one more digit makes ten times the number
/// and the digit, where that fits; with any other character there is no number,
/// and without digits there is none.
pub proof fn law_numbers_are_read_by_digits(
    text: &str,
    longer: &str,
    c: char,
    r: Option<u64>,
    s: Option<u64>,
)
    requires
        call_ensures(parse_u64, (text,), r),
        call_ensures(parse_u64, (longer,), s),
        longer@ == text@.push(c),
    ensures
        text@.len() == 0 ==> r is None,
        r is Some && '0' <= c <= '9' && r->0 * 10 + (c as nat - '0' as nat) <= u64::MAX ==> s
            == Some((r->0 * 10 + (c as nat - '0' as nat)) as u64),
        r is Some && '0' <= c <= '9' && r->0 * 10 + (c as nat - '0' as nat) > u64::MAX ==> s is None,
        text@.len() > 0 && !('0' <= c <= '9') ==> s is None,
        text@.len() == 0 && '0' <= c <= '9' ==> s == Some((c as nat - '0' as nat) as u64),
{
    let part = unsigned_part(text@);
    let more = unsigned_part(longer@);
    if text@.len() > 0 {
        assert(more =~= part.push(c));
        assert(more.drop_last() =~= part);
        if r is Some && '0' <= c <= '9' {
            assert forall|i: int| 0 <= i < more.len() implies '0' <= #[trigger] more[i] <= '9' by {
                if i < part.len() {
                    assert(more[i] == part[i]);
                }
            }
        }
        if !('0' <= c <= '9') {
            assert(more[more.len() - 1] == c);
        }
    } else if '0' <= c <= '9' {
        assert(more =~= seq![c]);
        assert(more.drop_last() =~= Seq::<char>::empty());
        assert(digits_value(more.drop_last()) == 0);
    }
}

/// A signed number is the number behind its sign, where it fits.
pub proof fn law_signed_numbers_are_read(
    text: &str,
    negative: &str,
    n: Option<u64>,
    r: Option<i32>,
    m: Option<i32>,
)
    requires
        call_ensures(parse_u64, (text,), n),
        call_ensures(parse_i32, (text,), r),
        call_ensures(parse_i32, (negative,), m),
        negative@ == seq!['-'] + text@,
        text@.len() > 0,
        text@[0] != '+',
        text@[0] != '-',
    ensures
        n is Some && n->0 <= 0x7fff_ffff ==> r == Some(n->0 as i32),
        n is Some && n->0 > 0x7fff_ffff ==> r is None,
        n is None ==> r is None && m is None,
        n is Some && n->0 <= 0x8000_0000 ==> m is Some && m->0 == 0 - n->0,
        n is Some && n->0 > 0x8000_0000 ==> m is None,
{
    assert(negative@.drop_first() =~= text@);
    assert(unsigned_part(text@) == text@);
}

/// A number in base sixteen is that of its sixteenth part, where it has one, and
/// the digit for the rest, in lower case.
pub proof fn law_hex_goes_by_digits(n: u64, text: String, part: String)
    requires
        call_ensures(hex_text, (n,), text),
        call_ensures(hex_text, ((n / 16) as u64,), part),
    ensures
        n >= 16 ==> text@.drop_last() == part@,
        text@.len() > 0,
        n < 16 ==> text@.len() == 1,
        n % 16 < 10 ==> text@.last() as int == '0' as int + n % 16,
        n % 16 >= 10 ==> text@.last() as int == 'a' as int + (n % 16 - 10),
{
    let m = n as nat;
    assert(hex(m).last() == digit_char(m % 16));
    if n >= 16 {
        assert(hex(m).drop_last() =~= hex(m / 16));
    }
}

/// A number in base sixteen gets zeros in front up to the width, and no more.
pub proof fn law_hex_is_padded_with_zeros(n: u64, width: usize, text: String, filled: String)
    requires
        call_ensures(hex_text, (n,), text),
        call_ensures(hex_padded_text, (n, width), filled),
    ensures
        filled@.len() == if text@.len() >= width {
            text@.len()
        } else {
            width as nat
        },
        filled@.skip(filled@.len() - text@.len()) == text@,
        forall|i: int| 0 <= i < filled@.len() - text@.len() ==> #[trigger] filled@[i] == '0',
{
    assert(filled@.skip(filled@.len() - text@.len()) =~= text@);
}

proof fn lemma_trimmed_start_splits(s: Seq<char>) -> (k: int)
    ensures
        0 <= k <= s.len(),
        trimmed_start(s) == s.skip(k),
        forall|i: int| 0 <= i < k ==> white_space(#[trigger] s[i]),
        k < s.len() ==> !white_space(s[k]),
    decreases s.len(),
{
    if s.len() > 0 && white_space(s[0]) {
        let t = s.drop_first();
        let j = lemma_trimmed_start_splits(t);
        assert(t.skip(j) =~= s.skip(j + 1));
        assert forall|i: int| 0 <= i < j + 1 implies white_space(#[trigger] s[i]) by {
            if i > 0 {
                assert(t[i - 1] == s[i]);
            }
        }
        if j < t.len() {
            assert(t[j] == s[j + 1]);
        }
        j + 1
    } else {
        assert(s.skip(0) =~= s);
        0
    }
}

proof fn lemma_trimmed_end_splits(s: Seq<char>) -> (k: int)
    ensures
        0 <= k <= s.len(),
        trimmed_end(s) == s.take(k),
        forall|i: int| k <= i < s.len() ==> white_space(#[trigger] s[i]),
        k > 0 ==> !white_space(s[k - 1]),
    decreases s.len(),
{
    if s.len() > 0 && white_space(s.last()) {
        let t = s.drop_last();
        let j = lemma_trimmed_end_splits(t);
        assert(t.take(j) =~= s.take(j));
        assert forall|i: int| j <= i < s.len() implies white_space(#[trigger] s[i]) by {
            if i < t.len() {
                assert(t[i] == s[i]);
            }
        }
        j
    } else {
        assert(s.take(s.len() as int) =~= s);
        s.len() as int
    }
}

/// Trimming takes white space away at both ends and nothing else: what is left
/// neither begins nor ends with any.
pub proof fn law_trim_takes_white_space(s: &str, r: String)
    requires
        call_ensures(trim, (s,), r),
    ensures
        exists|a: int, b: int|
            {
                &&& 0 <= a <= b <= s@.len()
                &&& r@ == #[trigger] s@.subrange(a, b)
                &&& forall|i: int| 0 <= i < a ==> white_space(#[trigger] s@[i])
                &&& forall|i: int| b <= i < s@.len() ==> white_space(#[trigger] s@[i])
            },
        r@.len() > 0 ==> !white_space(r@[0]) && !white_space(r@.last()),
{
    let a = lemma_trimmed_start_splits(s@);
    let t = s@.skip(a);
    let k = lemma_trimmed_end_splits(t);
    let b = a + k;
    if k == 0 {
        assert(r@ =~= s@.subrange(a, a));
        assert forall|i: int| a <= i < s@.len() implies white_space(#[trigger] s@[i]) by {
            assert(t[i - a] == s@[i]);
        }
    } else {
        assert(r@ =~= s@.subrange(a, b));
        assert forall|i: int| b <= i < s@.len() implies white_space(#[trigger] s@[i]) by {
            assert(t[i - a] == s@[i]);
        }
        assert(r@[0] == s@[a]);
        assert(r@.last() == t[k - 1]);
    }
}

/// White space is what Unicode calls so, blanks, tabs and line ends among it; letters, digits, slashes, dots and
/// colons are not.
pub proof fn law_white_space(c: char, r: bool)
    requires
        call_ensures(is_white_space, (c,), r),
    ensures
        r == white_space(c),
        r <==> ('\u{9}' <= c <= '\u{d}' || c == '\u{20}' || c == '\u{85}' || c == '\u{a0}' || c
            == '\u{1680}' || '\u{2000}' <= c <= '\u{200a}' || c == '\u{2028}' || c == '\u{2029}'
            || c == '\u{202f}' || c == '\u{205f}' || c == '\u{3000}'),
        c == ' ' || c == '\t' || c == '\n' || c == '\r' ==> r,
        'a' <= c <= 'z' || 'A' <= c <= 'Z' || '0' <= c <= '9' || c == '/' || c == '.' || c == ':'
            ==> !r,
{
}

/// A text is found exactly where it stands: with something before and something
/// behind it. The first such place at or after the given one is told.
pub proof fn law_texts_are_found(
    s: &str,
    needle: &str,
    r: bool,
    chars: &[char],
    pin: &[char],
    from: usize,
    place: Option<usize>,
    before: Seq<char>,
    behind: Seq<char>,
)
    requires
        call_ensures(contains, (s, needle), r),
        call_ensures(find_from, (chars, pin, from), place),
    ensures
        s@ == before + needle@ + behind ==> r,
        r ==> exists|i: int|
            0 <= i <= s@.len() - needle@.len() && #[trigger] s@.subrange(i, i + needle@.len())
                == needle@,
        place matches Some(i) ==> from <= i && i + pin@.len() <= chars@.len() && chars@.subrange(
            i as int,
            i + pin@.len(),
        ) == pin@,
        forall|j: int|
            from <= j <= chars@.len() - pin@.len() && (place is None || j < place->0)
                ==> #[trigger] chars@.subrange(j, j + pin@.len()) != pin@,
{
    if s@ == before + needle@ + behind {
        let i = before.len() as int;
        assert(s@.subrange(i, i + needle@.len()) =~= needle@);
        assert(occurs_at(s@, needle@, i));
    }
    if r {
        let i = choose|i: int| occurs_at(s@, needle@, i);
        assert(s@.subrange(i, i + needle@.len()) == needle@);
    }
    lemma_first_place(chars@, pin@, from as int);
    assert forall|j: int|
        from <= j <= chars@.len() - pin@.len() && (place is None || j < place->0)
            implies #[trigger] chars@.subrange(j, j + pin@.len()) != pin@ by {
        assert(!occurs_at(chars@, pin@, j));
    }
}

/// A text begins or ends with another exactly where that one stands there, and
/// bytes hold others where these stand somewhere.
pub proof fn law_ends_are_compared(
    s: &[char],
    part: &[char],
    first: bool,
    last: bool,
    bytes: &[u8],
    needle: &[u8],
    held: bool,
)
    requires
        call_ensures(starts_with, (s, part), first),
        call_ensures(ends_with, (s, part), last),
        call_ensures(bytes_contain, (bytes, needle), held),
    ensures
        first <==> part@.len() <= s@.len() && s@.take(part@.len() as int) == part@,
        last <==> part@.len() <= s@.len() && s@.skip(s@.len() - part@.len()) == part@,
        held <==> exists|i: int|
            0 <= i <= bytes@.len() - needle@.len() && #[trigger] bytes@.subrange(
                i,
                i + needle@.len(),
            ) == needle@,
{
    if part@.len() <= s@.len() {
        assert(s@.subrange(0, part@.len() as int) =~= s@.take(part@.len() as int));
        assert(s@.subrange(s@.len() - part@.len(), s@.len() as int) =~= s@.skip(
            s@.len() - part@.len(),
        ));
    }
    if held {
        let i = choose|i: int| occurs_at(bytes@, needle@, i);
        assert(bytes@.subrange(i, i + needle@.len()) == needle@);
    }
    if exists|i: int|
        0 <= i <= bytes@.len() - needle@.len() && #[trigger] bytes@.subrange(i, i + needle@.len())
            == needle@ {
        let i = choose|i: int|
            0 <= i <= bytes@.len() - needle@.len() && #[trigger] bytes@.subrange(
                i,
                i + needle@.len(),
            ) == needle@;
        assert(occurs_at(bytes@, needle@, i));
    }
}

/// Capital letters become small ones, each in its place, and all else stays.
pub proof fn law_lower_keeps_all_else(
    chars: &[char],
    from: usize,
    to: usize,
    out: &mut String,
    i: int,
)
    requires
        call_ensures(push_lower, (chars, from, to, out), ()),
        from <= to <= chars@.len(),
        0 <= i < to - from,
    ensures
        final(out)@.len() == old(out)@.len() + (to - from),
        final(out)@.take(old(out)@.len() as int) == old(out)@,
        'A' <= chars@[from + i] <= 'Z' ==> final(out)@[old(out)@.len() + i] as int
            == chars@[from + i] as int + 32,
        !('A' <= chars@[from + i] <= 'Z') ==> final(out)@[old(out)@.len() + i] == chars@[from + i],
{
    assert(final(out)@.take(old(out)@.len() as int) =~= old(out)@);
}

/// A part of a text is its characters in their order, and padding puts blanks
/// behind a text up to the width.
pub proof fn law_parts_and_padding(
    chars: &[char],
    from: usize,
    to: usize,
    part: String,
    text: &str,
    width: usize,
    out: &mut String,
)
    requires
        call_ensures(slice_text, (chars, from, to), part),
        call_ensures(push_padded, (text, width, out), ()),
        from <= to <= chars@.len(),
    ensures
        part@.len() == to - from,
        forall|i: int| 0 <= i < to - from ==> #[trigger] part@[i] == chars@[from + i],
        final(out)@.len() == old(out)@.len() + if text@.len() >= width {
            text@.len()
        } else {
            width as nat
        },
        final(out)@.take((old(out)@.len() + text@.len()) as int) == old(out)@ + text@,
        forall|i: int|
            old(out)@.len() + text@.len() <= i < final(out)@.len() ==> #[trigger] final(out)@[i]
                == ' ',
{
    assert(final(out)@.take((old(out)@.len() + text@.len()) as int) =~= old(out)@ + text@);
}

} // verus!
