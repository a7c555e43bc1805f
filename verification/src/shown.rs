//! How paths are shown in messages for a developer: in quotes, with escapes for
//! what could not be read otherwise.
use vstd::prelude::*;
use vstd::utf8::{
    decode_utf8, encode_utf8_decode_utf8, length_of_first_scalar, pop_first_scalar,
    valid_first_scalar, valid_utf8,
};

use crate::paths::FsPath;
use crate::text::{push_slice, to_chars};
use crate::text_merge::decode_utf8_text;

verus! {

/// How the standard library shows a path that is a text to a developer.
pub uninterp spec fn shown_text_path(text: Seq<char>) -> Seq<char>;

/// The formatting of the standard library (`Debug` of `std::path::Path`) for a
/// path that is a text: the text in quotes. The escapes are named, not described.
#[verifier::external_body]
fn show_text_path(text: &str) -> (r: String)
    ensures
        r@ == shown_text_path(text@),
{
    format!("{:?}", std::path::Path::new(text))
}

/// A hexadecimal digit, in upper case.
pub open spec fn upper_digit(n: nat) -> char {
    if n < 10 {
        (48 + n) as char
    } else {
        (55 + n) as char
    }
}

/// A byte that belongs to no character: `\x` and two hexadecimal digits.
pub open spec fn shown_byte(b: u8) -> Seq<char> {
    seq!['\\', 'x', upper_digit((b / 16) as nat), upper_digit((b % 16) as nat)]
}

/// How many bytes the characters take that bytes begin with.
pub open spec fn run_len(bytes: Seq<u8>) -> int
    decreases bytes.len(),
{
    if bytes.len() == 0 || !valid_first_scalar(bytes) {
        0
    } else {
        length_of_first_scalar(bytes) + run_len(pop_first_scalar(bytes))
    }
}

/// What stands between the quotes.
pub open spec fn unquoted(shown: Seq<char>) -> Seq<char> {
    if shown.len() < 2 {
        shown
    } else {
        shown.subrange(1, shown.len() - 1)
    }
}

/// Bytes of which some belong to no character: each run of characters as in a
/// path that is a text, the other bytes one by one.
pub open spec fn shown_bytes(bytes: Seq<u8>) -> Seq<char>
    decreases bytes.len(),
{
    let n = run_len(bytes);
    if bytes.len() == 0 {
        Seq::empty()
    } else if 0 < n <= bytes.len() {
        unquoted(shown_text_path(decode_utf8(bytes.take(n)))) + shown_bytes(bytes.skip(n))
    } else {
        shown_byte(bytes[0]) + shown_bytes(bytes.skip(1))
    }
}

/// A path, in quotes.
pub open spec fn shown_path(path: Seq<u8>) -> Seq<char> {
    if valid_utf8(path) {
        shown_text_path(decode_utf8(path))
    } else {
        seq!['"'] + shown_bytes(path) + seq!['"']
    }
}

/// Paths with commas between them.
pub open spec fn listed_paths(paths: Seq<Seq<u8>>) -> Seq<char>
    decreases paths.len(),
{
    if paths.len() == 0 {
        Seq::empty()
    } else if paths.len() == 1 {
        shown_path(paths[0])
    } else {
        listed_paths(paths.drop_last()) + seq![',', ' '] + shown_path(paths.last())
    }
}

/// A list of paths, in brackets.
pub open spec fn shown_list(paths: Seq<Seq<u8>>) -> Seq<char> {
    seq!['['] + listed_paths(paths) + seq![']']
}

/// The bytes of each path.
pub open spec fn bytes_of(paths: Seq<FsPath>) -> Seq<Seq<u8>> {
    paths.map_values(|p: FsPath| p@)
}

fn upper_digit_of(n: u8) -> (c: char)
    requires
        n < 16,
    ensures
        c == upper_digit(n as nat),
{
    if n < 10 {
        (48u8 + n) as char
    } else {
        (55u8 + n) as char
    }
}

/// A prefix holds a whole character at its beginning exactly where the bytes do
/// and the prefix is as long as that character.
proof fn lemma_first_scalar_of_prefix(bytes: Seq<u8>, n: int)
    requires
        0 <= n <= bytes.len(),
    ensures
        valid_first_scalar(bytes.take(n)) <==> valid_first_scalar(bytes)
            && length_of_first_scalar(bytes) <= n,
        valid_first_scalar(bytes.take(n)) ==> length_of_first_scalar(bytes.take(n))
            == length_of_first_scalar(bytes),
{
    let part = bytes.take(n);
    assert(forall|i: int| 0 <= i < n ==> part[i] == bytes[i]);
}

/// A run of characters is well-formed, and not longer than the bytes it begins.
proof fn lemma_run(bytes: Seq<u8>)
    ensures
        0 <= run_len(bytes) <= bytes.len(),
        valid_utf8(bytes.take(run_len(bytes))),
    decreases bytes.len(),
{
    if bytes.len() > 0 && valid_first_scalar(bytes) {
        let rest = pop_first_scalar(bytes);
        lemma_run(rest);
        let run = bytes.take(run_len(bytes));
        lemma_first_scalar_of_prefix(bytes, run_len(bytes));
        assert(pop_first_scalar(run) =~= rest.take(run_len(rest)));
    } else {
        assert(bytes.take(0).len() == 0);
    }
}

/// The length of the character that the bytes begin with at a place, 0 where they
/// begin with none.
fn first_len(bytes: &[u8], from: usize) -> (r: usize)
    requires
        from <= bytes@.len(),
    ensures
        r == if from < bytes@.len() && valid_first_scalar(bytes@.skip(from as int)) {
            length_of_first_scalar(bytes@.skip(from as int))
        } else {
            0
        },
        from + r <= bytes@.len(),
{
    let ghost rest = bytes@.skip(from as int);
    let mut n: usize = 1;
    while n <= 4 && n <= bytes.len() - from
        invariant
            1 <= n <= 5,
            from <= bytes@.len(),
            rest == bytes@.skip(from as int),
            valid_first_scalar(rest) ==> n <= length_of_first_scalar(rest),
        decreases 5 - n,
    {
        let part = vstd::slice::slice_subrange(bytes, from, from + n);
        assert(part@ =~= rest.take(n as int));
        proof {
            lemma_first_scalar_of_prefix(rest, n as int);
            if valid_first_scalar(rest) && length_of_first_scalar(rest) == n {
                assert(pop_first_scalar(part@).len() == 0);
                assert(valid_utf8(pop_first_scalar(part@)));
                assert(valid_utf8(part@));
            }
        }
        if decode_utf8_text(part).is_some() {
            return n;
        }
        n += 1;
    }
    0
}

/// Where the run of characters ends that begins at a place.
fn run_end(bytes: &[u8], from: usize) -> (r: usize)
    requires
        from <= bytes@.len(),
    ensures
        r == from + run_len(bytes@.skip(from as int)),
        from <= r <= bytes@.len(),
{
    let len: usize = bytes.len();
    let mut at: usize = from;
    loop
        invariant
            len == bytes@.len(),
            from <= at <= len,
            from + run_len(bytes@.skip(from as int)) == at + run_len(bytes@.skip(at as int)),
        decreases bytes@.len() - at,
    {
        let n: usize = first_len(bytes, at);
        if n == 0 {
            return at;
        }
        assert(pop_first_scalar(bytes@.skip(at as int)) =~= bytes@.skip(at + n));
        at += n;
    }
}

fn push_unquoted(shown: &str, out: &mut String)
    ensures
        final(out)@ == old(out)@ + unquoted(shown@),
{
    let chars = to_chars(shown);
    if chars.len() < 2 {
        out.append(shown);
    } else {
        push_slice(chars.as_slice(), 1, chars.len() - 1, out);
    }
}

/// Shows bytes that are no text.
fn show_bytes(bytes: &[u8]) -> (r: String)
    ensures
        r@ == seq!['"'] + shown_bytes(bytes@) + seq!['"'],
{
    let mut out = String::new();
    out.push('"');
    let mut i: usize = 0;
    assert(bytes@.skip(0) =~= bytes@);
    assert(out@ =~= seq!['"']);
    while i < bytes.len()
        invariant
            i <= bytes@.len(),
            out@ + shown_bytes(bytes@.skip(i as int)) == seq!['"'] + shown_bytes(bytes@),
        decreases bytes@.len() - i,
    {
        let ghost rest = bytes@.skip(i as int);
        let ghost before = out@;
        let end: usize = run_end(bytes, i);
        if end == i {
            let b: u8 = bytes[i];
            out.push('\\');
            out.push('x');
            out.push(upper_digit_of(b / 16));
            out.push(upper_digit_of(b % 16));
            assert(out@ =~= before + shown_byte(b));
            assert(rest.skip(1) =~= bytes@.skip(i + 1));
            assert(out@ + shown_bytes(bytes@.skip(i + 1)) =~= before + shown_bytes(rest));
            i += 1;
        } else {
            let run = vstd::slice::slice_subrange(bytes, i, end);
            proof {
                lemma_run(rest);
                assert(run@ =~= rest.take(end - i));
                assert(rest.skip(end - i) =~= bytes@.skip(end as int));
            }
            if let Some(text) = decode_utf8_text(run) {
                proof {
                    encode_utf8_decode_utf8(text@);
                }
                push_unquoted(show_text_path(text).as_str(), &mut out);
            }
            assert(out@ + shown_bytes(bytes@.skip(end as int)) =~= before + shown_bytes(rest));
            i = end;
        }
    }
    assert(out@ =~= seq!['"'] + shown_bytes(bytes@));
    out.push('"');
    out
}

/// Shows a path.
pub fn show_path(path: &FsPath) -> (r: String)
    ensures
        r@ == shown_path(path@),
{
    match decode_utf8_text(path.as_bytes()) {
        Some(text) => {
            proof {
                encode_utf8_decode_utf8(text@);
            }
            show_text_path(text)
        },
        None => show_bytes(path.as_bytes()),
    }
}

/// Shows a list of paths.
pub fn show_list(paths: &Vec<FsPath>) -> (r: String)
    ensures
        r@ == shown_list(bytes_of(paths@)),
{
    let ghost all = bytes_of(paths@);
    let mut out = String::new();
    out.push('[');
    let mut i: usize = 0;
    assert(all.take(0) =~= Seq::<Seq<u8>>::empty());
    assert(out@ =~= seq!['['] + listed_paths(all.take(0)));
    while i < paths.len()
        invariant
            all == bytes_of(paths@),
            i <= paths@.len(),
            out@ == seq!['['] + listed_paths(all.take(i as int)),
        decreases paths@.len() - i,
    {
        let ghost before = out@;
        let ghost now = all.take(i + 1);
        assert(now.drop_last() =~= all.take(i as int));
        if i > 0 {
            out.push(',');
            out.push(' ');
        }
        let shown = show_path(&paths[i]);
        out.append(shown.as_str());
        assert(out@ =~= seq!['['] + listed_paths(now));
        i += 1;
    }
    assert(all.take(i as int) =~= all);
    out.push(']');
    out
}

/// A path that is a text is shown as the standard library shows it.
pub proof fn law_texts_are_shown_as_paths(path: &FsPath, text: Seq<char>, r: String)
    requires
        call_ensures(show_path, (path,), r),
        path@ == vstd::utf8::encode_utf8(text),
    ensures
        r@ == shown_text_path(text),
{
    vstd::utf8::encode_utf8_valid_utf8(text);
    encode_utf8_decode_utf8(text);
}

/// A path that is no text is shown in quotes, and a byte that begins no character
/// as two hexadecimal digits, which tell it, with what is behind it after that.
pub proof fn law_broken_bytes_are_told(path: &FsPath, rest: Seq<u8>, r: String)
    requires
        call_ensures(show_path, (path,), r),
        path@.len() > 0,
        !valid_first_scalar(path@),
        rest == path@.skip(1),
    ensures
        r@ == seq!['"'] + (seq![
            '\\',
            'x',
            upper_digit((path@[0] / 16) as nat),
            upper_digit((path@[0] % 16) as nat),
        ] + shown_bytes(rest)) + seq!['"'],
{
    assert(run_len(path@) == 0);
    assert(!valid_utf8(path@));
}

/// The digits of a byte are those of its two halves, letters in upper case.
pub proof fn law_upper_digits(n: nat)
    requires
        n < 16,
    ensures
        n < 10 ==> upper_digit(n) as int == '0' as int + n,
        n >= 10 ==> upper_digit(n) as int == 'A' as int + (n - 10),
{
}

/// A list is shown in brackets; one more path comes behind a comma and a blank.
pub proof fn law_lists_show_every_path(
    paths: &Vec<FsPath>,
    more: &Vec<FsPath>,
    path: &FsPath,
    shown: String,
    r: String,
    s: String,
)
    requires
        more@ == paths@.push(*path),
        call_ensures(show_path, (path,), shown),
        call_ensures(show_list, (paths,), r),
        call_ensures(show_list, (more,), s),
    ensures
        paths@.len() == 0 ==> r@ == seq!['[', ']'] && s@ == seq!['['] + shown@ + seq![']'],
        paths@.len() > 0 ==> s@ == r@.drop_last() + seq![',', ' '] + shown@ + seq![']'],
{
    let a = bytes_of(paths@);
    let b = bytes_of(more@);
    assert(b =~= a.push(path@));
    assert(b.drop_last() =~= a);
    if paths@.len() == 0 {
        assert(r@ =~= seq!['[', ']']);
        assert(b[0] == path@);
    } else {
        assert(r@.drop_last() =~= seq!['['] + listed_paths(a));
        assert(s@ =~= r@.drop_last() + seq![',', ' '] + shown@ + seq![']']);
    }
}

proof fn lemma_run_of_text(text: Seq<char>, rest: Seq<u8>)
    requires
        rest.len() == 0 || !valid_first_scalar(rest),
    ensures
        run_len(vstd::utf8::encode_utf8(text) + rest) == vstd::utf8::encode_utf8(text).len(),
    decreases text.len(),
{
    let head = vstd::utf8::encode_utf8(text);
    let bytes = head + rest;
    if text.len() == 0 {
        assert(bytes =~= rest);
    } else {
        let tail = vstd::utf8::encode_utf8(text.drop_first());
        vstd::utf8::encode_utf8_first_scalar(text);
        vstd::utf8::encode_utf8_valid_utf8(text);
        lemma_first_scalar_of_prefix(bytes, head.len() as int);
        assert(bytes.take(head.len() as int) =~= head);
        lemma_run_of_text(text.drop_first(), rest);
        assert(pop_first_scalar(bytes) =~= pop_first_scalar(head) + rest);
        assert(pop_first_scalar(head) == tail);
        assert(head.len() == length_of_first_scalar(head) + tail.len());
    }
}

/// What can be read at the beginning of a path that is no text is shown as in a
/// path that is one, and the rest follows.
pub proof fn law_readable_parts_are_shown(
    path: &FsPath,
    text: Seq<char>,
    rest: Seq<u8>,
    r: String,
)
    requires
        call_ensures(show_path, (path,), r),
        text.len() > 0,
        rest.len() > 0,
        !valid_first_scalar(rest),
        path@ == vstd::utf8::encode_utf8(text) + rest,
        !valid_utf8(path@),
    ensures
        r@ == seq!['"'] + (unquoted(shown_text_path(text)) + shown_bytes(rest)) + seq!['"'],
{
    let head = vstd::utf8::encode_utf8(text);
    lemma_run_of_text(text, rest);
    vstd::utf8::encode_utf8_first_scalar(text);
    encode_utf8_decode_utf8(text);
    assert(path@.take(head.len() as int) =~= head);
    assert(path@.skip(head.len() as int) =~= rest);
    vstd::utf8::encode_utf8_valid_utf8(text);
    assert(head.len() > 0);
}

} // verus!
