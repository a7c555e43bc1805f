//! Mounts as the operating system lists them, for when no daemon runs.
//!
//! This shows less than the daemon knows: neither the instance nor the age of a
//! mount.
use vstd::prelude::*;
use vstd::utf8::{decode_utf8, encode_utf8, valid_utf8};

use crate::daemon::protocol::MountSummary;
use crate::environment::Platform;
use crate::paths::{lossy_text, same_path, utf8_lossy, FsPath};
use crate::text::{
    begins, find_from, first_place, is_white_space, occurs_at, same, slice_text, starts_with,
    to_chars, trim, trimmed, white_space,
};

verus! {

/// An entry of the mount table.
#[derive(Debug)]
pub struct RawMount {
    /// Name of the file system.
    pub fs_name: String,
    /// Mount point.
    pub mount_point: FsPath,
}

/// What stands between white space, from left to right.
pub open spec fn white_pieces(s: Seq<char>) -> Seq<Seq<char>>
    decreases s.len(),
{
    if s.len() == 0 {
        seq![Seq::<char>::empty()]
    } else {
        let before = white_pieces(s.drop_last());
        if white_space(s.last()) {
            before.push(Seq::<char>::empty())
        } else {
            before.drop_last().push(before.last().push(s.last()))
        }
    }
}

/// The pieces that are not empty.
pub open spec fn filled(pieces: Seq<Seq<char>>) -> Seq<Seq<char>>
    decreases pieces.len(),
{
    if pieces.len() == 0 {
        Seq::empty()
    } else {
        let before = filled(pieces.drop_last());
        if pieces.last().len() > 0 {
            before.push(pieces.last())
        } else {
            before
        }
    }
}

/// The words of a text: what stands between white space.
pub open spec fn words_of(s: Seq<char>) -> Seq<Seq<char>> {
    filled(white_pieces(s))
}

/// The characters of each text of a list.
pub open spec fn views(list: Seq<String>) -> Seq<Seq<char>> {
    list.map_values(|s: String| s@)
}

fn push_word(out: &mut Vec<String>, word: String, Ghost(done): Ghost<Seq<Seq<char>>>)
    requires
        views(old(out)@) == filled(done),
    ensures
        views(final(out)@) == filled(done.push(word@)),
{
    assert(done.push(word@).drop_last() =~= done);
    if !word.as_str().is_empty() {
        out.push(word);
        assert(views(out@) =~= filled(done).push(word@));
    }
}

/// Splits a text into words.
pub fn words(s: &[char]) -> (r: Vec<String>)
    ensures
        views(r@) == words_of(s@),
{
    let mut out: Vec<String> = Vec::new();
    let mut cur = String::new();
    let ghost mut done: Seq<Seq<char>> = Seq::empty();
    let mut i: usize = 0;
    proof {
        assert(views(out@) =~= filled(done));
        assert(white_pieces(s@.take(0)) =~= done.push(cur@));
    }
    while i < s.len()
        invariant
            i <= s@.len(),
            white_pieces(s@.take(i as int)) == done.push(cur@),
            views(out@) == filled(done),
        decreases s@.len() - i,
    {
        let ghost prefix = s@.take(i + 1);
        assert(prefix.drop_last() =~= s@.take(i as int));
        assert(done.push(cur@).drop_last() =~= done);
        if is_white_space(s[i]) {
            let ghost all = done.push(cur@);
            push_word(&mut out, cur, Ghost(done));
            proof {
                done = all;
            }
            cur = String::new();
        } else {
            cur.push(s[i]);
        }
        assert(white_pieces(prefix) =~= done.push(cur@));
        i += 1;
    }
    assert(s@.take(i as int) =~= s@);
    push_word(&mut out, cur, Ghost(done));
    out
}

/// Whether an escape stands at a position: a backslash and three octal digits.
pub open spec fn escape_at(bytes: Seq<u8>, i: int) -> bool {
    &&& 0 <= i
    &&& i + 3 < bytes.len()
    &&& bytes[i] == 0x5c
    &&& 0x30 <= bytes[i + 1] <= 0x37
    &&& 0x30 <= bytes[i + 2] <= 0x37
    &&& 0x30 <= bytes[i + 3] <= 0x37
}

/// The number that the digits of an escape write.
pub open spec fn escape_value(bytes: Seq<u8>, i: int) -> int {
    (bytes[i + 1] - 0x30) * 64 + (bytes[i + 2] - 0x30) * 8 + (bytes[i + 3] - 0x30)
}

/// Whether every escape stands for a byte.
pub open spec fn escapes_fit(bytes: Seq<u8>) -> bool {
    forall|i: int| #[trigger] escape_at(bytes, i) ==> escape_value(bytes, i) < 256
}

/// The bytes from a position on, with escapes replaced by what they stand for.
pub open spec fn unescaped(bytes: Seq<u8>, i: int) -> Seq<u8>
    decreases bytes.len() - i,
{
    if i < 0 || i >= bytes.len() {
        Seq::empty()
    } else if escape_at(bytes, i) {
        seq![escape_value(bytes, i) as u8] + unescaped(bytes, i + 4)
    } else {
        seq![bytes[i]] + unescaped(bytes, i + 1)
    }
}

fn is_escape(bytes: &[u8], i: usize) -> (r: bool)
    requires
        i < bytes@.len(),
    ensures
        r == escape_at(bytes@, i as int),
{
    bytes.len() - i > 3 && bytes[i] == 0x5c && 0x30 <= bytes[i + 1] && bytes[i + 1] <= 0x37 && 0x30
        <= bytes[i + 2] && bytes[i + 2] <= 0x37 && 0x30 <= bytes[i + 3] && bytes[i + 3] <= 0x37
}

/// Whether every escape in a text stands for a byte.
fn escapes_are_bytes(bytes: &[u8]) -> (r: bool)
    ensures
        r == escapes_fit(bytes@),
{
    let mut i: usize = 0;
    while i < bytes.len()
        invariant
            i <= bytes@.len(),
            forall|j: int|
                0 <= j < i && #[trigger] escape_at(bytes@, j) ==> escape_value(bytes@, j) < 256,
        decreases bytes@.len() - i,
    {
        if is_escape(bytes, i) && bytes[i + 1] > 0x33 {
            assert(escape_value(bytes@, i as int) >= 256);
            return false;
        }
        i += 1;
    }
    true
}

/// Replaces the octal escapes in a text by the bytes that they stand for.
pub fn decode_octal(input: &str) -> (r: String)
    requires
        escapes_fit(encode_utf8(input@)),
    ensures
        r@ == utf8_lossy(unescaped(encode_utf8(input@), 0)),
        valid_utf8(unescaped(encode_utf8(input@), 0)) ==> r@ == decode_utf8(
            unescaped(encode_utf8(input@), 0),
        ),
{
    let bytes = input.as_bytes();
    let mut out: Vec<u8> = Vec::new();
    let mut i: usize = 0;
    assert(out@ + unescaped(bytes@, 0) =~= unescaped(bytes@, 0));
    while i < bytes.len()
        invariant
            i <= bytes@.len(),
            escapes_fit(bytes@),
            out@ + unescaped(bytes@, i as int) == unescaped(bytes@, 0),
        decreases bytes@.len() - i,
    {
        let ghost before = out@;
        if is_escape(bytes, i) {
            assert(escape_value(bytes@, i as int) < 256);
            let value: u8 = (bytes[i + 1] - 0x30) * 64 + (bytes[i + 2] - 0x30) * 8 + (bytes[i + 3]
                - 0x30);
            out.push(value);
            assert(out@ + unescaped(bytes@, i + 4) =~= before + unescaped(bytes@, i as int));
            i += 4;
        } else {
            out.push(bytes[i]);
            assert(out@ + unescaped(bytes@, i + 1) =~= before + unescaped(bytes@, i as int));
            i += 1;
        }
    }
    assert(out@ =~= unescaped(bytes@, 0));
    lossy_text(out.as_slice())
}

/// The text without separators at its start.
pub open spec fn without_separators(s: Seq<char>) -> Seq<char>
    decreases s.len(),
{
    if begins(s, " - "@) && " - "@.len() > 0 {
        without_separators(s.skip(" - "@.len() as int))
    } else {
        s
    }
}

/// The mount point, the type and the source in a line of `mountinfo`:
/// `<id> <parent> <device> <root> <mount point> ... - <type> <source> ...`.
pub open spec fn mountinfo_fields(line: Seq<char>) -> Option<(Seq<char>, Seq<char>, Seq<char>)> {
    match first_place(line, " - "@, 0) {
        None => None,
        Some(i) => {
            let left = words_of(line.take(i));
            let right = words_of(without_separators(line.skip(i)));
            if left.len() >= 5 && right.len() >= 2 {
                Some((left[4], right[0], right[1]))
            } else {
                None
            }
        },
    }
}

/// The name of the file system, given its type and source: `fuse.<name>`, or
/// the source.
pub open spec fn linux_fs_name(fstype: Seq<char>, source: Seq<char>) -> Seq<char> {
    if begins(fstype, "fuse."@) {
        fstype.skip("fuse."@.len() as int)
    } else {
        source
    }
}

/// Whether the mount point in a line of `mountinfo`, where there is one, holds
/// only escapes that stand for bytes.
pub open spec fn mountinfo_decodes(line: Seq<char>) -> bool {
    match mountinfo_fields(line) {
        Some((mount_point, _, _)) => escapes_fit(encode_utf8(mount_point)),
        None => true,
    }
}

fn skip_separators(s: &[char], from: usize) -> (r: usize)
    requires
        from <= s@.len(),
    ensures
        from <= r <= s@.len(),
        s@.skip(r as int) == without_separators(s@.skip(from as int)),
{
    proof {
        reveal_strlit(" - ");
    }
    let mark = to_chars(" - ");
    let mut at: usize = from;
    while s.len() - at >= mark.len() && s[at] == ' ' && s[at + 1] == '-' && s[at + 2] == ' '
        invariant
            from <= at <= s@.len(),
            mark@ == " - "@,
            mark@ == seq![' ', '-', ' '],
            without_separators(s@.skip(from as int)) == without_separators(s@.skip(at as int)),
        decreases s@.len() - at,
    {
        let ghost here = s@.skip(at as int);
        assert(here.subrange(0, 3) =~= " - "@);
        assert(here.skip(3) =~= s@.skip(at + 3));
        at += 3;
    }
    proof {
        let here = s@.skip(at as int);
        if begins(here, " - "@) {
            assert(here.subrange(0, 3)[0] == ' ');
            assert(here.subrange(0, 3)[1] == '-');
            assert(here.subrange(0, 3)[2] == ' ');
        }
    }
    at
}

struct MountinfoFields {
    mount_point: String,
    fstype: String,
    source: String,
}

fn split_mountinfo(line: &str) -> (r: Option<MountinfoFields>)
    ensures
        match r {
            Some(f) => mountinfo_fields(line@) == Some((f.mount_point@, f.fstype@, f.source@)),
            None => mountinfo_fields(line@) is None,
        },
{
    let chars = to_chars(line);
    let mark = to_chars(" - ");
    match find_from(&chars, &mark, 0) {
        None => None,
        Some(i) => {
            let left = words(vstd::slice::slice_subrange(chars.as_slice(), 0, i));
            assert(chars@.subrange(0, i as int) =~= chars@.take(i as int));
            let start: usize = skip_separators(&chars, i);
            let right = words(vstd::slice::slice_subrange(chars.as_slice(), start, chars.len()));
            assert(chars@.subrange(start as int, chars@.len() as int) =~= chars@.skip(
                start as int,
            ));
            assert(views(left@).len() == left@.len());
            assert(views(right@).len() == right@.len());
            if left.len() >= 5 && right.len() >= 2 {
                assert(views(left@)[4] == left@[4]@);
                assert(views(right@)[0] == right@[0]@);
                assert(views(right@)[1] == right@[1]@);
                Some(
                    MountinfoFields {
                        mount_point: left[4].clone(),
                        fstype: right[0].clone(),
                        source: right[1].clone(),
                    },
                )
            } else {
                None
            }
        },
    }
}

/// Whether [`parse_linux_mountinfo_line`] can read the line.
pub fn mountinfo_line_is_decodable(line: &str) -> (r: bool)
    ensures
        r == mountinfo_decodes(line@),
{
    match split_mountinfo(line) {
        None => true,
        Some(fields) => escapes_are_bytes(fields.mount_point.as_str().as_bytes()),
    }
}

/// Reads a line of `mountinfo`.
pub fn parse_linux_mountinfo_line(line: &str) -> (r: Option<RawMount>)
    requires
        mountinfo_decodes(line@),
    ensures
        match mountinfo_fields(line@) {
            None => r is None,
            Some((mount_point, fstype, source)) => {
                &&& r is Some
                &&& r->0.fs_name@ == linux_fs_name(fstype, source)
                &&& r->0.mount_point@ == encode_utf8(
                    utf8_lossy(unescaped(encode_utf8(mount_point), 0)),
                )
                &&& valid_utf8(unescaped(encode_utf8(mount_point), 0)) ==> r->0.mount_point@
                    == unescaped(encode_utf8(mount_point), 0)
            },
        },
{
    match split_mountinfo(line) {
        None => None,
        Some(fields) => {
            let fstype = to_chars(fields.fstype.as_str());
            let prefix = to_chars("fuse.");
            let fs_name: String = if starts_with(&fstype, &prefix) {
                let rest = slice_text(&fstype, prefix.len(), fstype.len());
                assert(rest@ =~= fstype@.skip(prefix@.len() as int));
                rest
            } else {
                fields.source
            };
            let decoded = decode_octal(fields.mount_point.as_str());
            proof {
                let bytes = unescaped(encode_utf8(fields.mount_point@), 0);
                if valid_utf8(bytes) {
                    vstd::utf8::decode_utf8_encode_utf8(bytes);
                }
            }
            Some(RawMount { fs_name, mount_point: FsPath::from_text(decoded.as_str()) })
        },
    }
}

/// The last place where `needle` stands, before `before`.
pub open spec fn last_place(s: Seq<char>, needle: Seq<char>, before: int) -> Option<int>
    decreases before,
{
    if before <= 0 {
        None
    } else if occurs_at(s, needle, before - 1) {
        Some(before - 1)
    } else {
        last_place(s, needle, before - 1)
    }
}

fn find_last(s: &[char], needle: &[char]) -> (r: Option<usize>)
    ensures
        match r {
            Some(i) => last_place(s@, needle@, (s@.len() + 1) as int) == Some(i as int) && i
                + needle@.len() <= s@.len(),
            None => last_place(s@, needle@, (s@.len() + 1) as int) is None,
        },
{
    let mut i: usize = s.len();
    loop
        invariant
            i <= s@.len(),
            last_place(s@, needle@, (s@.len() + 1) as int) == last_place(s@, needle@, i + 1),
        decreases i,
    {
        if s.len() - i >= needle.len() {
            let part = vstd::slice::slice_subrange(s, i, i + needle.len());
            if starts_with(part, needle) {
                assert(part@ =~= needle@) by {
                    assert(part@.subrange(0, needle@.len() as int) =~= part@);
                }
                assert(occurs_at(s@, needle@, i as int));
                return Some(i);
            }
            assert(!occurs_at(s@, needle@, i as int)) by {
                if occurs_at(s@, needle@, i as int) {
                    assert(part@.subrange(0, needle@.len() as int) =~= part@);
                }
            }
        }
        if i == 0 {
            assert(last_place(s@, needle@, 0) is None);
            return None;
        }
        i -= 1;
    }
}

/// Where the options and the mount point begin in a line of macOS's `mount`:
/// `<source> on <mount point> (<type>, ...)`.
pub open spec fn macos_places(line: Seq<char>) -> Option<(int, int)> {
    match (last_place(line, " ("@, (line.len() + 1) as int), first_place(line, " on "@, 0)) {
        (Some(options), Some(on)) => if options > on {
            Some((options, on))
        } else {
            None
        },
        _ => None,
    }
}

/// Whether the parts of a line of macOS's `mount` do not overlap and it ends
/// with an ASCII character.
pub open spec fn macos_line_is_whole(line: Seq<char>) -> bool {
    match macos_places(line) {
        None => true,
        Some((options, on)) => {
            &&& on + " on "@.len() <= options
            &&& options + " ("@.len() <= line.len() - 1
            &&& (line.last() as int) < 128
        },
    }
}

/// The type in the options of a line of macOS's `mount`.
pub open spec fn macos_type(options: Seq<char>) -> Seq<char> {
    trimmed(
        match first_place(options, ","@, 0) {
            Some(i) => options.take(i),
            None => options,
        },
    )
}

/// The name of the file system in a line of macOS's `mount`: the source of a
/// FUSE mount, else the type.
pub open spec fn macos_fs_name(source: Seq<char>, fstype: Seq<char>) -> Seq<char> {
    if begins(fstype, "macfuse"@) || fstype == "fuse"@ {
        source
    } else {
        fstype
    }
}

/// Whether [`parse_macos_mount_line`] can read the line.
pub fn macos_line_is_readable(line: &str) -> (r: bool)
    ensures
        r == macos_line_is_whole(line@),
{
    let chars = to_chars(line);
    let open = to_chars(" (");
    let on_mark = to_chars(" on ");
    match (find_last(&chars, &open), find_from(&chars, &on_mark, 0)) {
        (Some(options), Some(on)) => {
            if options > on {
                options - on >= on_mark.len() && chars.len() - options > open.len()
                    && chars[chars.len() - 1] <= '\u{7f}'
            } else {
                true
            }
        },
        _ => true,
    }
}

/// Reads a line of macOS's `mount`.
pub fn parse_macos_mount_line(line: &str) -> (r: Option<RawMount>)
    requires
        macos_line_is_whole(line@),
    ensures
        match macos_places(line@) {
            None => r is None,
            Some((options, on)) => {
                let opts = line@.subrange(options + " ("@.len(), line@.len() - 1);
                &&& r is Some
                &&& r->0.fs_name@ == macos_fs_name(line@.take(on), macos_type(opts))
                &&& r->0.mount_point@ == encode_utf8(
                    line@.subrange(on + " on "@.len(), options),
                )
            },
        },
{
    let chars = to_chars(line);
    let open = to_chars(" (");
    let on_mark = to_chars(" on ");
    match (find_last(&chars, &open), find_from(&chars, &on_mark, 0)) {
        (Some(options), Some(on)) => {
            if options <= on {
                return None;
            }
            let source = slice_text(&chars, 0, on);
            assert(source@ =~= line@.take(on as int));
            let mount_point = slice_text(&chars, on + on_mark.len(), options);
            let total: usize = chars.len();
            let opts = slice_text(&chars, options + open.len(), total - 1);
            let opts_chars = to_chars(opts.as_str());
            let comma = to_chars(",");
            let head: String = match find_from(&opts_chars, &comma, 0) {
                Some(i) => {
                    let part = slice_text(&opts_chars, 0, i);
                    assert(part@ =~= opts@.take(i as int));
                    part
                },
                None => opts,
            };
            let fstype = trim(head.as_str());
            let fstype_chars = to_chars(fstype.as_str());
            let prefix = to_chars("macfuse");
            let fs_name: String = if starts_with(&fstype_chars, &prefix) || same(
                fstype.as_str(),
                "fuse",
            ) {
                source
            } else {
                fstype
            };
            Some(RawMount { fs_name, mount_point: FsPath::from_text(mount_point.as_str()) })
        },
        _ => None,
    }
}

/// The backend that a file system name stands for.
pub open spec fn backend_of(fs_name: Seq<char>) -> Option<Seq<char>> {
    if fs_name == "omnifuse"@ {
        Some("omnifuse"@)
    } else if fs_name == "omnifuse-git"@ {
        Some("git"@)
    } else if fs_name == "omnifuse-wiki"@ {
        Some("wiki"@)
    } else if fs_name == "omnifuse-s3"@ {
        Some("s3"@)
    } else {
        None
    }
}

/// Whether a summary, or none, is what an entry of the mount table stands for.
pub open spec fn classified(raw: RawMount, r: Option<MountSummary>) -> bool {
    match backend_of(raw.fs_name@) {
        None => r is None,
        Some(backend) => {
            &&& r is Some
            &&& r->0.backend@ == backend
            &&& r->0.instance@.len() == 0
            &&& r->0.mount_point@ == raw.mount_point@
            &&& r->0.age_secs == 0
        },
    }
}

/// What an entry of the mount table stands for: only file systems of this
/// project count.
pub fn classify_entry(raw: &RawMount) -> (r: Option<MountSummary>)
    ensures
        classified(*raw, r),
{
    let name = raw.fs_name.as_str();
    let backend: &str = if same(name, "omnifuse") {
        "omnifuse"
    } else if same(name, "omnifuse-git") {
        "git"
    } else if same(name, "omnifuse-wiki") {
        "wiki"
    } else if same(name, "omnifuse-s3") {
        "s3"
    } else {
        return None;
    };
    Some(
        MountSummary {
            backend: backend.to_owned(),
            instance: String::new(),
            mount_point: raw.mount_point.copy(),
            age_secs: 0,
        },
    )
}

/// Whether a position, or none, is that of the first entry with the given mount
/// point.
pub open spec fn found_first(
    entries: Seq<MountSummary>,
    target: Seq<u8>,
    r: Option<usize>,
) -> bool {
    match r {
        Some(i) => {
            &&& i < entries.len()
            &&& same_path(entries[i as int].mount_point@, target)
            &&& forall|j: int|
                0 <= j < i ==> !same_path((#[trigger] entries[j]).mount_point@, target)
        },
        None => forall|j: int|
            0 <= j < entries.len() ==> !same_path((#[trigger] entries[j]).mount_point@, target),
    }
}

/// Finds the first entry with the given mount point.
pub fn lookup(entries: &Vec<MountSummary>, target: &FsPath) -> (r: Option<usize>)
    ensures
        found_first(entries@, target@, r),
{
    let mut i: usize = 0;
    while i < entries.len()
        invariant
            i <= entries@.len(),
            forall|j: int|
                0 <= j < i ==> !same_path((#[trigger] entries@[j]).mount_point@, target@),
        decreases entries@.len() - i,
    {
        if entries[i].mount_point.same(target) {
            return Some(i);
        }
        i += 1;
    }
    None
}

/// The command that unmounts a file system.
#[derive(Debug)]
pub struct UnmountCommand {
    /// Program.
    pub program: &'static str,
    /// Option before the mount point, where there is one.
    pub option: Option<&'static str>,
}

/// The command that unmounts a file system on a platform.
pub fn unmount_command(platform: Platform) -> (r: Result<UnmountCommand, String>)
    ensures
        match platform {
            Platform::Linux => r matches Ok(command) && command.program@ == "fusermount"@
                && command.option is Some && command.option->0@ == "-u"@,
            Platform::MacOs => r matches Ok(command) && command.program@ == "umount"@
                && command.option is None,
            _ => r matches Err(message) && message@
                == "unmount is only supported on macOS and Linux in V1"@,
        },
{
    match platform {
        Platform::Linux => Ok(UnmountCommand { program: "fusermount", option: Some("-u") }),
        Platform::MacOs => Ok(UnmountCommand { program: "umount", option: None }),
        _ => Err("unmount is only supported on macOS and Linux in V1".to_owned()),
    }
}

/// What is said of a command that failed.
pub open spec fn failure_message(
    program: Seq<char>,
    option: Option<Seq<char>>,
    mount_point: Seq<char>,
    stderr: Seq<char>,
) -> Seq<char> {
    "`"@ + program + match option {
        Some(text) => " "@ + text,
        None => Seq::empty(),
    } + " "@ + mount_point + "` failed: "@ + stderr
}

/// What is said of an unmount that failed, given what the command said.
pub fn unmount_failure(command: &UnmountCommand, mount_point: &FsPath, stderr: &str) -> (r: String)
    ensures
        r@ == failure_message(
            command.program@,
            match command.option {
                Some(text) => Some(text@),
                None => None,
            },
            utf8_lossy(mount_point@),
            stderr@,
        ),
{
    let mut out = "`".to_owned();
    out.append(command.program);
    if let Some(text) = command.option {
        out.append(" ");
        out.append(text);
    }
    out.append(" ");
    out.append(mount_point.display().as_str());
    out.append("` failed: ");
    out.append(stderr);
    proof {
        let option = match command.option {
            Some(text) => Some(text@),
            None => None,
        };
        assert(out@ =~= failure_message(
            command.program@,
            option,
            utf8_lossy(mount_point@),
            stderr@,
        ));
    }
    out
}

/// A mount point without a backslash is read as it stands.
pub proof fn law_plain_text_is_kept(bytes: Seq<u8>, i: int)
    requires
        0 <= i <= bytes.len(),
        forall|j: int| 0 <= j < bytes.len() ==> bytes[j] != 0x5c,
    ensures
        unescaped(bytes, i) == bytes.skip(i),
    decreases bytes.len() - i,
{
    if i < bytes.len() {
        law_plain_text_is_kept(bytes, i + 1);
    }
    assert(unescaped(bytes, i) =~= bytes.skip(i));
}

/// A byte that is written as an escape is read back: an escape in front of text
/// gives its byte and what the text gives.
pub proof fn law_escapes_are_read(a: u8, b: u8, c: u8, rest: Seq<u8>)
    requires
        a < 4,
        b < 8,
        c < 8,
    ensures
        ({
            let text = seq![0x5cu8, (0x30 + a) as u8, (0x30 + b) as u8, (0x30 + c) as u8] + rest;
            unescaped(text, 0) == seq![(a * 64 + b * 8 + c) as u8] + unescaped(text, 4)
        }),
{
}

proof fn lemma_white_pieces_around(a: Seq<char>, w: char, b: Seq<char>)
    requires
        white_space(w),
    ensures
        white_pieces(a.push(w) + b) == white_pieces(a) + white_pieces(b),
        white_pieces(b).len() > 0,
    decreases b.len(),
{
    let s = a.push(w);
    if b.len() == 0 {
        assert(s + b =~= s);
        assert(s.drop_last() =~= a);
        assert(white_pieces(s) =~= white_pieces(a) + white_pieces(b));
    } else {
        lemma_white_pieces_around(a, w, b.drop_last());
        assert((s + b).drop_last() =~= s + b.drop_last());
        let p = white_pieces(a);
        let q = white_pieces(b.drop_last());
        if !white_space(b.last()) {
            assert((p + q).drop_last() =~= p + q.drop_last());
            assert((p + q).last() == q.last());
        }
        assert(white_pieces(s + b) =~= p + white_pieces(b));
    }
}

proof fn lemma_filled_concat(p: Seq<Seq<char>>, q: Seq<Seq<char>>)
    ensures
        filled(p + q) == filled(p) + filled(q),
    decreases q.len(),
{
    if q.len() == 0 {
        assert(p + q =~= p);
        assert(filled(p) + filled(q) =~= filled(p));
    } else {
        lemma_filled_concat(p, q.drop_last());
        assert((p + q).drop_last() =~= p + q.drop_last());
        assert(filled(p + q) =~= filled(p) + filled(q));
    }
}

/// White space between two texts parts their words.
pub proof fn law_white_space_parts_words(a: Seq<char>, w: char, b: Seq<char>)
    requires
        white_space(w),
    ensures
        words_of(a.push(w) + b) == words_of(a) + words_of(b),
{
    lemma_white_pieces_around(a, w, b);
    lemma_filled_concat(white_pieces(a), white_pieces(b));
}

proof fn lemma_one_piece(s: Seq<char>)
    requires
        forall|i: int| 0 <= i < s.len() ==> !white_space(#[trigger] s[i]),
    ensures
        white_pieces(s) == seq![s],
    decreases s.len(),
{
    if s.len() > 0 {
        let t = s.drop_last();
        assert forall|i: int| 0 <= i < t.len() implies !white_space(#[trigger] t[i]) by {
            assert(t[i] == s[i]);
        }
        lemma_one_piece(t);
        assert(!white_space(s[s.len() - 1]));
        assert(t.push(s.last()) =~= s);
        let before = seq![t];
        assert(before.drop_last() =~= Seq::<Seq<char>>::empty());
        assert(before.last() == t);
        assert(white_pieces(s) == before.drop_last().push(before.last().push(s.last())));
        assert(white_pieces(s) =~= seq![s]);
    } else {
        assert(s =~= Seq::<char>::empty());
    }
}

/// A text without white space is one word, and an empty text has none.
pub proof fn law_text_without_white_space_is_a_word(s: Seq<char>)
    requires
        forall|i: int| 0 <= i < s.len() ==> !white_space(#[trigger] s[i]),
    ensures
        s.len() > 0 ==> words_of(s) == seq![s],
        s.len() == 0 ==> words_of(s).len() == 0,
{
    lemma_one_piece(s);
    assert(seq![s].drop_last() =~= Seq::<Seq<char>>::empty());
    reveal_with_fuel(filled, 2);
    if s.len() > 0 {
        assert(words_of(s) =~= seq![s]);
    }
}

proof fn lemma_separators_end(tail: Seq<char>, behind: Seq<char>)
    requires
        tail == " - "@ + behind,
        behind.len() > 0,
        behind[0] != ' ',
    ensures
        without_separators(tail) == behind,
{
    reveal_strlit(" - ");
    assert(tail.subrange(0, 3) =~= " - "@);
    assert(tail.skip(3) =~= behind);
    if begins(behind, " - "@) {
        assert(behind.subrange(0, 3)[0] == ' ');
    }
    assert(without_separators(behind) == behind);
}

proof fn lemma_mountinfo_fields(line: Seq<char>, before: Seq<char>, behind: Seq<char>)
    requires
        line == before + " - "@ + behind,
        forall|i: int| 0 <= i < before.len() ==> !occurs_at(line, " - "@, i),
        behind.len() > 0,
        behind[0] != ' ',
    ensures
        ({
            let left = words_of(before);
            let right = words_of(behind);
            mountinfo_fields(line) == if left.len() >= 5 && right.len() >= 2 {
                Some((left[4], right[0], right[1]))
            } else {
                None
            }
        }),
{
    reveal_strlit(" - ");
    let n = before.len() as int;
    assert(line.subrange(n, n + 3) =~= " - "@);
    crate::text::lemma_first_place_is(line, " - "@, 0, n);
    assert(line.take(n) =~= before);
    assert(line.skip(n) =~= " - "@ + behind);
    lemma_separators_end(line.skip(n), behind);
}

/// A line of `mountinfo` tells the fifth word before the mark as the mount point,
/// with its escapes read, and the file system by the word behind the mark, or by
/// the second one where that is not of the form `fuse.<name>`. A line with fewer
/// words tells nothing.
pub proof fn law_mountinfo_lines_are_read(
    line: &str,
    before: &[char],
    behind: &[char],
    left: Vec<String>,
    right: Vec<String>,
    r: Option<RawMount>,
)
    requires
        call_ensures(parse_linux_mountinfo_line, (line,), r),
        line@ == before@ + " - "@ + behind@,
        forall|i: int| 0 <= i < before@.len() ==> !occurs_at(line@, " - "@, i),
        behind@.len() > 0,
        behind@[0] != ' ',
        call_ensures(words, (before,), left),
        call_ensures(words, (behind,), right),
    ensures
        r is Some <==> left@.len() >= 5 && right@.len() >= 2,
        r matches Some(mount) ==> {
            let bytes = unescaped(encode_utf8(left@[4]@), 0);
            &&& valid_utf8(bytes) ==> mount.mount_point@ == bytes
            &&& begins(right@[0]@, "fuse."@) ==> mount.fs_name@ == right@[0]@.skip(5)
            &&& !begins(right@[0]@, "fuse."@) ==> mount.fs_name@ == right@[1]@
        },
{
    reveal_strlit("fuse.");
    lemma_mountinfo_fields(line@, before@, behind@);
    assert(views(left@).len() == left@.len());
    assert(views(right@).len() == right@.len());
    if left@.len() >= 5 && right@.len() >= 2 {
        assert(views(left@)[4] == left@[4]@);
        assert(views(right@)[0] == right@[0]@);
        assert(views(right@)[1] == right@[1]@);
    }
}

/// A line without the mark tells nothing.
pub proof fn law_other_lines_tell_nothing(line: &str, r: Option<RawMount>)
    requires
        call_ensures(parse_linux_mountinfo_line, (line,), r),
        forall|i: int| !occurs_at(line@, " - "@, i),
    ensures
        r is None,
{
    crate::text::lemma_first_place(line@, " - "@, 0);
}

/// A text without a backslash is read as it stands.
pub proof fn law_texts_without_escapes_are_kept(input: &str, r: String)
    requires
        call_ensures(decode_octal, (input,), r),
        forall|j: int|
            0 <= j < encode_utf8(input@).len() ==> #[trigger] encode_utf8(input@)[j] != 0x5c,
    ensures
        r@ == input@,
{
    let bytes = encode_utf8(input@);
    law_plain_text_is_kept(bytes, 0);
    assert(bytes.skip(0) =~= bytes);
    vstd::utf8::encode_utf8_valid_utf8(input@);
    vstd::utf8::encode_utf8_decode_utf8(input@);
}

/// Only the file systems of this project are mounts, each of its own backend; an
/// entry tells neither instance nor age.
pub proof fn law_entries_stand_for_backends(raw: &RawMount, r: Option<MountSummary>)
    requires
        call_ensures(classify_entry, (raw,), r),
    ensures
        raw.fs_name@ == "omnifuse"@ ==> r is Some && r->0.backend@ == "omnifuse"@,
        raw.fs_name@ == "omnifuse-git"@ ==> r is Some && r->0.backend@ == "git"@,
        raw.fs_name@ == "omnifuse-wiki"@ ==> r is Some && r->0.backend@ == "wiki"@,
        raw.fs_name@ == "omnifuse-s3"@ ==> r is Some && r->0.backend@ == "s3"@,
        raw.fs_name@ != "omnifuse"@ && raw.fs_name@ != "omnifuse-git"@ && raw.fs_name@
            != "omnifuse-wiki"@ && raw.fs_name@ != "omnifuse-s3"@ ==> r is None,
        r matches Some(mount) ==> mount.mount_point@ == raw.mount_point@ && mount.instance@.len()
            == 0 && mount.age_secs == 0,
{
    reveal_strlit("omnifuse");
    reveal_strlit("omnifuse-git");
    reveal_strlit("omnifuse-wiki");
    reveal_strlit("omnifuse-s3");
    assert("omnifuse-git"@.len() == 12 && "omnifuse-wiki"@.len() == 13 && "omnifuse-s3"@.len()
        == 11 && "omnifuse"@.len() == 8);
}

/// The first entry at a mount point is found, however the path is written.
pub proof fn law_first_entry_is_found(
    entries: &Vec<MountSummary>,
    target: &FsPath,
    r: Option<usize>,
    i: int,
)
    requires
        call_ensures(lookup, (entries, target), r),
        0 <= i < entries@.len(),
        crate::paths::components(entries@[i].mount_point@) == crate::paths::components(target@),
        forall|j: int|
            0 <= j < i ==> crate::paths::components((#[trigger] entries@[j]).mount_point@)
                != crate::paths::components(target@),
    ensures
        r == Some(i as usize),
{
    assert(same_path(entries@[i].mount_point@, target@));
    if let Some(k) = r {
        if k < i {
            assert(same_path(entries@[k as int].mount_point@, target@));
        }
    }
}

/// The command that unmounts, and what is said where it fails: the command, the
/// mount point and what it said itself.
pub proof fn law_unmount_commands(
    platform: Platform,
    r: Result<UnmountCommand, String>,
    command: &UnmountCommand,
    mount_point: &FsPath,
    stderr: &str,
    message: String,
)
    requires
        call_ensures(unmount_command, (platform,), r),
        call_ensures(unmount_failure, (command, mount_point, stderr), message),
    ensures
        platform is Linux ==> (r matches Ok(c) && c.program@ == "fusermount"@ && c.option is Some
            && c.option->0@ == "-u"@),
        platform is MacOs ==> (r matches Ok(c) && c.program@ == "umount"@ && c.option is None),
        !(platform is Linux) && !(platform is MacOs) ==> r is Err && r->Err_0@
            == "unmount is only supported on macOS and Linux in V1"@,
        command.option matches Some(option) ==> message@ == "`"@ + command.program@ + (" "@
            + option@) + " "@ + utf8_lossy(mount_point@) + "` failed: "@ + stderr@,
        command.option is None ==> message@ == "`"@ + command.program@ + Seq::<char>::empty() + " "@
            + utf8_lossy(mount_point@) + "` failed: "@ + stderr@,
{
}

proof fn lemma_last_place(s: Seq<char>, needle: Seq<char>, before: int, i: int)
    requires
        0 <= i < before,
        occurs_at(s, needle, i),
        forall|j: int| i < j < before ==> !occurs_at(s, needle, j),
    ensures
        last_place(s, needle, before) == Some(i),
    decreases before,
{
    if i < before - 1 {
        assert(!occurs_at(s, needle, before - 1));
        lemma_last_place(s, needle, before - 1, i);
    }
}

/// A line of macOS's `mount` tells what stands between ` on ` and the last ` (` as
/// the mount point, and the file system by its source where its type is FUSE's,
/// else by its type.
pub proof fn law_macos_lines_are_read(
    line: &str,
    source: Seq<char>,
    mount_point: Seq<char>,
    fstype: Seq<char>,
    rest: Seq<char>,
    r: Option<RawMount>,
)
    requires
        call_ensures(parse_macos_mount_line, (line,), r),
        line@ == source + " on "@ + mount_point + " ("@ + fstype + ","@ + rest + ")"@,
        forall|i: int| 0 <= i < source.len() ==> !occurs_at(line@, " on "@, i),
        forall|i: int|
            source.len() + 4 + mount_point.len() < i <= line@.len() ==> !occurs_at(
                line@,
                " ("@,
                i,
            ),
        !fstype.contains(','),
        trimmed(fstype) == fstype,
    ensures
        r is Some,
        r->0.mount_point@ == encode_utf8(mount_point),
        begins(fstype, "macfuse"@) || fstype == "fuse"@ ==> r->0.fs_name@ == source,
        !(begins(fstype, "macfuse"@) || fstype == "fuse"@) ==> r->0.fs_name@ == fstype,
{
    reveal_strlit(" on ");
    reveal_strlit(" (");
    reveal_strlit(",");
    reveal_strlit(")");
    let s = line@;
    let on = source.len() as int;
    let options = on + 4 + mount_point.len();
    assert(s.subrange(on, on + 4) =~= " on "@);
    crate::text::lemma_first_place_is(s, " on "@, 0, on);
    assert(s.subrange(options, options + 2) =~= " ("@);
    assert forall|j: int| options < j < s.len() + 1 implies !occurs_at(s, " ("@, j) by {
        assert(!occurs_at(s, " ("@, j));
    }
    lemma_last_place(s, " ("@, (s.len() + 1) as int, options);
    assert(s.take(on) =~= source);
    assert(s.subrange(on + 4, options) =~= mount_point);
    let opts = s.subrange(options + 2, s.len() - 1);
    assert(opts =~= fstype + ","@ + rest);
    let n = fstype.len() as int;
    assert(opts.subrange(n, n + 1) =~= ","@);
    assert forall|j: int| 0 <= j < n implies !occurs_at(opts, ","@, j) by {
        if occurs_at(opts, ","@, j) {
            assert(opts.subrange(j, j + 1)[0] == ',');
            assert(fstype[j] == ',');
        }
    }
    crate::text::lemma_first_place_is(opts, ","@, 0, n);
    assert(opts.take(n) =~= fstype);
}

/// A line of `mountinfo` in which no mount point holds a backslash can be decoded.
pub proof fn law_lines_without_escapes_are_decodable(line: &str, r: bool)
    requires
        call_ensures(mountinfo_line_is_decodable, (line,), r),
    ensures
        mountinfo_fields(line@) is None ==> r,
        mountinfo_fields(line@) matches Some(fields) && !encode_utf8(fields.0).contains(0x5c)
            ==> r,
{
}

/// A line of macOS's `mount` without a mark before the mount point or before the
/// options tells of no mount, and can be read.
pub proof fn law_other_macos_lines_tell_nothing(line: &str, readable: bool, r: Option<RawMount>)
    requires
        call_ensures(macos_line_is_readable, (line,), readable),
        call_ensures(parse_macos_mount_line, (line,), r),
        (forall|i: int| 0 <= i <= line@.len() ==> !occurs_at(line@, " on "@, i)) || (forall|i: int|
            0 <= i <= line@.len() ==> !occurs_at(line@, " ("@, i)),
    ensures
        readable,
        r is None,
{
    crate::text::lemma_first_place(line@, " on "@, 0);
    lemma_last_place_occurs(line@, " ("@, (line@.len() + 1) as int);
}

proof fn lemma_last_place_occurs(s: Seq<char>, needle: Seq<char>, before: int)
    requires
        before <= s.len() + 1,
    ensures
        last_place(s, needle, before) matches Some(i) ==> 0 <= i <= s.len() && occurs_at(
            s,
            needle,
            i,
        ),
    decreases before,
{
    if before > 0 {
        lemma_last_place_occurs(s, needle, before - 1);
    }
}

/// A line of macOS's `mount` with only a type in its brackets is read like one with
/// further options, and is readable.
pub proof fn law_macos_lines_with_only_a_type_are_read(
    line: &str,
    source: Seq<char>,
    mount_point: Seq<char>,
    fstype: Seq<char>,
    readable: bool,
    r: Option<RawMount>,
)
    requires
        call_ensures(macos_line_is_readable, (line,), readable),
        call_ensures(parse_macos_mount_line, (line,), r),
        line@ == source + " on "@ + mount_point + " ("@ + fstype + ")"@,
        forall|i: int| 0 <= i < source.len() ==> !occurs_at(line@, " on "@, i),
        forall|i: int|
            source.len() + 4 + mount_point.len() < i <= line@.len() ==> !occurs_at(
                line@,
                " ("@,
                i,
            ),
        !fstype.contains(','),
        trimmed(fstype) == fstype,
    ensures
        readable,
        r is Some,
        r->0.mount_point@ == encode_utf8(mount_point),
        begins(fstype, "macfuse"@) || fstype == "fuse"@ ==> r->0.fs_name@ == source,
        !(begins(fstype, "macfuse"@) || fstype == "fuse"@) ==> r->0.fs_name@ == fstype,
{
    reveal_strlit(" on ");
    reveal_strlit(" (");
    reveal_strlit(",");
    reveal_strlit(")");
    let s = line@;
    let on = source.len() as int;
    let options = on + 4 + mount_point.len();
    assert(s.subrange(on, on + 4) =~= " on "@);
    crate::text::lemma_first_place_is(s, " on "@, 0, on);
    assert(s.subrange(options, options + 2) =~= " ("@);
    assert forall|j: int| options < j < s.len() + 1 implies !occurs_at(s, " ("@, j) by {
        assert(!occurs_at(s, " ("@, j));
    }
    lemma_last_place(s, " ("@, (s.len() + 1) as int, options);
    assert(s.take(on) =~= source);
    assert(s.subrange(on + 4, options) =~= mount_point);
    assert(s.last() == ')');
    let opts = s.subrange(options + 2, s.len() - 1);
    assert(opts =~= fstype);
    crate::text::lemma_first_place(opts, ","@, 0);
    if let Some(j) = first_place(opts, ","@, 0) {
        assert(opts.subrange(j, j + 1)[0] == ',');
        assert(fstype[j] == ',');
    }
}

} // verus!
