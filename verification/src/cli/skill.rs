//! The manual for agents: when it is asked for, and what it says.
//!
//! Every way to ask for help works for the manual too.
use vstd::prelude::*;

use crate::cli::manual::{
    CHECK, FOR_LANGCHAIN, FOR_OPENAI, GEN_CONFIG, INTRO, MOUNT_GIT, MOUNT_S3, MOUNT_WIKI,
    SKILL_SELF,
};
use crate::text::{
    begins, ends, ends_with, occurs, occurs_at, same, slice_text, starts_with, to_chars,
};

verus! {

/// A command with its subcommands.
#[derive(Debug)]
pub struct CommandTree {
    /// Name.
    pub name: String,
    /// One line about it, where there is one.
    pub about: Option<String>,
    /// Full help.
    pub help: String,
    /// Subcommands.
    pub subcommands: Vec<CommandTree>,
}

/// A request for the manual.
#[derive(Debug)]
pub struct SkillInvocation {
    /// Path of the subcommand.
    pub path: Vec<String>,
    /// Tool that the manual is for.
    pub for_tool: Option<String>,
}

/// The characters of each text of a list.
pub open spec fn views(list: Seq<String>) -> Seq<Seq<char>> {
    list.map_values(|s: String| s@)
}

/// What the arguments so far say.
pub struct Scan {
    /// The manual was asked for.
    pub has_skill: bool,
    /// The tool that it is for.
    pub for_tool: Option<Seq<char>>,
    /// The arguments that are no options.
    pub positionals: Seq<Seq<char>>,
}

/// What the arguments from position `i` on add: everything behind `--` is left
/// alone, and `--for` takes the argument behind it.
pub open spec fn scanned(args: Seq<Seq<char>>, i: int, s: Scan) -> Scan
    decreases args.len() - i,
{
    if i < 0 || i >= args.len() || args[i] == "--"@ {
        s
    } else if args[i] == "--skill"@ {
        scanned(args, i + 1, Scan { has_skill: true, ..s })
    } else if begins(args[i], "--for="@) {
        scanned(
            args,
            i + 1,
            Scan { for_tool: Some(args[i].skip("--for="@.len() as int)), ..s },
        )
    } else if args[i] == "--for"@ {
        if i + 1 < args.len() {
            scanned(args, i + 2, Scan { for_tool: Some(args[i + 1]), ..s })
        } else {
            s
        }
    } else if begins(args[i], "-"@) {
        scanned(args, i + 1, s)
    } else {
        scanned(args, i + 1, Scan { positionals: s.positionals.push(args[i]), ..s })
    }
}

/// What the arguments say before any was read.
pub open spec fn no_scan() -> Scan {
    Scan { has_skill: false, for_tool: None, positionals: Seq::empty() }
}

/// The position of a subcommand, from `from` on.
pub open spec fn subcommand_from(list: Seq<CommandTree>, name: Seq<char>, from: int) -> Option<int>
    decreases list.len() - from,
{
    if from < 0 || from >= list.len() {
        None
    } else if list[from].name@ == name {
        Some(from)
    } else {
        subcommand_from(list, name, from + 1)
    }
}

/// How many of the names, from the first on, lead from subcommand to subcommand.
pub open spec fn chain_len(tree: CommandTree, names: Seq<Seq<char>>) -> nat
    decreases names.len(),
{
    if names.len() == 0 {
        0
    } else {
        match subcommand_from(tree.subcommands@, names[0], 0) {
            Some(i) => 1 + chain_len(tree.subcommands@[i], names.drop_first()),
            None => 0,
        }
    }
}

/// The command that the names lead to.
pub open spec fn chain_end(tree: CommandTree, names: Seq<Seq<char>>) -> CommandTree
    decreases names.len(),
{
    if names.len() == 0 {
        tree
    } else {
        match subcommand_from(tree.subcommands@, names[0], 0) {
            Some(i) => chain_end(tree.subcommands@[i], names.drop_first()),
            None => tree,
        }
    }
}

fn find_subcommand(list: &Vec<CommandTree>, name: &str) -> (r: Option<usize>)
    ensures
        match r {
            Some(i) => subcommand_from(list@, name@, 0) == Some(i as int) && i < list@.len(),
            None => subcommand_from(list@, name@, 0) is None,
        },
{
    let mut i: usize = 0;
    while i < list.len()
        invariant
            i <= list@.len(),
            subcommand_from(list@, name@, 0) == subcommand_from(list@, name@, i as int),
        decreases list@.len() - i,
    {
        if same(list[i].name.as_str(), name) {
            return Some(i);
        }
        i += 1;
    }
    None
}

/// Follows names from subcommand to subcommand as far as they lead.
fn resolve_subcommand_path<'a>(tree: &'a CommandTree, names: &Vec<String>) -> (r: (
    usize,
    &'a CommandTree,
))
    ensures
        r.0 == chain_len(*tree, views(names@)),
        r.0 <= names@.len(),
        *r.1 == chain_end(*tree, views(names@)),
{
    let ghost all = views(names@);
    let mut cur: &CommandTree = tree;
    let mut i: usize = 0;
    assert(all.skip(0) =~= all);
    while i < names.len()
        invariant
            i <= names@.len(),
            all == views(names@),
            chain_len(*tree, all) == i + chain_len(*cur, all.skip(i as int)),
            chain_end(*tree, all) == chain_end(*cur, all.skip(i as int)),
        decreases names@.len() - i,
    {
        assert(all.skip(i as int)[0] == names@[i as int]@);
        assert(all.skip(i as int).drop_first() =~= all.skip(i + 1));
        match find_subcommand(&cur.subcommands, names[i].as_str()) {
            Some(k) => {
                cur = &cur.subcommands[k];
            },
            None => {
                return (i, cur);
            },
        }
        i += 1;
    }
    assert(all.skip(i as int) =~= Seq::<Seq<char>>::empty());
    (i, cur)
}

/// Looks for `--skill` in the arguments of the process, the first of which is
/// its name. The path is as much of the arguments that are no options as leads
/// from subcommand to subcommand.
pub fn detect_skill_flag(argv: &Vec<String>, root: &CommandTree) -> (r: Option<SkillInvocation>)
    ensures
        ({
            let s = scanned(views(argv@), 1, no_scan());
            match r {
                None => !s.has_skill,
                Some(inv) => {
                    &&& s.has_skill
                    &&& views(inv.path@) == s.positionals.take(
                        chain_len(*root, s.positionals) as int,
                    )
                    &&& match inv.for_tool {
                        Some(tool) => s.for_tool == Some(tool@),
                        None => s.for_tool is None,
                    }
                },
            }
        }),
{
    let mut has_skill: bool = false;
    let mut for_tool: Option<String> = None;
    let mut positionals: Vec<String> = Vec::new();
    let for_prefix = to_chars("--for=");
    let dash = to_chars("-");
    let ghost args = views(argv@);
    let mut i: usize = 1;
    let mut open: bool = true;
    assert(views(positionals@) =~= Seq::<Seq<char>>::empty());
    while open && i < argv.len()
        invariant
            1 <= i,
            args == views(argv@),
            for_prefix@ == "--for="@,
            dash@ == "-"@,
            scanned(args, 1, no_scan()) == if open {
                scanned(args, i as int, scan_of(has_skill, for_tool, positionals@))
            } else {
                scan_of(has_skill, for_tool, positionals@)
            },
        decreases (if open {
                1int
            } else {
                0int
            }), argv@.len() - i,
    {
        let arg = argv[i].as_str();
        assert(args[i as int] == arg@);
        let chars = to_chars(arg);
        if same(arg, "--") {
            open = false;
        } else if same(arg, "--skill") {
            has_skill = true;
            i += 1;
        } else if starts_with(&chars, &for_prefix) {
            let tool = slice_text(&chars, for_prefix.len(), chars.len());
            assert(tool@ =~= arg@.skip("--for="@.len() as int));
            for_tool = Some(tool);
            i += 1;
        } else if same(arg, "--for") {
            if argv.len() - i > 1 {
                assert(args[i + 1] == argv@[i + 1]@);
                for_tool = Some(argv[i + 1].clone());
                i += 2;
            } else {
                open = false;
            }
        } else if starts_with(&chars, &dash) {
            i += 1;
        } else {
            let ghost before = positionals@;
            positionals.push(argv[i].clone());
            assert(views(positionals@) =~= views(before).push(arg@));
            i += 1;
        }
    }
    if !has_skill {
        return None;
    }
    let (len, _) = resolve_subcommand_path(root, &positionals);
    let ghost all = positionals@;
    positionals.truncate(len);
    assert(views(positionals@) =~= views(all).take(len as int));
    Some(SkillInvocation { path: positionals, for_tool })
}

/// What was read of the arguments so far.
spec fn scan_of(has_skill: bool, for_tool: Option<String>, positionals: Seq<String>) -> Scan {
    Scan {
        has_skill,
        for_tool: match for_tool {
            Some(tool) => Some(tool@),
            None => None,
        },
        positionals: views(positionals),
    }
}

/// The text with a blank line behind it.
pub open spec fn with_blank_line(s: Seq<char>) -> Seq<char> {
    if ends(s, "\n\n"@) {
        s
    } else if ends(s, "\n"@) {
        s + "\n"@
    } else {
        s + "\n"@ + "\n"@
    }
}

fn text_ends(s: &str, suffix: &str) -> (r: bool)
    ensures
        r == ends(s@, suffix@),
{
    let chars = to_chars(s);
    let tail = to_chars(suffix);
    ends_with(&chars, &tail)
}

fn ensure_trailing_blank_line(s: &mut String)
    ensures
        final(s)@ == with_blank_line(old(s)@),
{
    if !text_ends(s.as_str(), "\n\n") {
        if !text_ends(s.as_str(), "\n") {
            s.append("\n");
        }
        s.append("\n");
    }
}

/// What is added to the manual for a tool, as an installation brings it.
#[derive(Debug)]
pub struct ToolTail {
    /// Name of the tool.
    pub tool: String,
    /// Text.
    pub text: String,
}

/// The position of the text for a tool, from `from` on.
pub open spec fn tail_from(tails: Seq<ToolTail>, tool: Seq<char>, from: int) -> Option<int>
    decreases tails.len() - from,
{
    if from < 0 || from >= tails.len() {
        None
    } else if tails[from].tool@ == tool {
        Some(from)
    } else {
        tail_from(tails, tool, from + 1)
    }
}

/// What is added to the manual for a tool: one of the texts of the program, or
/// one that the installation brings.
pub open spec fn tail_of(tool: Seq<char>, tails: Seq<ToolTail>) -> Option<Seq<char>> {
    if tool == "openai"@ {
        Some(FOR_OPENAI@)
    } else if tool == "langchain"@ {
        Some(FOR_LANGCHAIN@)
    } else {
        match tail_from(tails, tool, 0) {
            Some(i) => Some(tails[i].text@),
            None => None,
        }
    }
}

fn tail_for_tool<'a>(tool: &str, tails: &'a Vec<ToolTail>) -> (r: Option<&'a str>)
    ensures
        match r {
            Some(text) => tail_of(tool@, tails@) == Some(text@),
            None => tail_of(tool@, tails@) is None,
        },
{
    if same(tool, "openai") {
        return Some(FOR_OPENAI);
    }
    if same(tool, "langchain") {
        return Some(FOR_LANGCHAIN);
    }
    let mut i: usize = 0;
    while i < tails.len()
        invariant
            i <= tails@.len(),
            tool@ != "openai"@,
            tool@ != "langchain"@,
            tail_from(tails@, tool@, 0) == tail_from(tails@, tool@, i as int),
        decreases tails@.len() - i,
    {
        if same(tails[i].tool.as_str(), tool) {
            assert(tail_from(tails@, tool@, i as int) == Some(i as int));
            return Some(tails[i].text.as_str());
        }
        i += 1;
    }
    None
}

/// A line of the index for a subcommand.
pub open spec fn index_line(sub: CommandTree) -> Seq<char> {
    "- `of "@ + sub.name@ + "`"@ + match sub.about {
        Some(about) => " — "@ + about@,
        None => Seq::empty(),
    } + "\n"@
}

/// The lines of the index for the first `k` subcommands.
pub open spec fn index_lines(list: Seq<CommandTree>, k: int) -> Seq<char>
    decreases k,
{
    if k <= 0 {
        Seq::empty()
    } else {
        index_lines(list, k - 1) + index_line(list[k - 1])
    }
}

/// The index of subcommands.
pub open spec fn index_of(tree: CommandTree) -> Seq<char> {
    "## Subcommand index\n\n"@ + index_lines(tree.subcommands@, tree.subcommands@.len() as int)
        + "\n"@ + "Run `of skill <subcommand>` or `of <subcommand> --skill` for\n"@
        + "a section dedicated to that subcommand.\n"@
}

fn push_index(tree: &CommandTree, out: &mut String)
    ensures
        final(out)@ == old(out)@ + index_of(*tree),
{
    out.append("## Subcommand index\n\n");
    let ghost start = out@;
    let mut i: usize = 0;
    assert(start + index_lines(tree.subcommands@, 0) =~= start);
    while i < tree.subcommands.len()
        invariant
            i <= tree.subcommands@.len(),
            out@ == start + index_lines(tree.subcommands@, i as int),
        decreases tree.subcommands@.len() - i,
    {
        let ghost before = out@;
        let sub = &tree.subcommands[i];
        out.append("- `of ");
        out.append(sub.name.as_str());
        out.append("`");
        match &sub.about {
            Some(about) => {
                out.append(" — ");
                out.append(about.as_str());
            },
            None => {},
        }
        out.append("\n");
        assert(out@ =~= before + index_line(*sub));
        assert(out@ =~= start + index_lines(tree.subcommands@, i + 1));
        i += 1;
    }
    out.append("\n");
    out.append("Run `of skill <subcommand>` or `of <subcommand> --skill` for\n");
    out.append("a section dedicated to that subcommand.\n");
    assert(out@ =~= old(out)@ + index_of(*tree));
}

/// Texts with a space between them.
pub open spec fn spaced(list: Seq<Seq<char>>) -> Seq<char>
    decreases list.len(),
{
    if list.len() == 0 {
        Seq::empty()
    } else if list.len() == 1 {
        list[0]
    } else {
        spaced(list.drop_last()) + " "@ + list.last()
    }
}

fn push_spaced(list: &Vec<String>, out: &mut String)
    ensures
        final(out)@ == old(out)@ + spaced(views(list@)),
{
    let ghost all = views(list@);
    let mut i: usize = 0;
    assert(all.take(0) =~= Seq::<Seq<char>>::empty());
    assert(out@ + spaced(all.take(0)) =~= out@);
    while i < list.len()
        invariant
            i <= list@.len(),
            all == views(list@),
            out@ == old(out)@ + spaced(all.take(i as int)),
        decreases list@.len() - i,
    {
        let ghost now = all.take(i + 1);
        assert(now.drop_last() =~= all.take(i as int));
        assert(now.last() == list@[i as int]@);
        if i > 0 {
            out.append(" ");
        }
        out.append(list[i].as_str());
        assert(out@ =~= old(out)@ + spaced(now));
        i += 1;
    }
    assert(all.take(i as int) =~= all);
}

/// A line end, unless the text ends with one.
pub open spec fn with_line_end(s: Seq<char>) -> Seq<char> {
    if ends(s, "\n"@) {
        s
    } else {
        s + "\n"@
    }
}

/// The section for a subcommand without one of its own: its help.
pub open spec fn fallback_of(path: Seq<Seq<char>>, help: Seq<char>) -> Seq<char> {
    with_line_end(
        "## `of "@ + spaced(path) + "`\n"@ + "\n"@
            + "No dedicated skill section is registered for this subcommand. The\n"@
            + "clap-generated help is included verbatim for completeness:\n\n"@ + "```\n"@ + help,
    ) + "```\n"@
}

fn fallback_section(path: &Vec<String>, help: &str) -> (r: String)
    ensures
        r@ == fallback_of(views(path@), help@),
{
    let mut out = "## `of ".to_owned();
    push_spaced(path, &mut out);
    out.append("`\n");
    out.append("\n");
    out.append("No dedicated skill section is registered for this subcommand. The\n");
    out.append("clap-generated help is included verbatim for completeness:\n\n");
    out.append("```\n");
    out.append(help);
    if !text_ends(out.as_str(), "\n") {
        out.append("\n");
    }
    out.append("```\n");
    out
}

/// Whether a path is the given one of one name.
pub open spec fn is_path1(path: Seq<Seq<char>>, a: Seq<char>) -> bool {
    path.len() == 1 && path[0] == a
}

/// Whether a path is the given one of two names.
pub open spec fn is_path2(path: Seq<Seq<char>>, a: Seq<char>, b: Seq<char>) -> bool {
    path.len() == 2 && path[0] == a && path[1] == b
}

/// The manual so far with the section for a path.
pub open spec fn with_section(s: Seq<char>, path: Seq<Seq<char>>, tree: CommandTree) -> Seq<char> {
    if path.len() == 0 {
        s + index_of(tree)
    } else if is_path2(path, "mount"@, "git"@) {
        s + MOUNT_GIT@
    } else if is_path2(path, "mount"@, "wiki"@) {
        s + MOUNT_WIKI@
    } else if is_path2(path, "mount"@, "s3"@) {
        s + MOUNT_S3@
    } else if is_path1(path, "mount"@) {
        with_blank_line(s + MOUNT_GIT@) + MOUNT_WIKI@
    } else if is_path1(path, "check"@) {
        s + CHECK@
    } else if is_path1(path, "gen-config"@) {
        s + GEN_CONFIG@
    } else if is_path1(path, "skill"@) {
        s + SKILL_SELF@
    } else {
        s + fallback_of(path, chain_end(tree, path).help@)
    }
}

/// The start of every manual: the version and the introduction.
pub open spec fn manual_head(version: Seq<char>) -> Seq<char> {
    with_blank_line("<!-- of version: "@ + version + " -->\n"@ + "\n"@ + INTRO@)
}

/// The manual for a path and a tool.
pub open spec fn manual_text(
    path: Seq<Seq<char>>,
    for_tool: Option<Seq<char>>,
    version: Seq<char>,
    tree: CommandTree,
    tails: Seq<ToolTail>,
) -> Seq<char> {
    let body = with_blank_line(with_section(manual_head(version), path, tree));
    match for_tool {
        Some(tool) => match tail_of(tool, tails) {
            Some(tail) => with_blank_line(body + tail),
            None => body,
        },
        None => body,
    }
}

fn path_is(path: &Vec<String>, names: &[&str]) -> (r: bool)
    requires
        1 <= names@.len() <= 2,
    ensures
        names@.len() == 1 ==> r == is_path1(views(path@), names@[0]@),
        names@.len() == 2 ==> r == is_path2(views(path@), names@[0]@, names@[1]@),
{
    if path.len() != names.len() {
        return false;
    }
    assert(views(path@)[0] == path@[0]@);
    if !same(path[0].as_str(), names[0]) {
        return false;
    }
    if names.len() == 1 {
        return true;
    }
    assert(views(path@)[1] == path@[1]@);
    same(path[1].as_str(), names[1])
}

/// Writes the manual for a path and a tool.
pub fn render(
    path: &Vec<String>,
    for_tool: Option<&str>,
    version: &str,
    root: &CommandTree,
    tails: &Vec<ToolTail>,
) -> (r: String)
    ensures
        r@ == manual_text(
            views(path@),
            match for_tool {
                Some(tool) => Some(tool@),
                None => None,
            },
            version@,
            *root,
            tails@,
        ),
{
    let mut out = "<!-- of version: ".to_owned();
    out.append(version);
    out.append(" -->\n");
    out.append("\n");
    out.append(INTRO);
    ensure_trailing_blank_line(&mut out);
    assert(out@ == manual_head(version@));
    let ghost p = views(path@);
    assert(p.len() == path@.len());
    if path.len() == 0 {
        push_index(root, &mut out);
    } else if path_is(path, &["mount", "git"]) {
        out.append(MOUNT_GIT);
    } else if path_is(path, &["mount", "wiki"]) {
        out.append(MOUNT_WIKI);
    } else if path_is(path, &["mount", "s3"]) {
        out.append(MOUNT_S3);
    } else if path_is(path, &["mount"]) {
        out.append(MOUNT_GIT);
        ensure_trailing_blank_line(&mut out);
        out.append(MOUNT_WIKI);
    } else if path_is(path, &["check"]) {
        out.append(CHECK);
    } else if path_is(path, &["gen-config"]) {
        out.append(GEN_CONFIG);
    } else if path_is(path, &["skill"]) {
        out.append(SKILL_SELF);
    } else {
        let (_, command) = resolve_subcommand_path(root, path);
        let section = fallback_section(path, command.help.as_str());
        out.append(section.as_str());
    }
    assert(out@ == with_section(manual_head(version@), p, *root));
    ensure_trailing_blank_line(&mut out);
    if let Some(tool) = for_tool {
        if let Some(tail) = tail_for_tool(tool, tails) {
            out.append(tail);
            ensure_trailing_blank_line(&mut out);
        }
    }
    out
}

/// Every manual starts with the version of the program.
pub proof fn law_manual_starts_with_version(
    path: Seq<Seq<char>>,
    for_tool: Option<Seq<char>>,
    version: Seq<char>,
    tree: CommandTree,
    tails: Seq<ToolTail>,
)
    ensures
        begins(
            manual_text(path, for_tool, version, tree, tails),
            "<!-- of version: "@ + version + " -->\n"@,
        ),
{
    let mark = "<!-- of version: "@ + version + " -->\n"@;
    let text = manual_text(path, for_tool, version, tree, tails);
    let head = "<!-- of version: "@ + version + " -->\n"@ + "\n"@ + INTRO@;
    assert(head.take(mark.len() as int) =~= mark);
    lemma_blank_line_keeps(head, mark.len() as int);
    let s = manual_head(version);
    lemma_section_keeps(s, path, tree, mark.len() as int);
    let t = with_section(s, path, tree);
    lemma_blank_line_keeps(t, mark.len() as int);
    let body = with_blank_line(t);
    match for_tool {
        Some(tool) => match tail_of(tool, tails) {
            Some(tail) => {
                assert((body + tail).take(mark.len() as int) =~= body.take(mark.len() as int));
                lemma_blank_line_keeps(body + tail, mark.len() as int);
            },
            None => {},
        },
        None => {},
    }
    assert(text.subrange(0, mark.len() as int) =~= text.take(mark.len() as int));
}

proof fn lemma_blank_line_keeps(s: Seq<char>, n: int)
    requires
        0 <= n <= s.len(),
    ensures
        n <= with_blank_line(s).len(),
        with_blank_line(s).take(n) == s.take(n),
{
    assert(with_blank_line(s).take(n) =~= s.take(n));
}

proof fn lemma_section_keeps(s: Seq<char>, path: Seq<Seq<char>>, tree: CommandTree, n: int)
    requires
        0 <= n <= s.len(),
    ensures
        n <= with_section(s, path, tree).len(),
        with_section(s, path, tree).take(n) == s.take(n),
{
    if is_path1(path, "mount"@) {
        let t = s + MOUNT_GIT@;
        assert(t.take(n) =~= s.take(n));
        lemma_blank_line_keeps(t, n);
    }
    assert(with_section(s, path, tree).take(n) =~= s.take(n));
}

proof fn lemma_blank_line_ends(s: Seq<char>)
    ensures
        ends(with_blank_line(s), "\n\n"@),
{
    reveal_strlit("\n\n");
    reveal_strlit("\n");
    let t = with_blank_line(s);
    if !ends(s, "\n\n"@) {
        if ends(s, "\n"@) {
            assert(s.subrange(s.len() - 1, s.len() as int)[0] == '\n');
            assert(s.last() == '\n');
        }
        assert(t.subrange(t.len() - 2, t.len() as int) =~= "\n\n"@);
    }
}

/// Every manual ends with a blank line.
pub proof fn law_manual_ends_with_blank_line(
    path: Seq<Seq<char>>,
    for_tool: Option<Seq<char>>,
    version: Seq<char>,
    tree: CommandTree,
    tails: Seq<ToolTail>,
)
    ensures
        ends(manual_text(path, for_tool, version, tree, tails), "\n\n"@),
{
    let section = with_section(manual_head(version), path, tree);
    lemma_blank_line_ends(section);
    if let Some(tool) = for_tool {
        if let Some(tail) = tail_of(tool, tails) {
            lemma_blank_line_ends(with_blank_line(section) + tail);
        }
    }
}

/// The manual for a tool begins with the manual that everybody gets; what is
/// added for a known tool follows.
pub proof fn law_tool_manual_begins_with_the_plain_one(
    path: Seq<Seq<char>>,
    tool: Seq<char>,
    version: Seq<char>,
    tree: CommandTree,
    tails: Seq<ToolTail>,
)
    ensures
        begins(
            manual_text(path, Some(tool), version, tree, tails),
            manual_text(path, None, version, tree, tails),
        ),
        tail_of(tool, tails) is Some ==> begins(
            manual_text(path, Some(tool), version, tree, tails),
            manual_text(path, None, version, tree, tails) + tail_of(tool, tails)->0,
        ),
{
    let plain = manual_text(path, None, version, tree, tails);
    let text = manual_text(path, Some(tool), version, tree, tails);
    match tail_of(tool, tails) {
        Some(tail) => {
            lemma_blank_line_keeps(plain + tail, plain.len() as int);
            lemma_blank_line_keeps(plain + tail, (plain + tail).len() as int);
            assert((plain + tail).take((plain + tail).len() as int) =~= plain + tail);
            assert((plain + tail).take(plain.len() as int) =~= plain);
            assert(text.subrange(0, plain.len() as int) =~= text.take(plain.len() as int));
            assert(text.subrange(0, (plain + tail).len() as int) =~= text.take(
                (plain + tail).len() as int,
            ));
        },
        None => {
            assert(text.subrange(0, plain.len() as int) =~= plain);
        },
    }
}

/// A tool that is not known gets the manual that everybody gets.
pub proof fn law_unknown_tool_changes_nothing(
    path: Seq<Seq<char>>,
    tool: Seq<char>,
    version: Seq<char>,
    tree: CommandTree,
    tails: Seq<ToolTail>,
)
    requires
        tail_of(tool, tails) is None,
    ensures
        manual_text(path, Some(tool), version, tree, tails) == manual_text(
            path,
            None,
            version,
            tree,
            tails,
        ),
{
}

/// The option behind a subcommand asks for the same manual as the subcommand
/// `skill` with its path: the path that is detected is the one that was given.
pub proof fn law_option_and_subcommand_agree(
    program: Seq<char>,
    path: Seq<Seq<char>>,
    tree: CommandTree,
)
    requires
        chain_len(tree, path) == path.len(),
        forall|i: int| 0 <= i < path.len() ==> !begins(#[trigger] path[i], "-"@),
    ensures
        ({
            let s = scanned(seq![program] + path + seq!["--skill"@], 1, no_scan());
            &&& s.has_skill
            &&& s.for_tool is None
            &&& s.positionals.take(chain_len(tree, s.positionals) as int) == path
        }),
{
    let args = seq![program] + path + seq!["--skill"@];
    lemma_scan_names(program, path, 0);
    let done = Scan { has_skill: false, for_tool: None, positionals: path };
    assert(path.take(0) =~= Seq::<Seq<char>>::empty());
    assert(path.take(path.len() as int) =~= path);
    assert(args[(path.len() + 1) as int] == "--skill"@);
    reveal_strlit("--skill");
    reveal_strlit("--");
    reveal_with_fuel(scanned, 2);
    assert("--skill"@.len() != "--"@.len());
    assert(scanned(args, (path.len() + 1) as int, done) == (Scan { has_skill: true, ..done }));
}

proof fn lemma_scan_names(program: Seq<char>, path: Seq<Seq<char>>, i: int)
    requires
        0 <= i <= path.len(),
        forall|i: int| 0 <= i < path.len() ==> !begins(#[trigger] path[i], "-"@),
    ensures
        scanned(
            seq![program] + path + seq!["--skill"@],
            i + 1,
            Scan { has_skill: false, for_tool: None, positionals: path.take(i) },
        ) == scanned(
            seq![program] + path + seq!["--skill"@],
            (path.len() + 1) as int,
            Scan {
                has_skill: false,
                for_tool: None,
                positionals: path.take(path.len() as int),
            },
        ),
    decreases path.len() - i,
{
    if i < path.len() {
        let args = seq![program] + path + seq!["--skill"@];
        assert(args[i + 1] == path[i]);
        reveal_strlit("-");
        reveal_strlit("--");
        reveal_strlit("--skill");
        reveal_strlit("--for=");
        reveal_strlit("--for");
        assert(!begins(path[i], "-"@));
        assert(path[i].len() > 0 ==> path[i][0] != '-') by {
            if path[i].len() > 0 && path[i][0] == '-' {
                assert(path[i].subrange(0, 1) =~= "-"@);
            }
        }
        assert("--"@[0] == '-' && "--skill"@[0] == '-' && "--for"@[0] == '-');
        if begins(path[i], "--for="@) {
            assert(path[i].subrange(0, 6)[0] == '-');
        }
        assert(path.take(i).push(path[i]) =~= path.take(i + 1));
        lemma_scan_names(program, path, i + 1);
    }
}

proof fn lemma_holds_between(before: Seq<char>, x: Seq<char>, behind: Seq<char>)
    ensures
        occurs(before + x + behind, x),
{
    let s = before + x + behind;
    let i = before.len() as int;
    assert(s.subrange(i, i + x.len()) =~= x);
    assert(occurs_at(s, x, i));
}

proof fn lemma_holds_behind(s: Seq<char>, n: int, x: Seq<char>)
    requires
        0 <= n <= s.len(),
        occurs(s.take(n), x),
    ensures
        occurs(s, x),
{
    let i = choose|i: int| occurs_at(s.take(n), x, i);
    assert(s.subrange(i, i + x.len()) =~= s.take(n).subrange(i, i + x.len()));
    assert(occurs_at(s, x, i));
}

/// The manual begins with its head and the section for the path.
proof fn lemma_manual_begins_with_section(
    path: Seq<Seq<char>>,
    for_tool: Option<Seq<char>>,
    version: Seq<char>,
    tree: CommandTree,
    tails: Seq<ToolTail>,
)
    ensures
        ({
            let text = manual_text(path, for_tool, version, tree, tails);
            let section = with_section(manual_head(version), path, tree);
            section.len() <= text.len() && text.take(section.len() as int) == section
        }),
{
    let section = with_section(manual_head(version), path, tree);
    let n = section.len() as int;
    assert(section.take(n) =~= section);
    lemma_blank_line_keeps(section, n);
    let body = with_blank_line(section);
    if let Some(tool) = for_tool {
        if let Some(tail) = tail_of(tool, tails) {
            assert((body + tail).take(n) =~= body.take(n));
            lemma_blank_line_keeps(body + tail, n);
        }
    }
}

/// The characters of a tool's name that may be missing.
pub open spec fn tool_chars(for_tool: Option<&str>) -> Option<Seq<char>> {
    match for_tool {
        Some(tool) => Some(tool@),
        None => None,
    }
}

/// Every manual begins with the version of the program, holds the introduction and
/// ends with a blank line.
pub proof fn law_manuals_have_a_frame(
    path: &Vec<String>,
    for_tool: Option<&str>,
    version: &str,
    root: &CommandTree,
    tails: &Vec<ToolTail>,
    r: String,
)
    requires
        call_ensures(render, (path, for_tool, version, root, tails), r),
    ensures
        begins(r@, "<!-- of version: "@ + version@ + " -->\n"@),
        occurs(r@, INTRO@),
        ends(r@, "\n\n"@),
{
    let p = views(path@);
    let t = tool_chars(for_tool);
    law_manual_starts_with_version(p, t, version@, *root, tails@);
    law_manual_ends_with_blank_line(p, t, version@, *root, tails@);
    lemma_manual_begins_with_section(p, t, version@, *root, tails@);
    let mark = "<!-- of version: "@ + version@ + " -->\n"@ + "\n"@;
    let head = mark + INTRO@;
    lemma_holds_between(mark, INTRO@, Seq::empty());
    assert(mark + INTRO@ + Seq::<char>::empty() =~= head);
    let n = head.len() as int;
    assert(head.take(n) =~= head);
    lemma_blank_line_keeps(head, n);
    lemma_section_keeps(manual_head(version@), p, *root, n);
    let section = with_section(manual_head(version@), p, *root);
    lemma_holds_behind(section, n, INTRO@);
    lemma_holds_behind(r@, section.len() as int, INTRO@);
}

/// The manual for a subcommand holds the section of that subcommand; that of
/// `mount` holds those of Git and of wikis.
pub proof fn law_manuals_hold_their_section(
    path: &Vec<String>,
    for_tool: Option<&str>,
    version: &str,
    root: &CommandTree,
    tails: &Vec<ToolTail>,
    r: String,
)
    requires
        call_ensures(render, (path, for_tool, version, root, tails), r),
    ensures
        path@.len() == 2 && path@[0]@ == "mount"@ && path@[1]@ == "git"@ ==> occurs(r@, MOUNT_GIT@),
        path@.len() == 2 && path@[0]@ == "mount"@ && path@[1]@ == "wiki"@ ==> occurs(
            r@,
            MOUNT_WIKI@,
        ),
        path@.len() == 2 && path@[0]@ == "mount"@ && path@[1]@ == "s3"@ ==> occurs(r@, MOUNT_S3@),
        path@.len() == 1 && path@[0]@ == "mount"@ ==> occurs(r@, MOUNT_GIT@) && occurs(
            r@,
            MOUNT_WIKI@,
        ),
        path@.len() == 1 && path@[0]@ == "check"@ ==> occurs(r@, CHECK@),
        path@.len() == 1 && path@[0]@ == "gen-config"@ ==> occurs(r@, GEN_CONFIG@),
        path@.len() == 1 && path@[0]@ == "skill"@ ==> occurs(r@, SKILL_SELF@),
{
    let p = views(path@);
    lemma_manual_begins_with_section(p, tool_chars(for_tool), version@, *root, tails@);
    let head = manual_head(version@);
    let section = with_section(head, p, *root);
    let n = section.len() as int;
    let none = Seq::<char>::empty();
    lemma_section_names_differ();
    assert(p.len() == path@.len());
    if p.len() == 1 {
        assert(p[0] == path@[0]@);
    }
    if p.len() == 2 {
        assert(p[0] == path@[0]@ && p[1] == path@[1]@);
    }
    assert forall|x: Seq<char>| section == head + x implies #[trigger] occurs(r@, x) by {
        lemma_holds_between(head, x, none);
        assert(head + x + none =~= section);
        lemma_holds_behind(r@, n, x);
    }
    assert(section == head + MOUNT_GIT@ ==> occurs(r@, MOUNT_GIT@));
    assert(section == head + MOUNT_WIKI@ ==> occurs(r@, MOUNT_WIKI@));
    assert(section == head + MOUNT_S3@ ==> occurs(r@, MOUNT_S3@));
    assert(section == head + CHECK@ ==> occurs(r@, CHECK@));
    assert(section == head + GEN_CONFIG@ ==> occurs(r@, GEN_CONFIG@));
    assert(section == head + SKILL_SELF@ ==> occurs(r@, SKILL_SELF@));
    if is_path1(p, "mount"@) {
        let first = head + MOUNT_GIT@;
        lemma_holds_between(head, MOUNT_GIT@, none);
        assert(head + MOUNT_GIT@ + none =~= first);
        lemma_blank_line_keeps(first, first.len() as int);
        assert(first.take(first.len() as int) =~= first);
        assert(section.take(first.len() as int) =~= first);
        lemma_holds_behind(section, first.len() as int, MOUNT_GIT@);
        lemma_holds_behind(r@, n, MOUNT_GIT@);
        lemma_holds_between(with_blank_line(first), MOUNT_WIKI@, none);
        assert(with_blank_line(first) + MOUNT_WIKI@ + none =~= section);
        lemma_holds_behind(r@, n, MOUNT_WIKI@);
    }
}

proof fn lemma_section_names_differ()
    ensures
        "git"@ != "wiki"@,
        "git"@ != "s3"@,
        "wiki"@ != "s3"@,
        "mount"@ != "check"@,
        "mount"@ != "gen-config"@,
        "mount"@ != "skill"@,
        "check"@ != "gen-config"@,
        "check"@ != "skill"@,
        "gen-config"@ != "skill"@,
{
    reveal_strlit("git");
    reveal_strlit("wiki");
    reveal_strlit("s3");
    reveal_strlit("mount");
    reveal_strlit("check");
    reveal_strlit("gen-config");
    reveal_strlit("skill");
    assert("git"@.len() == 3 && "wiki"@.len() == 4 && "s3"@.len() == 2);
    assert("mount"@[0] == 'm' && "check"@[0] == 'c' && "gen-config"@[0] == 'g' && "skill"@[0]
        == 's');
}

proof fn lemma_index_holds(list: Seq<CommandTree>, k: int, i: int) -> (r: (Seq<char>, Seq<char>))
    requires
        0 <= i < k <= list.len(),
    ensures
        index_lines(list, k) == r.0 + index_line(list[i]) + r.1,
    decreases k,
{
    if i == k - 1 {
        let r = (index_lines(list, k - 1), Seq::<char>::empty());
        assert(index_lines(list, k) =~= r.0 + index_line(list[i]) + r.1);
        r
    } else {
        let q = lemma_index_holds(list, k - 1, i);
        let r = (q.0, q.1 + index_line(list[k - 1]));
        assert(index_lines(list, k) =~= r.0 + index_line(list[i]) + r.1);
        r
    }
}

proof fn lemma_index_around(
    head: Seq<char>,
    title: Seq<char>,
    a: Seq<char>,
    x: Seq<char>,
    b: Seq<char>,
    c: Seq<char>,
    d: Seq<char>,
    e: Seq<char>,
)
    ensures
        occurs(head + (title + (a + x + b) + c + d + e), x),
{
    let before = head + title + a;
    let behind = b + c + d + e;
    assert(head + (title + (a + x + b) + c + d + e) =~= before + x + behind);
    lemma_holds_between(before, x, behind);
}

/// The manual of the program itself has a line for every subcommand, with what it
/// is about.
pub proof fn law_index_names_every_subcommand(
    path: &Vec<String>,
    for_tool: Option<&str>,
    version: &str,
    root: &CommandTree,
    tails: &Vec<ToolTail>,
    r: String,
    i: int,
)
    requires
        call_ensures(render, (path, for_tool, version, root, tails), r),
        path@.len() == 0,
        0 <= i < root.subcommands@.len(),
    ensures
        root.subcommands@[i].about matches Some(about) ==> occurs(
            r@,
            "- `of "@ + root.subcommands@[i].name@ + "`"@ + (" — "@ + about@) + "\n"@,
        ),
        root.subcommands@[i].about is None ==> occurs(
            r@,
            "- `of "@ + root.subcommands@[i].name@ + "`"@ + Seq::<char>::empty() + "\n"@,
        ),
{
    let p = views(path@);
    let list = root.subcommands@;
    lemma_manual_begins_with_section(p, tool_chars(for_tool), version@, *root, tails@);
    let head = manual_head(version@);
    let section = with_section(head, p, *root);
    let (a, b) = lemma_index_holds(list, list.len() as int, i);
    let x = index_line(list[i]);
    lemma_index_around(
        head,
        "## Subcommand index\n\n"@,
        a,
        x,
        b,
        "\n"@,
        "Run `of skill <subcommand>` or `of <subcommand> --skill` for\n"@,
        "a section dedicated to that subcommand.\n"@,
    );
    assert(occurs(section, x));
    lemma_holds_behind(r@, section.len() as int, x);
}

/// A subcommand without a section of its own gets its help, under its path.
pub proof fn law_other_subcommands_get_their_help(
    path: &Vec<String>,
    for_tool: Option<&str>,
    version: &str,
    root: &CommandTree,
    tails: &Vec<ToolTail>,
    r: String,
    i: int,
)
    requires
        call_ensures(render, (path, for_tool, version, root, tails), r),
        path@.len() == 1,
        path@[0]@ != "mount"@,
        path@[0]@ != "check"@,
        path@[0]@ != "gen-config"@,
        path@[0]@ != "skill"@,
        0 <= i < root.subcommands@.len(),
        root.subcommands@[i].name@ == path@[0]@,
        forall|j: int| 0 <= j < i ==> (#[trigger] root.subcommands@[j]).name@ != path@[0]@,
    ensures
        occurs(r@, root.subcommands@[i].help@),
        occurs(r@, "## `of "@ + path@[0]@ + "`\n"@),
{
    let p = views(path@);
    assert(p.len() == 1 && p[0] == path@[0]@);
    lemma_subcommand(root.subcommands@, p[0], 0, i);
    assert(p.drop_first() =~= Seq::<Seq<char>>::empty());
    reveal_with_fuel(chain_end, 2);
    assert(chain_end(*root, p) == root.subcommands@[i]);
    lemma_manual_begins_with_section(p, tool_chars(for_tool), version@, *root, tails@);
    let head = manual_head(version@);
    let section = with_section(head, p, *root);
    let help = root.subcommands@[i].help@;
    let title = "## `of "@ + p[0] + "`\n"@;
    assert(spaced(p) == p[0]);
    let opening = title + "\n"@
        + "No dedicated skill section is registered for this subcommand. The\n"@
        + "clap-generated help is included verbatim for completeness:\n\n"@ + "```\n"@;
    let text = opening + help;
    let ending = if ends(text, "\n"@) {
        "```\n"@
    } else {
        "\n"@ + "```\n"@
    };
    assert(fallback_of(p, help) =~= text + ending);
    assert(section =~= (head + opening) + help + ending);
    lemma_holds_between(head + opening, help, ending);
    lemma_holds_behind(r@, section.len() as int, help);
    let rest = "\n"@ + "No dedicated skill section is registered for this subcommand. The\n"@
        + "clap-generated help is included verbatim for completeness:\n\n"@ + "```\n"@ + help
        + ending;
    assert(section =~= head + title + rest);
    lemma_holds_between(head, title, rest);
    lemma_holds_behind(r@, section.len() as int, title);
}

proof fn lemma_subcommand(list: Seq<CommandTree>, name: Seq<char>, from: int, i: int)
    requires
        0 <= from <= i < list.len(),
        list[i].name@ == name,
        forall|j: int| from <= j < i ==> (#[trigger] list[j]).name@ != name,
    ensures
        subcommand_from(list, name, from) == Some(i),
    decreases i - from,
{
    if from < i {
        assert(list[from].name@ != name);
        lemma_subcommand(list, name, from + 1, i);
    }
}

/// What is added for a tool follows the manual that everybody gets: the texts of
/// the program for the tools it knows, the first text that the installation brings
/// for another; for one that nobody knows nothing is added.
pub proof fn law_tools_get_their_addition(
    path: &Vec<String>,
    tool: &str,
    version: &str,
    root: &CommandTree,
    tails: &Vec<ToolTail>,
    plain: String,
    r: String,
    i: int,
)
    requires
        call_ensures(render, (path, None::<&str>, version, root, tails), plain),
        call_ensures(render, (path, Some(tool), version, root, tails), r),
    ensures
        begins(r@, plain@),
        tool@ == "openai"@ ==> begins(r@, plain@ + FOR_OPENAI@),
        tool@ == "langchain"@ ==> begins(r@, plain@ + FOR_LANGCHAIN@),
        tool@ != "openai"@ && tool@ != "langchain"@ && 0 <= i < tails@.len() && tails@[i].tool@
            == tool@ && (forall|j: int| 0 <= j < i ==> (#[trigger] tails@[j]).tool@ != tool@)
            ==> begins(r@, plain@ + tails@[i].text@),
        tool@ != "openai"@ && tool@ != "langchain"@ && (forall|j: int|
            0 <= j < tails@.len() ==> (#[trigger] tails@[j]).tool@ != tool@) ==> r@ == plain@,
{
    reveal_strlit("openai");
    reveal_strlit("langchain");
    assert("openai"@.len() == 6 && "langchain"@.len() == 9);
    law_tool_manual_begins_with_the_plain_one(views(path@), tool@, version@, *root, tails@);
    if 0 <= i < tails@.len() && tails@[i].tool@ == tool@ && (forall|j: int|
        0 <= j < i ==> (#[trigger] tails@[j]).tool@ != tool@) {
        lemma_tail(tails@, tool@, 0, i);
    }
    if forall|j: int| 0 <= j < tails@.len() ==> (#[trigger] tails@[j]).tool@ != tool@ {
        lemma_no_tail(tails@, tool@, 0);
    }
}

proof fn lemma_tail(tails: Seq<ToolTail>, tool: Seq<char>, from: int, i: int)
    requires
        0 <= from <= i < tails.len(),
        tails[i].tool@ == tool,
        forall|j: int| from <= j < i ==> (#[trigger] tails[j]).tool@ != tool,
    ensures
        tail_from(tails, tool, from) == Some(i),
    decreases i - from,
{
    if from < i {
        assert(tails[from].tool@ != tool);
        lemma_tail(tails, tool, from + 1, i);
    }
}

proof fn lemma_no_tail(tails: Seq<ToolTail>, tool: Seq<char>, from: int)
    requires
        0 <= from,
        forall|j: int| from <= j < tails.len() ==> (#[trigger] tails[j]).tool@ != tool,
    ensures
        tail_from(tails, tool, from) is None,
    decreases tails.len() - from,
{
    if from < tails.len() {
        assert(tails[from].tool@ != tool);
        lemma_no_tail(tails, tool, from + 1);
    }
}

proof fn lemma_scan_without_flag(args: Seq<Seq<char>>, i: int, s: Scan)
    requires
        0 <= i,
        forall|j: int| i <= j < args.len() ==> #[trigger] args[j] != "--skill"@,
    ensures
        scanned(args, i, s).has_skill == s.has_skill,
    decreases args.len() - i,
{
    if i < args.len() && args[i] != "--"@ {
        assert(args[i] != "--skill"@);
        if begins(args[i], "--for="@) {
            lemma_scan_without_flag(
                args,
                i + 1,
                Scan { for_tool: Some(args[i].skip("--for="@.len() as int)), ..s },
            );
        } else if args[i] == "--for"@ {
            if i + 1 < args.len() {
                lemma_scan_without_flag(args, i + 2, Scan { for_tool: Some(args[i + 1]), ..s });
            }
        } else if begins(args[i], "-"@) {
            lemma_scan_without_flag(args, i + 1, s);
        } else {
            lemma_scan_without_flag(
                args,
                i + 1,
                Scan { positionals: s.positionals.push(args[i]), ..s },
            );
        }
    }
}

/// Without the flag the manual is not asked for, and behind `--` no flag counts.
pub proof fn law_flag_is_needed(
    argv: &Vec<String>,
    root: &CommandTree,
    r: Option<SkillInvocation>,
)
    requires
        call_ensures(detect_skill_flag, (argv, root), r),
        (forall|j: int| 1 <= j < argv@.len() ==> (#[trigger] argv@[j])@ != "--skill"@) || (
        argv@.len() > 1 && argv@[1]@ == "--"@),
    ensures
        r is None,
{
    let args = views(argv@);
    if argv@.len() > 1 && argv@[1]@ == "--"@ {
        assert(args[1] == "--"@);
    } else {
        assert forall|j: int| 1 <= j < args.len() implies #[trigger] args[j] != "--skill"@ by {
            assert(args[j] == argv@[j]@);
        }
        lemma_scan_without_flag(args, 1, no_scan());
    }
}

proof fn lemma_scan_path(
    program: Seq<char>,
    path: Seq<Seq<char>>,
    rest: Seq<Seq<char>>,
    i: int,
)
    requires
        0 <= i <= path.len(),
        forall|j: int| 0 <= j < path.len() ==> !begins(#[trigger] path[j], "-"@),
    ensures
        scanned(
            seq![program] + path + rest,
            i + 1,
            Scan { has_skill: false, for_tool: None, positionals: path.take(i) },
        ) == scanned(
            seq![program] + path + rest,
            (path.len() + 1) as int,
            Scan { has_skill: false, for_tool: None, positionals: path },
        ),
    decreases path.len() - i,
{
    let args = seq![program] + path + rest;
    if i < path.len() {
        assert(args[i + 1] == path[i]);
        reveal_strlit("-");
        reveal_strlit("--");
        reveal_strlit("--skill");
        reveal_strlit("--for=");
        reveal_strlit("--for");
        assert(!begins(path[i], "-"@));
        assert(path[i].len() > 0 ==> path[i][0] != '-') by {
            if path[i].len() > 0 && path[i][0] == '-' {
                assert(path[i].subrange(0, 1) =~= "-"@);
            }
        }
        assert("--"@[0] == '-' && "--skill"@[0] == '-' && "--for"@[0] == '-');
        if begins(path[i], "--for="@) {
            assert(path[i].subrange(0, 6)[0] == '-');
        }
        assert(path.take(i).push(path[i]) =~= path.take(i + 1));
        lemma_scan_path(program, path, rest, i + 1);
    } else {
        assert(path.take(i) =~= path);
    }
}

/// The flag behind a subcommand asks for the manual of that subcommand, and the
/// tool that `--for` names, in either form, is the one that the manual is for.
pub proof fn law_flag_and_tool_are_detected(
    argv: &Vec<String>,
    root: &CommandTree,
    program: Seq<char>,
    path: Seq<Seq<char>>,
    tool: Seq<char>,
    r: Option<SkillInvocation>,
)
    requires
        call_ensures(detect_skill_flag, (argv, root), r),
        chain_len(*root, path) == path.len(),
        forall|i: int| 0 <= i < path.len() ==> !begins(#[trigger] path[i], "-"@),
        views(argv@) == seq![program] + path + seq!["--skill"@] || views(argv@) == seq![program]
            + path + seq!["--skill"@, "--for="@ + tool] || views(argv@) == seq![program] + path
            + seq!["--skill"@, "--for"@, tool],
    ensures
        r matches Some(inv) && {
            &&& views(inv.path@) == path
            &&& views(argv@).len() == path.len() + 2 ==> inv.for_tool is None
            &&& views(argv@).len() > path.len() + 2 ==> inv.for_tool is Some && inv.for_tool->0@
                == tool
        },
{
    let args = views(argv@);
    let n = path.len() as int;
    let rest = args.skip(n + 1);
    assert(args =~= seq![program] + path + rest);
    assert(path.take(0) =~= Seq::<Seq<char>>::empty());
    lemma_scan_path(program, path, rest, 0);
    let named = Scan { has_skill: false, for_tool: None, positionals: path };
    let asked = Scan { has_skill: true, ..named };
    let done = Scan { for_tool: Some(tool), ..asked };
    reveal_strlit("--");
    reveal_strlit("--skill");
    reveal_strlit("--for=");
    reveal_strlit("--for");
    assert("--skill"@.len() == 7 && "--"@.len() == 2 && "--for"@.len() == 5 && "--for="@.len()
        == 6);
    assert(args[n + 1] == "--skill"@);
    assert(scanned(args, n + 1, named) == scanned(args, n + 2, asked));
    if args.len() == n + 2 {
        assert(scanned(args, n + 2, asked) == asked);
    } else if args.len() == n + 3 {
        let arg = "--for="@ + tool;
        assert(args[n + 2] == arg);
        assert(arg[2] == 'f' && "--skill"@[2] == 's');
        assert(arg.subrange(0, 6) =~= "--for="@);
        assert(arg.skip(6) =~= tool);
        assert(scanned(args, n + 2, asked) == scanned(args, n + 3, done));
        assert(scanned(args, n + 3, done) == done);
    } else {
        assert(args[n + 2] == "--for"@);
        assert(args[n + 3] == tool);
        assert(!begins("--for"@, "--for="@));
        assert(scanned(args, n + 2, asked) == scanned(args, n + 4, done));
        assert(scanned(args, n + 4, done) == done);
    }
    assert(path.take(n) =~= path);
}

/// Names lead from subcommand to subcommand: to the first one of a name, and from
/// there on by the names behind it; a name that no subcommand has leads nowhere.
pub proof fn law_names_lead_down(tree: CommandTree, names: Seq<Seq<char>>, i: int)
    requires
        names.len() > 0,
    ensures
        0 <= i < tree.subcommands@.len() && tree.subcommands@[i].name@ == names[0] && (forall|j: int|
            0 <= j < i ==> (#[trigger] tree.subcommands@[j]).name@ != names[0]) ==> chain_len(
            tree,
            names,
        ) == 1 + chain_len(tree.subcommands@[i], names.drop_first()),
        (forall|j: int|
            0 <= j < tree.subcommands@.len() ==> (#[trigger] tree.subcommands@[j]).name@
                != names[0]) ==> chain_len(tree, names) == 0,
{
    let list = tree.subcommands@;
    if 0 <= i < list.len() && list[i].name@ == names[0] && (forall|j: int|
        0 <= j < i ==> (#[trigger] list[j]).name@ != names[0]) {
        lemma_subcommand(list, names[0], 0, i);
    }
    if forall|j: int| 0 <= j < list.len() ==> (#[trigger] list[j]).name@ != names[0] {
        lemma_no_subcommand(list, names[0], 0);
    }
}

proof fn lemma_no_subcommand(list: Seq<CommandTree>, name: Seq<char>, from: int)
    requires
        0 <= from,
        forall|j: int| from <= j < list.len() ==> (#[trigger] list[j]).name@ != name,
    ensures
        subcommand_from(list, name, from) is None,
    decreases list.len() - from,
{
    if from < list.len() {
        assert(list[from].name@ != name);
        lemma_no_subcommand(list, name, from + 1);
    }
}

} // verus!
