//! The policy for merging three versions of a text.
//!
//! The line-by-line merge itself is done by the crate `diffy`.
use vstd::prelude::*;
use vstd::utf8::{encode_utf8, valid_utf8};

use crate::text::{contains, occurs, same};

verus! {

/// Result of a three-way merge of texts.
#[derive(Debug, Clone, PartialEq, Eq)]
pub enum TextMergeResult {
    /// There is nothing to merge: the remote text is the base or the local text.
    NoConflict,
    /// The merged text.
    Merged(String),
    /// The local and the remote changes contradict each other.
    Failed {
        /// Local text.
        local: String,
        /// Remote text.
        remote: String,
    },
}

/// What to do after the base, the local and the remote text were compared.
#[derive(Debug, Clone, PartialEq, Eq)]
pub enum TextMergeDecision {
    /// Upload the local text.
    UploadLocal,
    /// Upload the merged text and write it to the local file.
    UploadMerged(String),
    /// Write the remote text to the local file, with no upload.
    AcceptRemote(String),
    /// The local and the remote text are equal.
    AlreadySynced,
    /// The local and the remote changes contradict each other.
    Conflict,
}

/// The characters of a [`TextMergeResult`].
pub enum MergeView {
    /// Nothing to merge.
    NoConflict,
    /// The merged text.
    Merged(Seq<char>),
    /// Contradicting changes.
    Failed {
        /// Local text.
        local: Seq<char>,
        /// Remote text.
        remote: Seq<char>,
    },
}

/// The characters of a [`TextMergeDecision`].
pub enum DecisionView {
    /// Upload the local text.
    UploadLocal,
    /// Upload the merged text.
    UploadMerged(Seq<char>),
    /// Accept the remote text.
    AcceptRemote(Seq<char>),
    /// Nothing to do.
    AlreadySynced,
    /// Contradicting changes.
    Conflict,
}

impl View for TextMergeResult {
    type V = MergeView;

    open spec fn view(&self) -> MergeView {
        match self {
            TextMergeResult::NoConflict => MergeView::NoConflict,
            TextMergeResult::Merged(text) => MergeView::Merged(text@),
            TextMergeResult::Failed { local, remote } => MergeView::Failed {
                local: local@,
                remote: remote@,
            },
        }
    }
}

impl View for TextMergeDecision {
    type V = DecisionView;

    open spec fn view(&self) -> DecisionView {
        match self {
            TextMergeDecision::UploadLocal => DecisionView::UploadLocal,
            TextMergeDecision::UploadMerged(text) => DecisionView::UploadMerged(text@),
            TextMergeDecision::AcceptRemote(text) => DecisionView::AcceptRemote(text@),
            TextMergeDecision::AlreadySynced => DecisionView::AlreadySynced,
            TextMergeDecision::Conflict => DecisionView::Conflict,
        }
    }
}

/// The characters of a merge's result, good or bad.
pub open spec fn result_chars(r: Result<String, String>) -> Result<Seq<char>, Seq<char>> {
    match r {
        Ok(text) => Ok(text@),
        Err(text) => Err(text@),
    }
}

/// What the line-by-line merge of three texts gives: the merged text, or a text
/// with conflict markers.
pub uninterp spec fn line_merge(
    base: Seq<char>,
    local: Seq<char>,
    remote: Seq<char>,
) -> Result<Seq<char>, Seq<char>>;

/// `diffy::merge`: its result is named, and a text that it gives as an error
/// holds a conflict marker.
#[verifier::external_body]
fn merge_lines(base: &str, local: &str, remote: &str) -> (r: Result<String, String>)
    ensures
        result_chars(r) == line_merge(base@, local@, remote@),
        r is Err ==> occurs(r->Err_0@, "<<<<<<<"@),
{
    diffy::merge(base, local, remote)
}

/// Whether a text holds a marker of a conflict.
pub open spec fn has_conflict_marker(text: Seq<char>) -> bool {
    occurs(text, "<<<<<<<"@) || occurs(text, ">>>>>>>"@)
}

/// What the result of the line-by-line merge means for two texts.
pub open spec fn merge_meaning(
    local: Seq<char>,
    remote: Seq<char>,
    merged: Result<Seq<char>, Seq<char>>,
) -> MergeView {
    match merged {
        Ok(text) => MergeView::Merged(text),
        Err(text) => if has_conflict_marker(text) {
            MergeView::Failed { local, remote }
        } else {
            MergeView::Merged(text)
        },
    }
}

/// The three-way merge of texts, given the result of the line-by-line merge.
pub open spec fn three_way(
    base: Seq<char>,
    local: Seq<char>,
    remote: Seq<char>,
    merged: Result<Seq<char>, Seq<char>>,
) -> MergeView {
    if base == remote || (base != local && local == remote) {
        MergeView::NoConflict
    } else if base == local {
        MergeView::Merged(remote)
    } else {
        merge_meaning(local, remote, merged)
    }
}

/// The action for three texts, given the result of the line-by-line merge.
pub open spec fn decision(
    base: Seq<char>,
    local: Seq<char>,
    remote: Seq<char>,
    merged: Result<Seq<char>, Seq<char>>,
) -> DecisionView {
    if local == remote {
        DecisionView::AlreadySynced
    } else if base == remote {
        DecisionView::UploadLocal
    } else if base == local {
        DecisionView::AcceptRemote(remote)
    } else {
        match merge_meaning(local, remote, merged) {
            MergeView::NoConflict => DecisionView::AlreadySynced,
            MergeView::Merged(text) => DecisionView::UploadMerged(text),
            MergeView::Failed { .. } => DecisionView::Conflict,
        }
    }
}

/// Reads the result of the line-by-line merge: text with a conflict marker is a
/// failed merge.
pub fn interpret_merge(local: &str, remote: &str, merged: Result<String, String>) -> (r:
    TextMergeResult)
    ensures
        r@ == merge_meaning(local@, remote@, result_chars(merged)),
{
    match merged {
        Ok(text) => TextMergeResult::Merged(text),
        Err(text) => {
            if contains(text.as_str(), "<<<<<<<") || contains(text.as_str(), ">>>>>>>") {
                TextMergeResult::Failed { local: local.to_owned(), remote: remote.to_owned() }
            } else {
                TextMergeResult::Merged(text)
            }
        },
    }
}

/// Merges the local and the remote text, which both come from the base text.
pub fn three_way_text_merge(base: &str, local: &str, remote: &str) -> (r: TextMergeResult)
    ensures
        r@ == three_way(base@, local@, remote@, line_merge(base@, local@, remote@)),
        r is Failed <==> base@ != remote@ && base@ != local@ && local@ != remote@ && line_merge(
            base@,
            local@,
            remote@,
        ) is Err,
{
    if same(base, remote) {
        return TextMergeResult::NoConflict;
    }
    if same(base, local) {
        return TextMergeResult::Merged(remote.to_owned());
    }
    if same(local, remote) {
        return TextMergeResult::NoConflict;
    }
    let merged = merge_lines(base, local, remote);
    interpret_merge(local, remote, merged)
}

/// Decides what to do about three texts: the base, the local and the remote one.
pub fn decide_text_merge(base: &str, local: &str, remote: &str) -> (r: TextMergeDecision)
    ensures
        r@ == decision(base@, local@, remote@, line_merge(base@, local@, remote@)),
        r is Conflict <==> base@ != remote@ && base@ != local@ && local@ != remote@ && line_merge(
            base@,
            local@,
            remote@,
        ) is Err,
{
    if same(base, remote) {
        return if same(local, remote) {
            TextMergeDecision::AlreadySynced
        } else {
            TextMergeDecision::UploadLocal
        };
    }
    if same(base, local) {
        return TextMergeDecision::AcceptRemote(remote.to_owned());
    }
    if same(local, remote) {
        return TextMergeDecision::AlreadySynced;
    }
    let merged = three_way_text_merge(base, local, remote);
    decide_from_merge(merged)
}

/// The action that follows from a merge of texts that all differ.
pub fn decide_from_merge(merged: TextMergeResult) -> (r: TextMergeDecision)
    ensures
        r@ == match merged@ {
            MergeView::NoConflict => DecisionView::AlreadySynced,
            MergeView::Merged(text) => DecisionView::UploadMerged(text),
            MergeView::Failed { .. } => DecisionView::Conflict,
        },
{
    match merged {
        TextMergeResult::NoConflict => TextMergeDecision::AlreadySynced,
        TextMergeResult::Merged(text) => TextMergeDecision::UploadMerged(text),
        TextMergeResult::Failed { .. } => TextMergeDecision::Conflict,
    }
}

/// `std::str::from_utf8`: gives the text exactly for well-formed UTF-8.
#[verifier::external_body]
fn parse_utf8(bytes: &[u8]) -> (r: Option<&str>)
    ensures
        match r {
            Some(text) => encode_utf8(text@) == bytes@,
            None => !valid_utf8(bytes@),
        },
{
    std::str::from_utf8(bytes).ok()
}

/// The text that bytes hold, where they are well-formed UTF-8.
pub fn decode_utf8_text(bytes: &[u8]) -> (r: Option<&str>)
    ensures
        r is Some <==> valid_utf8(bytes@),
        r matches Some(text) ==> encode_utf8(text@) == bytes@,
{
    let r = parse_utf8(bytes);
    proof {
        if let Some(text) = r {
            vstd::utf8::encode_utf8_valid_utf8(text@);
        }
    }
    r
}

/// A text is uploaded only over the base, and dropped only where it is the base:
/// no change of either side is lost without a merge.
pub proof fn law_no_change_is_lost(
    base: Seq<char>,
    local: Seq<char>,
    remote: Seq<char>,
    merged: Result<Seq<char>, Seq<char>>,
)
    ensures
        decision(base, local, remote, merged) is UploadLocal ==> remote == base,
        decision(base, local, remote, merged) is AcceptRemote ==> local == base && decision(
            base,
            local,
            remote,
            merged,
        ) == DecisionView::AcceptRemote(remote),
        decision(base, local, remote, merged) is UploadMerged || decision(
            base,
            local,
            remote,
            merged,
        ) is Conflict ==> base != local && base != remote && local != remote,
{
}

/// Nothing is left to do exactly where the local and the remote text are equal.
pub proof fn law_synced_iff_equal(
    base: Seq<char>,
    local: Seq<char>,
    remote: Seq<char>,
    merged: Result<Seq<char>, Seq<char>>,
)
    ensures
        decision(base, local, remote, merged) is AlreadySynced <==> local == remote,
{
}

/// A failed merge gives both texts back as they were.
pub proof fn law_failed_merge_keeps_both(
    base: Seq<char>,
    local: Seq<char>,
    remote: Seq<char>,
    merged: Result<Seq<char>, Seq<char>>,
)
    ensures
        three_way(base, local, remote, merged) is Failed ==> three_way(base, local, remote, merged)
            == (MergeView::Failed { local, remote }),
{
}

/// Where both sides changed a text and the changes go together, the merge gives
/// exactly the text of the line-by-line merge, and that text is uploaded.
pub proof fn law_both_changes_are_kept(
    base: &str,
    local: &str,
    remote: &str,
    text: Seq<char>,
    merged: TextMergeResult,
    decided: TextMergeDecision,
)
    requires
        call_ensures(three_way_text_merge, (base, local, remote), merged),
        call_ensures(decide_text_merge, (base, local, remote), decided),
        base@ != local@,
        base@ != remote@,
        local@ != remote@,
        line_merge(base@, local@, remote@) == Ok::<Seq<char>, Seq<char>>(text),
    ensures
        merged matches TextMergeResult::Merged(m) && m@ == text,
        decided matches TextMergeDecision::UploadMerged(m) && m@ == text,
{
}

/// Where both sides changed a text and the changes contradict each other, the
/// merge gives both texts back as they are, and nothing is uploaded.
pub proof fn law_contradictions_are_told(
    base: &str,
    local: &str,
    remote: &str,
    merged: TextMergeResult,
    decided: TextMergeDecision,
)
    requires
        call_ensures(three_way_text_merge, (base, local, remote), merged),
        call_ensures(decide_text_merge, (base, local, remote), decided),
        base@ != local@,
        base@ != remote@,
        local@ != remote@,
        line_merge(base@, local@, remote@) is Err,
    ensures
        merged matches TextMergeResult::Failed { local: l, remote: r } && l@ == local@ && r@
            == remote@,
        decided is Conflict,
{
}

/// Where one side alone changed a text, its text is the one that counts: a local
/// change is uploaded, a remote one is accepted.
pub proof fn law_one_change_wins(
    base: &str,
    changed: &str,
    merged: TextMergeResult,
    local_decided: TextMergeDecision,
    remote_decided: TextMergeDecision,
)
    requires
        base@ != changed@,
        call_ensures(three_way_text_merge, (base, base, changed), merged),
        call_ensures(decide_text_merge, (base, changed, base), local_decided),
        call_ensures(decide_text_merge, (base, base, changed), remote_decided),
    ensures
        merged matches TextMergeResult::Merged(m) && m@ == changed@,
        local_decided is UploadLocal,
        remote_decided matches TextMergeDecision::AcceptRemote(m) && m@ == changed@,
{
}

/// Where the local and the remote text are equal there is nothing to merge and
/// nothing to do, whatever the base is; nor is there anything to merge where the
/// remote text is the base.
pub proof fn law_equal_texts_rest(
    base: &str,
    local: &str,
    remote: &str,
    merged: TextMergeResult,
    decided: TextMergeDecision,
)
    requires
        call_ensures(three_way_text_merge, (base, local, remote), merged),
        call_ensures(decide_text_merge, (base, local, remote), decided),
    ensures
        local@ == remote@ ==> merged is NoConflict && decided is AlreadySynced,
        base@ == remote@ ==> merged is NoConflict,
        decided is AlreadySynced ==> local@ == remote@,
        merged is NoConflict ==> base@ == remote@ || local@ == remote@,
{
}

/// A merged text is taken as it is, and so is one that came as an error without
/// a conflict marker; one with a marker is a failed merge of the two texts.
pub proof fn law_merge_is_read(
    local: &str,
    remote: &str,
    merged: Result<String, String>,
    r: TextMergeResult,
)
    requires
        call_ensures(interpret_merge, (local, remote, merged), r),
    ensures
        match merged {
            Ok(text) => r matches TextMergeResult::Merged(m) && m@ == text@,
            Err(text) => if exists|i: int|
                {
                    &&& 0 <= i <= text@.len() - 7
                    &&& ((#[trigger] text@.subrange(i, i + 7)) == "<<<<<<<"@ || text@.subrange(
                        i,
                        i + 7,
                    ) == ">>>>>>>"@)
                } {
                r matches TextMergeResult::Failed { local: l, remote: m } && l@ == local@ && m@
                    == remote@
            } else {
                r matches TextMergeResult::Merged(m) && m@ == text@
            },
        },
{
    reveal_strlit("<<<<<<<");
    reveal_strlit(">>>>>>>");
    if let Err(text) = merged {
        let s = text@;
        assert forall|i: int| 0 <= i <= s.len() - 7 implies (crate::text::occurs_at(
            s,
            "<<<<<<<"@,
            i,
        ) <==> #[trigger] s.subrange(i, i + 7) == "<<<<<<<"@) && (crate::text::occurs_at(
            s,
            ">>>>>>>"@,
            i,
        ) <==> s.subrange(i, i + 7) == ">>>>>>>"@) by {
            let _ = s.subrange(i, i + 7);
        }
        if occurs(s, "<<<<<<<"@) {
            let i = choose|i: int| crate::text::occurs_at(s, "<<<<<<<"@, i);
            assert(s.subrange(i, i + 7) == "<<<<<<<"@);
        }
        if occurs(s, ">>>>>>>"@) {
            let i = choose|i: int| crate::text::occurs_at(s, ">>>>>>>"@, i);
            assert(s.subrange(i, i + 7) == ">>>>>>>"@);
        }
    }
}

/// Bytes are read as a text exactly where they are the encoding of one, and then
/// as that text.
pub proof fn law_text_is_decoded(bytes: &[u8], text: Seq<char>, r: Option<&str>)
    requires
        call_ensures(decode_utf8_text, (bytes,), r),
    ensures
        bytes@ == encode_utf8(text) ==> (r matches Some(t) && t@ == text),
        r matches Some(t) ==> bytes@ == encode_utf8(t@),
{
    vstd::utf8::encode_utf8_valid_utf8(text);
    vstd::utf8::encode_utf8_decode_utf8(text);
    if let Some(t) = r {
        vstd::utf8::encode_utf8_decode_utf8(t@);
    }
}

/// A merged text is uploaded as it is; contradicting changes are a conflict.
pub proof fn law_merges_are_acted_on(merged: TextMergeResult, r: TextMergeDecision)
    requires
        call_ensures(decide_from_merge, (merged,), r),
    ensures
        merged matches TextMergeResult::Merged(text) ==> (
        r matches TextMergeDecision::UploadMerged(m) && m@ == text@),
        merged is Failed ==> r is Conflict,
        merged is NoConflict ==> r is AlreadySynced,
{
}

} // verus!
