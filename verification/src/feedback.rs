//! Persistent feedback: warnings and errors that stay on screen until they are
//! resolved or dismissed, one per key.

use vstd::prelude::*;

use crate::ids::NodeId;
use crate::text::{decimal, owned, push_decimal, str_eq};

verus! {

/// How serious a persistent issue is.
#[derive(Debug, Clone, Copy, PartialEq, Eq, Structural)]
pub enum FeedbackLevel {
    /// Something may need attention.
    Warning,
    /// Something failed.
    Error,
}

/// A warning or error that stays until resolved.
#[derive(Debug)]
pub struct PersistentIssue {
    /// What the issue is about; one issue per key.
    pub key: String,
    /// How serious it is.
    pub level: FeedbackLevel,
    /// One-line summary.
    pub summary: String,
    /// Further detail, if any.
    pub detail: Option<String>,
}

/// The issue has the key, level, summary and detail (by their text).
pub open spec fn issue_is(i: PersistentIssue, key: Seq<char>, level: FeedbackLevel, summary: Seq<char>, detail: Option<String>) -> bool {
    &&& i.key@ == key
    &&& i.level == level
    &&& i.summary@ == summary
    &&& i.detail == detail
}

/// The index of the first issue with the key, if any.
pub open spec fn issue_index(issues: Seq<PersistentIssue>, key: Seq<char>) -> Option<int> {
    if exists|i: int| 0 <= i < issues.len() && #[trigger] issues[i].key@ == key {
        Some(choose|i: int| 0 <= i < issues.len() && #[trigger] issues[i].key@ == key
            && forall|j: int| 0 <= j < i ==> issues[j].key@ != key)
    } else {
        None
    }
}

/// No two issues have the same key.
pub open spec fn keys_unique(issues: Seq<PersistentIssue>) -> bool {
    forall|a: int, b: int| 0 <= a < issues.len() && 0 <= b < issues.len() && a != b ==> issues[a].key@ != issues[b].key@
}

/// Whether the issue's key is not the given one.
pub open spec fn key_differs(key: Seq<char>) -> spec_fn(PersistentIssue) -> bool {
    |i: PersistentIssue| i.key@ != key
}

/// The issues `after` are `before` with an issue reported: the issue with the
/// same key, if there is one, takes the new level, summary and detail in its
/// place; otherwise the issue is appended.
pub open spec fn issue_reported(
    before: Seq<PersistentIssue>, after: Seq<PersistentIssue>,
    key: Seq<char>, level: FeedbackLevel, summary: Seq<char>, detail: Option<String>,
) -> bool {
    match issue_index(before, key) {
        Some(i) => {
            &&& after.len() == before.len()
            &&& issue_is(after[i], key, level, summary, detail)
            &&& forall|j: int| 0 <= j < before.len() && j != i ==> #[trigger] after[j] == before[j]
        },
        None => {
            &&& after.len() == before.len() + 1
            &&& issue_is(after.last(), key, level, summary, detail)
            &&& after.drop_last() == before
        },
    }
}

/// Reports an issue (see `issue_reported`).
pub fn push_persistent_issue(issues: &mut Vec<PersistentIssue>, key: String, level: FeedbackLevel, summary: String, detail: Option<String>)
    ensures
        issue_reported(old(issues)@, final(issues)@, key@, level, summary@, detail),
        keys_unique(old(issues)@) ==> keys_unique(final(issues)@),
{
    let mut i: usize = 0;
    while i < issues.len()
        invariant
            i <= issues@.len(),
            issues@ == old(issues)@,
            forall|j: int| 0 <= j < i ==> #[trigger] issues@[j].key@ != key@,
        decreases issues.len() - i,
    {
        if str_eq(issues[i].key.as_str(), key.as_str()) {
            let ghost k = issue_index(old(issues)@, key@)->0;
            proof {
                assert(issues@[i as int].key@ == key@);
                assert(issue_index(old(issues)@, key@) == Some(i as int)) by {
                    let w = choose|w: int| 0 <= w < issues@.len() && #[trigger] issues@[w].key@ == key@
                        && forall|j: int| 0 <= j < w ==> issues@[j].key@ != key@;
                    if w < i {
                        assert(issues@[w].key@ != key@);
                    }
                    if w > i {
                        assert(issues@[i as int].key@ != key@);
                    }
                }
            }
            issues.set(i, PersistentIssue { key, level, summary, detail });
            return;
        }
        i += 1;
    }
    issues.push(PersistentIssue { key, level, summary, detail });
    proof {
        assert(issues@.drop_last() =~= old(issues)@);
    }
}

/// A copy of an issue.
fn duplicate_issue(i: &PersistentIssue) -> (r: PersistentIssue)
    ensures
        r == *i,
{
    PersistentIssue {
        key: i.key.clone(),
        level: i.level,
        summary: i.summary.clone(),
        detail: match &i.detail {
            Some(d) => Some(d.clone()),
            None => None,
        },
    }
}

/// Resolves the issue with the key: every issue with that key goes, the others
/// stay in order.
pub fn resolve_persistent_issue(issues: &mut Vec<PersistentIssue>, key: &str)
    ensures
        final(issues)@ == old(issues)@.filter(key_differs(key@)),
{
    let mut src: Vec<PersistentIssue> = Vec::new();
    std::mem::swap(issues, &mut src);
    let mut i: usize = 0;
    while i < src.len()
        invariant
            i <= src@.len(),
            src@ == old(issues)@,
            issues@ == src@.take(i as int).filter(key_differs(key@)),
        decreases src.len() - i,
    {
        proof {
            assert(src@.take(i + 1) == src@.take(i as int).push(src@[i as int]));
            src@.take(i as int).lemma_filter_push(src@[i as int], key_differs(key@));
        }
        if !str_eq(src[i].key.as_str(), key) {
            issues.push(duplicate_issue(&src[i]));
        }
        i += 1;
    }
    proof {
        assert(src@.take(src@.len() as int) == src@);
    }
}

/// After resolving a key no issue has that key.
pub proof fn lemma_resolved_key_absent(before: Seq<PersistentIssue>, key: Seq<char>)
    ensures
        forall|i: int| 0 <= i < before.filter(key_differs(key)).len() ==> #[trigger] before.filter(key_differs(key))[i].key@ != key,
{
    before.filter_lemma(key_differs(key));
}

/// The key of the warning about a node whose volume cannot be controlled.
pub open spec fn volume_issue_key(node_id: NodeId) -> Seq<char> {
    "volume-control-failed-"@ + decimal(node_id.0 as nat)
}

/// The summary of that warning.
pub open spec fn volume_issue_summary() -> Seq<char> {
    "Volume control is unavailable for a node"@
}

/// Builds the key of the volume warning for a node.
fn volume_issue_key_text(node_id: NodeId) -> (r: String)
    ensures
        r@ == volume_issue_key(node_id),
{
    let mut s = owned("volume-control-failed-");
    push_decimal(&mut s, node_id.0 as u64);
    s
}

/// Warns that the volume of a node cannot be controlled, with the error as
/// detail (reported as `push_persistent_issue` does).
pub fn report_volume_control_failed(issues: &mut Vec<PersistentIssue>, node_id: NodeId, error: String)
    ensures
        issue_reported(old(issues)@, final(issues)@, volume_issue_key(node_id), FeedbackLevel::Warning,
            volume_issue_summary(), Some(error)),
        keys_unique(old(issues)@) ==> keys_unique(final(issues)@),
{
    let key = volume_issue_key_text(node_id);
    push_persistent_issue(issues, key, FeedbackLevel::Warning, owned("Volume control is unavailable for a node"), Some(error));
}

/// Resolves the volume warning for a node: when the node disappears, or its
/// volume or mute state is heard from again, the warning goes and the other
/// issues stay in order.
pub fn resolve_volume_issue(issues: &mut Vec<PersistentIssue>, node_id: NodeId)
    ensures
        final(issues)@ == old(issues)@.filter(key_differs(volume_issue_key(node_id))),
{
    let key = volume_issue_key_text(node_id);
    resolve_persistent_issue(issues, key.as_str());
}

}
