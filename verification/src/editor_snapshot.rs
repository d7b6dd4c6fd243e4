//! The editor's snapshot of a world: summaries of its stored locations and
//! knowledge entries.

use vstd::prelude::*;
use crate::text::{contains, contains_seq, str_chars};

verus! {

/// A stored location as the editor lists it.
#[derive(Debug, Clone)]
pub struct WorldEditorLocationSummaryDto {
    pub location_id: String,
    pub name: String,
    pub canonical_level: String,
    pub parent_id: Option<String>,
    pub status: String,
}

/// A stored knowledge entry as the editor lists it.
#[derive(Debug, Clone)]
pub struct WorldEditorKnowledgeSummaryDto {
    pub knowledge_id: String,
    pub kind: String,
    pub subject_type: String,
    pub subject_id: Option<String>,
    pub facet_type: Option<String>,
    pub summary_text: String,
    pub has_god_only: bool,
    pub has_apparent_content: bool,
    pub updated_at: String,
}

/// The string member `key` of the JSON value that `text` holds: `None`
/// where the text is not JSON, or the member is missing or not a string.
pub uninterp spec fn json_text_member(text: Seq<char>, key: Seq<char>) -> Option<Seq<char>>;

/// `serde_json::from_str::<serde_json::Value>(text)`, then
/// `get(key)` and `as_str()`: the string member `key` of the JSON value
/// the text holds. What the parse gives is named `json_text_member`, not
/// stated.
#[verifier::external_body]
fn json_string_member(text: &str, key: &str) -> (r: Option<String>)
    ensures
        match r {
            Some(s) => json_text_member(text@, key@) == Some(s@),
            None => json_text_member(text@, key@) is None,
        },
{
    let value: serde_json::Value = serde_json::from_str(text).ok()?;
    value.get(key)?.as_str().map(|s| s.to_owned())
}

pub open spec fn opt_view(o: Option<String>) -> Option<Seq<char>> {
    match o {
        Some(s) => Some(s@),
        None => None,
    }
}

/// The summary of a stored knowledge entry: its content's `summary_text`
/// (empty where there is none), whether its access policy names `GodOnly`,
/// and whether it has an apparent content.
pub fn knowledge_summary(
    knowledge_id: String,
    kind: String,
    subject_type: String,
    subject_id: Option<String>,
    facet_type: Option<String>,
    content_text: &str,
    apparent_content_text: &Option<String>,
    access_policy_text: &str,
    updated_at: String,
) -> (r: WorldEditorKnowledgeSummaryDto)
    ensures
        r.knowledge_id@ == knowledge_id@,
        r.kind@ == kind@,
        r.subject_type@ == subject_type@,
        opt_view(r.subject_id) == opt_view(subject_id),
        opt_view(r.facet_type) == opt_view(facet_type),
        r.summary_text@ == match json_text_member(content_text@, "summary_text"@) {
            Some(t) => t,
            None => Seq::empty(),
        },
        r.has_god_only == contains(access_policy_text@, "GodOnly"@),
        r.has_apparent_content == apparent_content_text.is_some(),
        r.updated_at@ == updated_at@,
{
    let summary_text = match json_string_member(content_text, "summary_text") {
        Some(t) => t,
        None => String::new(),
    };
    let has_god_only = contains_seq(&str_chars(access_policy_text), &str_chars("GodOnly"));
    WorldEditorKnowledgeSummaryDto {
        knowledge_id,
        kind,
        subject_type,
        subject_id,
        facet_type,
        summary_text,
        has_god_only,
        has_apparent_content: apparent_content_text.is_some(),
        updated_at,
    }
}

} // verus!
