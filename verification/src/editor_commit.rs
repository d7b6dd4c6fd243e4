//! Committing a world editor patch: when a commit may go ahead, the
//! verdict of its validation, the records it changes, and the patch that
//! undoes it.

use vstd::prelude::*;
use crate::json::{json_view, vget, vjson_get, JsonValue, JsonView};
use crate::text::{chars_to_string, extend_chars, join_strings, join_with, str_chars, strings_view};
use crate::world_editor::{
    append_issues, edge_issues, issue_view, issues_view, IssueView, ValidationIssue,
    ValidationSeverity, WorldEditorValidator,
};
use crate::world_model::{CharacterRecord, KnowledgeEntry, LocationEdge, LocationNode};
use crate::world_patch::{
    characters_issues, check_characters, check_knowledge_list, check_locations,
    knowledge_list_issues, locations_issues, opts_view, u64_decimal, WorldEditorChanges,
};

verus! {

// ---------------------------------------------------------------------------
// When a commit may go ahead
// ---------------------------------------------------------------------------

pub open spec fn not_paused_message() -> Seq<char> {
    "World is not paused - cannot commit editor changes"@
}

pub open spec fn mismatch_message(base: u64, current: u64) -> Seq<char> {
    "Revision mismatch: expected "@ + crate::text::decimal(base as nat) + ", got "@
        + crate::text::decimal(current as nat)
}

/// A commit goes ahead only while the world is paused and only on the
/// revision it was made against; it then yields the next revision.
pub fn check_commit_allowed(paused: bool, current_revision: u64, base_revision: u64) -> (r: Result<u64, String>)
    requires
        base_revision < u64::MAX,
    ensures
        match r {
            Ok(next) => paused && current_revision == base_revision && next == base_revision + 1,
            Err(e) => if !paused {
                e@ == not_paused_message()
            } else {
                current_revision != base_revision && e@ == mismatch_message(base_revision, current_revision)
            },
        },
{
    if !paused {
        return Err("World is not paused - cannot commit editor changes".to_owned());
    }
    if current_revision != base_revision {
        let mut v = str_chars("Revision mismatch: expected ");
        extend_chars(&mut v, &u64_decimal(base_revision));
        extend_chars(&mut v, &str_chars(", got "));
        extend_chars(&mut v, &u64_decimal(current_revision));
        return Err(chars_to_string(&v));
    }
    Ok(base_revision + 1)
}

/// A world is paused while no turn is active and no model call is pending.
pub open spec fn paused_by_counts(active_turns: i64, pending_calls: i64) -> bool {
    active_turns <= 0 && pending_calls == 0
}

/// Whether a world is paused, from its counts of active turns and of model
/// calls still pending.
pub fn world_is_paused(active_turns: i64, pending_calls: i64) -> (r: bool)
    ensures
        r == paused_by_counts(active_turns, pending_calls),
{
    if active_turns > 0 {
        return false;
    }
    pending_calls == 0
}

/// The editor's status of a world: an active turn first, then pending
/// model calls, else paused.
pub open spec fn editor_status_of(active_turns: i64, pending_calls: i64) -> Seq<char> {
    if active_turns > 0 {
        "active_turn"@
    } else if pending_calls > 0 {
        "pending_llm"@
    } else {
        "paused"@
    }
}

/// The editor's status of a world, from its counts.
pub fn world_editor_status(active_turns: i64, pending_calls: i64) -> (r: String)
    ensures
        r@ == editor_status_of(active_turns, pending_calls),
{
    if active_turns > 0 {
        return "active_turn".to_owned();
    }
    if pending_calls > 0 {
        return "pending_llm".to_owned();
    }
    "paused".to_owned()
}

/// The editor shows a world as paused exactly when a commit may go ahead
/// on it, for any counts of active turns and pending calls.
pub proof fn law_status_paused_iff_commit_allowed(active_turns: i64, pending_calls: i64)
    requires
        active_turns >= 0,
        pending_calls >= 0,
    ensures
        (editor_status_of(active_turns, pending_calls) == "paused"@) == paused_by_counts(
            active_turns,
            pending_calls,
        ),
{
    reveal_strlit("paused");
    reveal_strlit("active_turn");
    reveal_strlit("pending_llm");
    assert("active_turn"@.len() != "paused"@.len());
    assert("pending_llm"@.len() != "paused"@.len());
}

// ---------------------------------------------------------------------------
// The verdict of a commit's validation
// ---------------------------------------------------------------------------

pub open spec fn edges_issues(s: Seq<LocationEdge>) -> Seq<IssueView>
    decreases s.len(),
{
    if s.len() == 0 {
        Seq::empty()
    } else {
        edges_issues(s.drop_last()) + edge_issues(s.last())
    }
}

/// The issues a commit checks: its locations, new edges, knowledge entries
/// and characters, creates before updates.
pub open spec fn commit_issues(
    c: WorldEditorChanges,
    create_errs: Seq<Option<Seq<char>>>,
    update_errs: Seq<Option<Seq<char>>>,
) -> Seq<IssueView> {
    locations_issues(c.location_creates@) + locations_issues(c.location_updates@) + edges_issues(
        c.edge_creates@,
    ) + knowledge_list_issues(c.knowledge_creates@, create_errs) + knowledge_list_issues(
        c.knowledge_updates@,
        update_errs,
    ) + characters_issues(c.character_creates@) + characters_issues(c.character_updates@)
}

/// `path: message` of each issue of severity `sev`, in order.
pub open spec fn issue_lines(s: Seq<IssueView>, sev: ValidationSeverity) -> Seq<Seq<char>>
    decreases s.len(),
{
    if s.len() == 0 {
        Seq::empty()
    } else {
        issue_lines(s.drop_last(), sev) + if s.last().0 == sev {
            seq![s.last().1 + ": "@ + s.last().2]
        } else {
            Seq::empty()
        }
    }
}

/// What the journal keeps of a commit's validation.
#[derive(Debug, Clone)]
pub struct ValidationSummary {
    pub error_count: usize,
    pub warning_count: usize,
    pub warnings: Vec<String>,
}

fn check_edges(issues: &mut Vec<ValidationIssue>, s: &Vec<LocationEdge>)
    ensures
        issues_view(final(issues)@) == issues_view(old(issues)@) + edges_issues(s@),
{
    let mut i: usize = 0;
    while i < s.len()
        invariant
            i <= s.len(),
            issues_view(issues@) == issues_view(old(issues)@) + edges_issues(s@.take(i as int)),
        decreases s.len() - i,
    {
        assert(s@.take((i + 1) as int).drop_last() =~= s@.take(i as int));
        match WorldEditorValidator::validate_edge(&s[i]) {
            Ok(v) => append_issues(issues, v),
            Err(_) => {},
        }
        i += 1;
    }
    assert(s@.take(s.len() as int) =~= s@);
}

fn split_lines(issues: &Vec<ValidationIssue>) -> (r: (Vec<String>, Vec<String>))
    ensures
        strings_view(r.0@) == issue_lines(issues_view(issues@), ValidationSeverity::Error),
        strings_view(r.1@) == issue_lines(issues_view(issues@), ValidationSeverity::Warning),
{
    let mut errors: Vec<String> = Vec::new();
    let mut warnings: Vec<String> = Vec::new();
    let mut i: usize = 0;
    while i < issues.len()
        invariant
            i <= issues.len(),
            strings_view(errors@) == issue_lines(
                issues_view(issues@.take(i as int)),
                ValidationSeverity::Error,
            ),
            strings_view(warnings@) == issue_lines(
                issues_view(issues@.take(i as int)),
                ValidationSeverity::Warning,
            ),
        decreases issues.len() - i,
    {
        let ghost e0 = errors@;
        let ghost w0 = warnings@;
        assert(issues_view(issues@.take((i + 1) as int)).drop_last() =~= issues_view(
            issues@.take(i as int),
        ));
        let issue = &issues[i];
        let mut v = str_chars(issue.field_path.as_str());
        extend_chars(&mut v, &str_chars(": "));
        extend_chars(&mut v, &str_chars(issue.message.as_str()));
        let line = chars_to_string(&v);
        assert(issue_view(*issue) == issues_view(issues@.take((i + 1) as int)).last());
        if issue.severity == ValidationSeverity::Error {
            errors.push(line);
            assert(strings_view(errors@) =~= strings_view(e0).push(line@));
            assert(strings_view(warnings@) =~= strings_view(w0));
        } else {
            warnings.push(line);
            assert(strings_view(warnings@) =~= strings_view(w0).push(line@));
            assert(strings_view(errors@) =~= strings_view(e0));
        }
        i += 1;
    }
    assert(issues@.take(issues.len() as int) =~= issues@);
    (errors, warnings)
}

pub open spec fn failure_message(errors: Seq<Seq<char>>) -> Seq<char> {
    "World editor validation failed: "@ + join_with(errors, "; "@)
}

/// Validates the entries a commit writes. Any error refuses the commit,
/// naming every error; else the summary counts the warnings and keeps
/// them. `create_schema_errors` and `update_schema_errors` hold the mind
/// model card decoder's verdict on each created and updated knowledge
/// entry's content, in order.
pub fn summarize_commit_validation(
    changes: &WorldEditorChanges,
    create_schema_errors: &Vec<Option<String>>,
    update_schema_errors: &Vec<Option<String>>,
) -> (r: Result<ValidationSummary, String>)
    requires
        create_schema_errors.len() == changes.knowledge_creates.len(),
        update_schema_errors.len() == changes.knowledge_updates.len(),
    ensures
        ({
            let all = commit_issues(
                *changes,
                opts_view(create_schema_errors@),
                opts_view(update_schema_errors@),
            );
            let errors = issue_lines(all, ValidationSeverity::Error);
            let warnings = issue_lines(all, ValidationSeverity::Warning);
            match r {
                Ok(s) => {
                    &&& errors.len() == 0
                    &&& s.error_count == 0
                    &&& s.warning_count == warnings.len()
                    &&& strings_view(s.warnings@) == warnings
                },
                Err(e) => errors.len() > 0 && e@ == failure_message(errors),
            }
        }),
{
    let mut issues: Vec<ValidationIssue> = Vec::new();
    check_locations(&mut issues, &changes.location_creates);
    check_locations(&mut issues, &changes.location_updates);
    check_edges(&mut issues, &changes.edge_creates);
    check_knowledge_list(&mut issues, &changes.knowledge_creates, create_schema_errors);
    check_knowledge_list(&mut issues, &changes.knowledge_updates, update_schema_errors);
    check_characters(&mut issues, &changes.character_creates);
    check_characters(&mut issues, &changes.character_updates);
    let (errors, warnings) = split_lines(&issues);
    if errors.len() > 0 {
        let joined = join_strings(&errors, "; ");
        let mut v = str_chars("World editor validation failed: ");
        extend_chars(&mut v, &str_chars(joined.as_str()));
        return Err(chars_to_string(&v));
    }
    let n = warnings.len();
    Ok(ValidationSummary { error_count: 0, warning_count: n, warnings })
}

// ---------------------------------------------------------------------------
// The records a commit changes
// ---------------------------------------------------------------------------

pub open spec fn location_ids(s: Seq<LocationNode>) -> Seq<Seq<char>> {
    s.map_values(|x: LocationNode| x.location_id@)
}

pub open spec fn edge_ids(s: Seq<LocationEdge>) -> Seq<Seq<char>> {
    s.map_values(|x: LocationEdge| x.edge_id@)
}

pub open spec fn knowledge_ids(s: Seq<KnowledgeEntry>) -> Seq<Seq<char>> {
    s.map_values(|x: KnowledgeEntry| x.knowledge_id@)
}

pub open spec fn character_ids(s: Seq<CharacterRecord>) -> Seq<Seq<char>> {
    s.map_values(|x: CharacterRecord| x.character_id@)
}

/// The ids of the records a commit writes, by kind, in the order it writes
/// them: creates, updates, deletes.
#[derive(Debug, Clone)]
pub struct ChangedIds {
    pub locations: Vec<String>,
    pub knowledge: Vec<String>,
    pub characters: Vec<String>,
    pub relationships: Vec<String>,
}

fn push_all(out: &mut Vec<String>, ids: &Vec<String>)
    ensures
        strings_view(final(out)@) == strings_view(old(out)@) + strings_view(ids@),
{
    let mut i: usize = 0;
    while i < ids.len()
        invariant
            i <= ids.len(),
            strings_view(out@) == strings_view(old(out)@) + strings_view(ids@.take(i as int)),
        decreases ids.len() - i,
    {
        let ghost before = out@;
        out.push(ids[i].clone());
        assert(strings_view(ids@.take((i + 1) as int)) =~= strings_view(ids@.take(i as int)).push(
            ids@[i as int]@,
        ));
        assert(strings_view(out@) =~= strings_view(before).push(ids@[i as int]@));
        i += 1;
    }
    assert(ids@.take(ids.len() as int) =~= ids@);
}

fn push_location_ids(out: &mut Vec<String>, s: &Vec<LocationNode>)
    ensures
        strings_view(final(out)@) == strings_view(old(out)@) + location_ids(s@),
{
    let mut i: usize = 0;
    while i < s.len()
        invariant
            i <= s.len(),
            strings_view(out@) == strings_view(old(out)@) + location_ids(s@.take(i as int)),
        decreases s.len() - i,
    {
        let ghost before = out@;
        out.push(s[i].location_id.clone());
        assert(location_ids(s@.take((i + 1) as int)) =~= location_ids(s@.take(i as int)).push(
            s@[i as int].location_id@,
        ));
        assert(strings_view(out@) =~= strings_view(before).push(s@[i as int].location_id@));
        i += 1;
    }
    assert(s@.take(s.len() as int) =~= s@);
}

fn push_edge_ids(out: &mut Vec<String>, s: &Vec<LocationEdge>)
    ensures
        strings_view(final(out)@) == strings_view(old(out)@) + edge_ids(s@),
{
    let mut i: usize = 0;
    while i < s.len()
        invariant
            i <= s.len(),
            strings_view(out@) == strings_view(old(out)@) + edge_ids(s@.take(i as int)),
        decreases s.len() - i,
    {
        let ghost before = out@;
        out.push(s[i].edge_id.clone());
        assert(edge_ids(s@.take((i + 1) as int)) =~= edge_ids(s@.take(i as int)).push(
            s@[i as int].edge_id@,
        ));
        assert(strings_view(out@) =~= strings_view(before).push(s@[i as int].edge_id@));
        i += 1;
    }
    assert(s@.take(s.len() as int) =~= s@);
}

fn push_knowledge_ids(out: &mut Vec<String>, s: &Vec<KnowledgeEntry>)
    ensures
        strings_view(final(out)@) == strings_view(old(out)@) + knowledge_ids(s@),
{
    let mut i: usize = 0;
    while i < s.len()
        invariant
            i <= s.len(),
            strings_view(out@) == strings_view(old(out)@) + knowledge_ids(s@.take(i as int)),
        decreases s.len() - i,
    {
        let ghost before = out@;
        out.push(s[i].knowledge_id.clone());
        assert(knowledge_ids(s@.take((i + 1) as int)) =~= knowledge_ids(s@.take(i as int)).push(
            s@[i as int].knowledge_id@,
        ));
        assert(strings_view(out@) =~= strings_view(before).push(s@[i as int].knowledge_id@));
        i += 1;
    }
    assert(s@.take(s.len() as int) =~= s@);
}

fn push_character_ids(out: &mut Vec<String>, s: &Vec<CharacterRecord>)
    ensures
        strings_view(final(out)@) == strings_view(old(out)@) + character_ids(s@),
{
    let mut i: usize = 0;
    while i < s.len()
        invariant
            i <= s.len(),
            strings_view(out@) == strings_view(old(out)@) + character_ids(s@.take(i as int)),
        decreases s.len() - i,
    {
        let ghost before = out@;
        out.push(s[i].character_id.clone());
        assert(character_ids(s@.take((i + 1) as int)) =~= character_ids(s@.take(i as int)).push(
            s@[i as int].character_id@,
        ));
        assert(strings_view(out@) =~= strings_view(before).push(s@[i as int].character_id@));
        i += 1;
    }
    assert(s@.take(s.len() as int) =~= s@);
}

/// The records a commit changes: locations, knowledge entries and
/// characters created, updated or deleted, and edges created or deleted.
pub fn changed_ids(changes: &WorldEditorChanges) -> (r: ChangedIds)
    ensures
        strings_view(r.locations@) == location_ids(changes.location_creates@) + location_ids(
            changes.location_updates@,
        ) + strings_view(changes.location_deletes@),
        strings_view(r.relationships@) == edge_ids(changes.edge_creates@) + strings_view(
            changes.edge_deletes@,
        ),
        strings_view(r.knowledge@) == knowledge_ids(changes.knowledge_creates@) + knowledge_ids(
            changes.knowledge_updates@,
        ) + strings_view(changes.knowledge_deletes@),
        strings_view(r.characters@) == character_ids(changes.character_creates@) + character_ids(
            changes.character_updates@,
        ) + strings_view(changes.character_deletes@),
{
    let mut locations: Vec<String> = Vec::new();
    push_location_ids(&mut locations, &changes.location_creates);
    push_location_ids(&mut locations, &changes.location_updates);
    push_all(&mut locations, &changes.location_deletes);
    let mut relationships: Vec<String> = Vec::new();
    push_edge_ids(&mut relationships, &changes.edge_creates);
    push_all(&mut relationships, &changes.edge_deletes);
    let mut knowledge: Vec<String> = Vec::new();
    push_knowledge_ids(&mut knowledge, &changes.knowledge_creates);
    push_knowledge_ids(&mut knowledge, &changes.knowledge_updates);
    push_all(&mut knowledge, &changes.knowledge_deletes);
    let mut characters: Vec<String> = Vec::new();
    push_character_ids(&mut characters, &changes.character_creates);
    push_character_ids(&mut characters, &changes.character_updates);
    push_all(&mut characters, &changes.character_deletes);
    ChangedIds { locations, knowledge, characters, relationships }
}

// ---------------------------------------------------------------------------
// The records whose previous image a commit keeps
// ---------------------------------------------------------------------------

/// The four kinds of record a patch touches, as its rollback patch names them.
#[derive(Debug, Clone, Copy, PartialEq, Eq, Structural)]
pub enum RecordSection {
    Locations,
    Edges,
    Knowledge,
    Characters,
}

/// Why a record's previous image is read.
#[derive(Debug, Clone, Copy, PartialEq, Eq, Structural)]
pub enum LookupPurpose {
    Update,
    Delete,
}

/// A record whose image before the commit must be read.
#[derive(Debug, Clone)]
pub struct RecordLookup {
    pub section: RecordSection,
    pub purpose: LookupPurpose,
    pub id: String,
}

pub type LookupView = (RecordSection, LookupPurpose, Seq<char>);

pub open spec fn lookup_view(l: RecordLookup) -> LookupView {
    (l.section, l.purpose, l.id@)
}

pub open spec fn lookups_view(s: Seq<RecordLookup>) -> Seq<LookupView> {
    s.map_values(|l: RecordLookup| lookup_view(l))
}

pub open spec fn tagged(ids: Seq<Seq<char>>, section: RecordSection, purpose: LookupPurpose) -> Seq<
    LookupView,
> {
    ids.map_values(|id: Seq<char>| (section, purpose, id))
}

/// The records whose previous image a commit keeps, in the order it reads
/// them: updated and deleted locations, deleted edges, updated and deleted
/// knowledge entries, updated and deleted characters.
pub open spec fn rollback_lookup_views(c: WorldEditorChanges) -> Seq<LookupView> {
    tagged(location_ids(c.location_updates@), RecordSection::Locations, LookupPurpose::Update)
        + tagged(strings_view(c.location_deletes@), RecordSection::Locations, LookupPurpose::Delete)
        + tagged(strings_view(c.edge_deletes@), RecordSection::Edges, LookupPurpose::Delete)
        + tagged(knowledge_ids(c.knowledge_updates@), RecordSection::Knowledge, LookupPurpose::Update)
        + tagged(strings_view(c.knowledge_deletes@), RecordSection::Knowledge, LookupPurpose::Delete)
        + tagged(character_ids(c.character_updates@), RecordSection::Characters, LookupPurpose::Update)
        + tagged(strings_view(c.character_deletes@), RecordSection::Characters, LookupPurpose::Delete)
}

fn push_lookups(out: &mut Vec<RecordLookup>, ids: &Vec<String>, section: RecordSection, purpose: LookupPurpose)
    ensures
        lookups_view(final(out)@) == lookups_view(old(out)@) + tagged(strings_view(ids@), section, purpose),
{
    let mut i: usize = 0;
    while i < ids.len()
        invariant
            i <= ids.len(),
            lookups_view(out@) == lookups_view(old(out)@) + tagged(
                strings_view(ids@.take(i as int)),
                section,
                purpose,
            ),
        decreases ids.len() - i,
    {
        let ghost before = out@;
        let l = RecordLookup { section, purpose, id: ids[i].clone() };
        out.push(l);
        assert(tagged(strings_view(ids@.take((i + 1) as int)), section, purpose) =~= tagged(
            strings_view(ids@.take(i as int)),
            section,
            purpose,
        ).push(lookup_view(l)));
        assert(lookups_view(out@) =~= lookups_view(before).push(lookup_view(l)));
        i += 1;
    }
    assert(ids@.take(ids.len() as int) =~= ids@);
}

/// The records whose previous image a commit must read before it writes.
pub fn rollback_lookups(changes: &WorldEditorChanges) -> (r: Vec<RecordLookup>)
    ensures
        lookups_view(r@) == rollback_lookup_views(*changes),
{
    let mut ids: Vec<String> = Vec::new();
    push_location_ids(&mut ids, &changes.location_updates);
    assert(strings_view(ids@) =~= location_ids(changes.location_updates@));
    let mut out: Vec<RecordLookup> = Vec::new();
    push_lookups(&mut out, &ids, RecordSection::Locations, LookupPurpose::Update);
    push_lookups(&mut out, &changes.location_deletes, RecordSection::Locations, LookupPurpose::Delete);
    push_lookups(&mut out, &changes.edge_deletes, RecordSection::Edges, LookupPurpose::Delete);
    let mut ids: Vec<String> = Vec::new();
    push_knowledge_ids(&mut ids, &changes.knowledge_updates);
    assert(strings_view(ids@) =~= knowledge_ids(changes.knowledge_updates@));
    push_lookups(&mut out, &ids, RecordSection::Knowledge, LookupPurpose::Update);
    push_lookups(&mut out, &changes.knowledge_deletes, RecordSection::Knowledge, LookupPurpose::Delete);
    let mut ids: Vec<String> = Vec::new();
    push_character_ids(&mut ids, &changes.character_updates);
    assert(strings_view(ids@) =~= character_ids(changes.character_updates@));
    push_lookups(&mut out, &ids, RecordSection::Characters, LookupPurpose::Update);
    push_lookups(&mut out, &changes.character_deletes, RecordSection::Characters, LookupPurpose::Delete);
    assert(lookups_view(out@) =~= rollback_lookup_views(*changes));
    out
}

// ---------------------------------------------------------------------------
// The rollback patch
// ---------------------------------------------------------------------------

/// Writing each (id, value) in turn into a map, a later value replacing an
/// earlier one of the same id.
pub open spec fn fold_writes(w: Seq<(Seq<char>, JsonView)>) -> Map<Seq<char>, JsonView>
    decreases w.len(),
{
    if w.len() == 0 {
        Map::empty()
    } else {
        fold_writes(w.drop_last()).insert(w.last().0, w.last().1)
    }
}

pub open spec fn entries_view(s: Seq<(String, JsonValue)>) -> Seq<(Seq<char>, JsonView)> {
    s.map_values(|e: (String, JsonValue)| (e.0@, json_view(e.1)))
}

/// No id occurs twice.
pub open spec fn ids_unique(s: Seq<(Seq<char>, JsonView)>) -> bool {
    forall|i: int, j: int| 0 <= i < j < s.len() ==> #[trigger] s[i].0 != #[trigger] s[j].0
}

/// The previous image of each record a commit changes, by kind: JSON null
/// for a record the commit creates, so that rolling back deletes it; the
/// full record before the commit for one it updates or deletes.
#[derive(Debug)]
pub struct RollbackPatch {
    pub locations: Vec<(String, JsonValue)>,
    pub edges: Vec<(String, JsonValue)>,
    pub knowledge: Vec<(String, JsonValue)>,
    pub characters: Vec<(String, JsonValue)>,
}

proof fn lemma_fold_replace(s: Seq<(Seq<char>, JsonView)>, j: int, v: JsonView)
    requires
        ids_unique(s),
        0 <= j < s.len(),
    ensures
        fold_writes(s.update(j, (s[j].0, v))) == fold_writes(s).insert(s[j].0, v),
    decreases s.len(),
{
    let u = s.update(j, (s[j].0, v));
    if j == s.len() - 1 {
        assert(u.drop_last() =~= s.drop_last());
        assert(fold_writes(u) =~= fold_writes(s).insert(s[j].0, v));
    } else {
        let d = s.drop_last();
        assert(u.drop_last() =~= d.update(j, (d[j].0, v)));
        assert(ids_unique(d)) by {
            assert forall|a: int, b: int| 0 <= a < b < d.len() implies #[trigger] d[a].0 != #[trigger] d[b].0 by {
                assert(s[a].0 != s[b].0);
            }
        }
        lemma_fold_replace(d, j, v);
        assert(s[j].0 != s.last().0);
        assert(fold_writes(u) =~= fold_writes(s).insert(s[j].0, v));
    }
}

/// Writes `value` under `id`: in place where `id` is present, else at the end.
fn put(entries: &mut Vec<(String, JsonValue)>, id: &String, value: JsonValue)
    requires
        ids_unique(entries_view(old(entries)@)),
    ensures
        ids_unique(entries_view(final(entries)@)),
        fold_writes(entries_view(final(entries)@)) == fold_writes(entries_view(old(entries)@)).insert(
            id@,
            json_view(value),
        ),
{
    let ghost s0 = entries_view(entries@);
    let mut i: usize = 0;
    while i < entries.len()
        invariant
            i <= entries.len(),
            s0 == entries_view(entries@),
            s0 == entries_view(old(entries)@),
            ids_unique(s0),
            forall|k: int| 0 <= k < i ==> (#[trigger] s0[k]).0 != id@,
        decreases entries.len() - i,
    {
        if crate::text::str_eq(entries[i].0.as_str(), id.as_str()) {
            let ghost v = json_view(value);
            proof {
                lemma_fold_replace(s0, i as int, v);
            }
            let key = entries[i].0.clone();
            entries.set(i, (key, value));
            assert(entries_view(entries@) =~= s0.update(i as int, (s0[i as int].0, v)));
            assert(s0[i as int].0 == id@);
            assert(fold_writes(entries_view(entries@)) == fold_writes(s0).insert(id@, v));
            assert(ids_unique(entries_view(entries@))) by {
                let e = entries_view(entries@);
                assert forall|a: int, b: int| 0 <= a < b < e.len() implies #[trigger] e[a].0 != #[trigger] e[b].0 by {
                    assert(e[a].0 == s0[a].0 && e[b].0 == s0[b].0);
                }
            }
            return;
        }
        i += 1;
    }
    let ghost v = json_view(value);
    entries.push((id.clone(), value));
    assert(entries_view(entries@) =~= s0.push((id@, v)));
    assert(entries_view(entries@).drop_last() =~= s0);
}

/// The section a lookup's image goes to.
pub open spec fn image_writes(ls: Seq<LookupView>, imgs: Seq<JsonView>, section: RecordSection) -> Seq<
    (Seq<char>, JsonView),
>
    decreases ls.len(),
{
    if ls.len() == 0 {
        Seq::empty()
    } else {
        image_writes(ls.drop_last(), imgs, section) + if ls.last().0 == section {
            seq![(ls.last().2, imgs[ls.len() - 1])]
        } else {
            Seq::empty()
        }
    }
}

pub open spec fn null_writes(ids: Seq<Seq<char>>) -> Seq<(Seq<char>, JsonView)> {
    ids.map_values(|id: Seq<char>| (id, JsonView::Null))
}

/// The ids a commit creates in a section.
pub open spec fn created_ids(c: WorldEditorChanges, section: RecordSection) -> Seq<Seq<char>> {
    match section {
        RecordSection::Locations => location_ids(c.location_creates@),
        RecordSection::Edges => edge_ids(c.edge_creates@),
        RecordSection::Knowledge => knowledge_ids(c.knowledge_creates@),
        RecordSection::Characters => character_ids(c.character_creates@),
    }
}

/// What a commit writes into a section of its rollback patch, in order:
/// null for each created record, then the image read for each lookup.
pub open spec fn section_writes(c: WorldEditorChanges, imgs: Seq<JsonView>, section: RecordSection) -> Seq<
    (Seq<char>, JsonView),
> {
    null_writes(created_ids(c, section)) + image_writes(rollback_lookup_views(c), imgs, section)
}

proof fn lemma_first_missing_at(imgs: Seq<Option<JsonValue>>, k: int)
    requires
        0 <= k < imgs.len(),
        imgs[k] is None,
        forall|j: int| 0 <= j < k ==> imgs[j] is Some,
    ensures
        first_missing(imgs) == Some(k),
{
    let p = |x: int| 0 <= x < imgs.len() && imgs[x] is None && forall|j: int| 0 <= j < x ==> imgs[j] is Some;
    assert(p(k));
    let c = choose|x: int| 0 <= x < imgs.len() && imgs[x] is None && forall|j: int| 0 <= j < x ==> imgs[j] is Some;
    assert(p(c));
    if c < k {
        assert(imgs[c] is Some);
    } else if c > k {
        assert(imgs[k] is Some);
    }
}

/// The first image that was not found.
pub open spec fn first_missing(imgs: Seq<Option<JsonValue>>) -> Option<int> {
    if exists|k: int| 0 <= k < imgs.len() && imgs[k] is None {
        Some(choose|k: int| 0 <= k < imgs.len() && imgs[k] is None && forall|j: int| 0 <= j < k ==> imgs[j] is Some)
    } else {
        None
    }
}

pub open spec fn found_images(imgs: Seq<Option<JsonValue>>) -> Seq<JsonView> {
    imgs.map_values(|o: Option<JsonValue>| match o {
        Some(v) => json_view(v),
        None => JsonView::Null,
    })
}

pub open spec fn not_found_message(l: LookupView) -> Seq<char> {
    match (l.0, l.1) {
        (RecordSection::Locations, LookupPurpose::Update) => "Location not found for update: "@ + l.2,
        (RecordSection::Locations, LookupPurpose::Delete) => "Location not found for delete: "@ + l.2,
        (RecordSection::Edges, _) => "Location edge not found for delete: "@ + l.2,
        (RecordSection::Knowledge, LookupPurpose::Update) => "Knowledge not found for update: "@ + l.2,
        (RecordSection::Knowledge, LookupPurpose::Delete) => "Knowledge not found for delete: "@ + l.2,
        (RecordSection::Characters, LookupPurpose::Update) => "Character not found for update: "@ + l.2,
        (RecordSection::Characters, LookupPurpose::Delete) => "Character not found for delete: "@ + l.2,
    }
}

fn not_found(l: &RecordLookup) -> (r: String)
    ensures
        r@ == not_found_message(lookup_view(*l)),
{
    let head = match (l.section, l.purpose) {
        (RecordSection::Locations, LookupPurpose::Update) => "Location not found for update: ",
        (RecordSection::Locations, LookupPurpose::Delete) => "Location not found for delete: ",
        (RecordSection::Edges, _) => "Location edge not found for delete: ",
        (RecordSection::Knowledge, LookupPurpose::Update) => "Knowledge not found for update: ",
        (RecordSection::Knowledge, LookupPurpose::Delete) => "Knowledge not found for delete: ",
        (RecordSection::Characters, LookupPurpose::Update) => "Character not found for update: ",
        (RecordSection::Characters, LookupPurpose::Delete) => "Character not found for delete: ",
    };
    crate::text::join_str(head, l.id.as_str())
}

fn put_nulls(entries: &mut Vec<(String, JsonValue)>, ids: &Vec<String>)
    requires
        ids_unique(entries_view(old(entries)@)),
    ensures
        ids_unique(entries_view(final(entries)@)),
        fold_writes(entries_view(final(entries)@)) == fold_writes(
            entries_view(old(entries)@) + null_writes(strings_view(ids@)),
        ),
{
    let ghost e0 = entries_view(entries@);
    let mut i: usize = 0;
    while i < ids.len()
        invariant
            i <= ids.len(),
            ids_unique(entries_view(entries@)),
            fold_writes(entries_view(entries@)) == fold_writes(
                e0 + null_writes(strings_view(ids@.take(i as int))),
            ),
        decreases ids.len() - i,
    {
        let ghost w = e0 + null_writes(strings_view(ids@.take(i as int)));
        put(entries, &ids[i], JsonValue::Null);
        assert((e0 + null_writes(strings_view(ids@.take((i + 1) as int)))).drop_last() =~= w);
        i += 1;
    }
    assert(ids@.take(ids.len() as int) =~= ids@);
}

pub open spec fn section_of(p: RollbackPatch, section: RecordSection) -> Seq<(String, JsonValue)> {
    match section {
        RecordSection::Locations => p.locations@,
        RecordSection::Edges => p.edges@,
        RecordSection::Knowledge => p.knowledge@,
        RecordSection::Characters => p.characters@,
    }
}

/// The ids of a list of records.
fn ids_of_locations(s: &Vec<LocationNode>) -> (r: Vec<String>)
    ensures
        strings_view(r@) == location_ids(s@),
{
    let mut r: Vec<String> = Vec::new();
    push_location_ids(&mut r, s);
    assert(strings_view(r@) =~= location_ids(s@));
    r
}

fn ids_of_edges(s: &Vec<LocationEdge>) -> (r: Vec<String>)
    ensures
        strings_view(r@) == edge_ids(s@),
{
    let mut r: Vec<String> = Vec::new();
    push_edge_ids(&mut r, s);
    assert(strings_view(r@) =~= edge_ids(s@));
    r
}

fn ids_of_knowledge(s: &Vec<KnowledgeEntry>) -> (r: Vec<String>)
    ensures
        strings_view(r@) == knowledge_ids(s@),
{
    let mut r: Vec<String> = Vec::new();
    push_knowledge_ids(&mut r, s);
    assert(strings_view(r@) =~= knowledge_ids(s@));
    r
}

fn ids_of_characters(s: &Vec<CharacterRecord>) -> (r: Vec<String>)
    ensures
        strings_view(r@) == character_ids(s@),
{
    let mut r: Vec<String> = Vec::new();
    push_character_ids(&mut r, s);
    assert(strings_view(r@) =~= character_ids(s@));
    r
}

/// The rollback patch of a commit. `images` holds, for each record of
/// `rollback_lookups` in order, its image before the commit where it was
/// found. A record not found refuses the patch, naming the first such
/// record; else each section maps each id the commit writes to its last
/// write: null where the commit creates the record, its image where it
/// updates or deletes it.
#[verifier::rlimit(20)]
pub fn assemble_rollback_patch(changes: &WorldEditorChanges, images: &Vec<Option<JsonValue>>) -> (r:
    Result<RollbackPatch, String>)
    requires
        images.len() == rollback_lookup_views(*changes).len(),
    ensures
        match first_missing(images@) {
            Some(k) => r matches Err(e) && e@ == not_found_message(rollback_lookup_views(*changes)[k]),
            None => r matches Ok(p) && forall|sec: RecordSection|
                #![trigger section_of(p, sec)]
                ids_unique(entries_view(section_of(p, sec))) && fold_writes(
                    entries_view(section_of(p, sec)),
                ) == fold_writes(section_writes(*changes, found_images(images@), sec)),
        },
{
    let lookups = rollback_lookups(changes);
    let ghost ls = rollback_lookup_views(*changes);
    let mut k: usize = 0;
    while k < images.len()
        invariant
            k <= images.len(),
            images.len() == ls.len(),
            lookups_view(lookups@) == ls,
            ls == rollback_lookup_views(*changes),
            forall|j: int| 0 <= j < k ==> images@[j] is Some,
        decreases images.len() - k,
    {
        if images[k].is_none() {
            proof {
                lemma_first_missing_at(images@, k as int);
            }
            assert(first_missing(images@) == Some(k as int));
            assert(lookups_view(lookups@)[k as int] == lookup_view(lookups@[k as int]));
            assert(lookup_view(lookups@[k as int]) == ls[k as int]);
            return Err(not_found(&lookups[k]));
        }
        k += 1;
    }
    assert(first_missing(images@) is None);
    let ghost imgs = found_images(images@);
    let mut locations: Vec<(String, JsonValue)> = Vec::new();
    let mut edges: Vec<(String, JsonValue)> = Vec::new();
    let mut knowledge: Vec<(String, JsonValue)> = Vec::new();
    let mut characters: Vec<(String, JsonValue)> = Vec::new();
    assert(entries_view(locations@) =~= Seq::empty());
    assert(entries_view(edges@) =~= Seq::empty());
    assert(entries_view(knowledge@) =~= Seq::empty());
    assert(entries_view(characters@) =~= Seq::empty());
    put_nulls(&mut locations, &ids_of_locations(&changes.location_creates));
    put_nulls(&mut edges, &ids_of_edges(&changes.edge_creates));
    put_nulls(&mut knowledge, &ids_of_knowledge(&changes.knowledge_creates));
    put_nulls(&mut characters, &ids_of_characters(&changes.character_creates));
    let mut i: usize = 0;
    while i < lookups.len()
        invariant
            i <= lookups.len(),
            lookups.len() == images.len(),
            lookups_view(lookups@) == ls,
            ls == rollback_lookup_views(*changes),
            imgs == found_images(images@),
            forall|j: int| 0 <= j < images.len() ==> images@[j] is Some,
            ids_unique(entries_view(locations@)),
            ids_unique(entries_view(edges@)),
            ids_unique(entries_view(knowledge@)),
            ids_unique(entries_view(characters@)),
            fold_writes(entries_view(locations@)) == fold_writes(
                null_writes(created_ids(*changes, RecordSection::Locations)) + image_writes(
                    ls.take(i as int),
                    imgs,
                    RecordSection::Locations,
                ),
            ),
            fold_writes(entries_view(edges@)) == fold_writes(
                null_writes(created_ids(*changes, RecordSection::Edges)) + image_writes(
                    ls.take(i as int),
                    imgs,
                    RecordSection::Edges,
                ),
            ),
            fold_writes(entries_view(knowledge@)) == fold_writes(
                null_writes(created_ids(*changes, RecordSection::Knowledge)) + image_writes(
                    ls.take(i as int),
                    imgs,
                    RecordSection::Knowledge,
                ),
            ),
            fold_writes(entries_view(characters@)) == fold_writes(
                null_writes(created_ids(*changes, RecordSection::Characters)) + image_writes(
                    ls.take(i as int),
                    imgs,
                    RecordSection::Characters,
                ),
            ),
        decreases lookups.len() - i,
    {
        let l = &lookups[i];
        let value = match &images[i] {
            Some(v) => v.deep_clone(),
            None => JsonValue::Null,
        };
        assert(json_view(value) == imgs[i as int]);
        assert(lookup_view(*l) == ls[i as int]);
        assert(ls.take((i + 1) as int).drop_last() =~= ls.take(i as int));
        let ghost step = seq![(l.id@, json_view(value))];
        proof {
            let t = ls.take((i + 1) as int);
            assert(t.last() == ls[i as int]);
            assert(t.len() - 1 == i);
        }
        match l.section {
            RecordSection::Locations => {
                let ghost pre = null_writes(created_ids(*changes, RecordSection::Locations)) + image_writes(
                    ls.take(i as int), imgs, RecordSection::Locations);
                put(&mut locations, &l.id, value);
                assert((pre + step).drop_last() =~= pre);
                assert(null_writes(created_ids(*changes, RecordSection::Locations)) + image_writes(
                    ls.take((i + 1) as int), imgs, RecordSection::Locations) =~= pre + step);
                assert(image_writes(ls.take((i + 1) as int), imgs, RecordSection::Edges) =~= image_writes(
                    ls.take(i as int), imgs, RecordSection::Edges));
                assert(image_writes(ls.take((i + 1) as int), imgs, RecordSection::Knowledge) =~= image_writes(
                    ls.take(i as int), imgs, RecordSection::Knowledge));
                assert(image_writes(ls.take((i + 1) as int), imgs, RecordSection::Characters) =~= image_writes(
                    ls.take(i as int), imgs, RecordSection::Characters));
            },
            RecordSection::Edges => {
                let ghost pre = null_writes(created_ids(*changes, RecordSection::Edges)) + image_writes(
                    ls.take(i as int), imgs, RecordSection::Edges);
                put(&mut edges, &l.id, value);
                assert((pre + step).drop_last() =~= pre);
                assert(null_writes(created_ids(*changes, RecordSection::Edges)) + image_writes(
                    ls.take((i + 1) as int), imgs, RecordSection::Edges) =~= pre + step);
                assert(image_writes(ls.take((i + 1) as int), imgs, RecordSection::Locations) =~= image_writes(
                    ls.take(i as int), imgs, RecordSection::Locations));
                assert(image_writes(ls.take((i + 1) as int), imgs, RecordSection::Knowledge) =~= image_writes(
                    ls.take(i as int), imgs, RecordSection::Knowledge));
                assert(image_writes(ls.take((i + 1) as int), imgs, RecordSection::Characters) =~= image_writes(
                    ls.take(i as int), imgs, RecordSection::Characters));
            },
            RecordSection::Knowledge => {
                let ghost pre = null_writes(created_ids(*changes, RecordSection::Knowledge)) + image_writes(
                    ls.take(i as int), imgs, RecordSection::Knowledge);
                put(&mut knowledge, &l.id, value);
                assert((pre + step).drop_last() =~= pre);
                assert(null_writes(created_ids(*changes, RecordSection::Knowledge)) + image_writes(
                    ls.take((i + 1) as int), imgs, RecordSection::Knowledge) =~= pre + step);
                assert(image_writes(ls.take((i + 1) as int), imgs, RecordSection::Locations) =~= image_writes(
                    ls.take(i as int), imgs, RecordSection::Locations));
                assert(image_writes(ls.take((i + 1) as int), imgs, RecordSection::Edges) =~= image_writes(
                    ls.take(i as int), imgs, RecordSection::Edges));
                assert(image_writes(ls.take((i + 1) as int), imgs, RecordSection::Characters) =~= image_writes(
                    ls.take(i as int), imgs, RecordSection::Characters));
            },
            RecordSection::Characters => {
                let ghost pre = null_writes(created_ids(*changes, RecordSection::Characters)) + image_writes(
                    ls.take(i as int), imgs, RecordSection::Characters);
                put(&mut characters, &l.id, value);
                assert((pre + step).drop_last() =~= pre);
                assert(null_writes(created_ids(*changes, RecordSection::Characters)) + image_writes(
                    ls.take((i + 1) as int), imgs, RecordSection::Characters) =~= pre + step);
                assert(image_writes(ls.take((i + 1) as int), imgs, RecordSection::Locations) =~= image_writes(
                    ls.take(i as int), imgs, RecordSection::Locations));
                assert(image_writes(ls.take((i + 1) as int), imgs, RecordSection::Edges) =~= image_writes(
                    ls.take(i as int), imgs, RecordSection::Edges));
                assert(image_writes(ls.take((i + 1) as int), imgs, RecordSection::Knowledge) =~= image_writes(
                    ls.take(i as int), imgs, RecordSection::Knowledge));
            },
        }
        i += 1;
    }
    assert(ls.take(ls.len() as int) =~= ls);
    let p = RollbackPatch { locations, edges, knowledge, characters };
    assert forall|sec: RecordSection|
        #![trigger section_of(p, sec)]
        ids_unique(entries_view(section_of(p, sec))) && fold_writes(entries_view(section_of(p, sec)))
            == fold_writes(section_writes(*changes, imgs, sec)) by {
        match sec {
            RecordSection::Locations => {},
            RecordSection::Edges => {},
            RecordSection::Knowledge => {},
            RecordSection::Characters => {},
        }
    }
    Ok(p)
}

// ---------------------------------------------------------------------------
// Rolling a commit back
// ---------------------------------------------------------------------------

/// The name of a section in a stored rollback patch.
pub open spec fn section_name(sec: RecordSection) -> Seq<char> {
    match sec {
        RecordSection::Locations => "locations"@,
        RecordSection::Edges => "edges"@,
        RecordSection::Knowledge => "knowledge"@,
        RecordSection::Characters => "characters"@,
    }
}

/// The rollback patch as stored: one object per section, each mapping a
/// record id to its previous image.
pub open spec fn patch_view(p: RollbackPatch) -> JsonView {
    JsonView::Object(
        seq![
            ("locations"@, JsonView::Object(entries_view(p.locations@))),
            ("edges"@, JsonView::Object(entries_view(p.edges@))),
            ("knowledge"@, JsonView::Object(entries_view(p.knowledge@))),
            ("characters"@, JsonView::Object(entries_view(p.characters@))),
        ],
    )
}

fn entries_json(entries: Vec<(String, JsonValue)>) -> (r: JsonValue)
    ensures
        json_view(r) == JsonView::Object(entries_view(entries@)),
{
    let r = JsonValue::Object(entries);
    assert(json_view(r)->Object_0 =~= entries_view(entries@));
    r
}

/// The rollback patch as it is stored.
pub fn rollback_patch_json(p: RollbackPatch) -> (r: JsonValue)
    ensures
        json_view(r) == patch_view(p),
{
    let ghost p0 = p;
    let RollbackPatch { locations, edges, knowledge, characters } = p;
    let members: Vec<(String, JsonValue)> = vec![
        ("locations".to_owned(), entries_json(locations)),
        ("edges".to_owned(), entries_json(edges)),
        ("knowledge".to_owned(), entries_json(knowledge)),
        ("characters".to_owned(), entries_json(characters)),
    ];
    let r = JsonValue::Object(members);
    assert(json_view(r)->Object_0 =~= patch_view(p0)->Object_0);
    r
}

/// What rolling back does to one record: delete it, or write back its image.
#[derive(Debug)]
pub enum RollbackAction {
    Delete { section: RecordSection, id: String },
    Restore { section: RecordSection, id: String, image: JsonValue },
}

/// An action as plain values: section, id, and the image to restore
/// (none to delete).
pub type ActionView = (RecordSection, Seq<char>, Option<JsonView>);

pub open spec fn action_view(a: RollbackAction) -> ActionView {
    match a {
        RollbackAction::Delete { section, id } => (section, id@, None),
        RollbackAction::Restore { section, id, image } => (section, id@, Some(json_view(image))),
    }
}

pub open spec fn actions_view(s: Seq<RollbackAction>) -> Seq<ActionView> {
    s.map_values(|a: RollbackAction| action_view(a))
}

/// A null image deletes the record; any other image is written back.
pub open spec fn entry_action(sec: RecordSection, e: (Seq<char>, JsonView)) -> ActionView {
    (sec, e.0, if e.1 is Null { None } else { Some(e.1) })
}

/// The actions of one section of a stored patch, in its order; none where
/// the section is absent or not an object.
pub open spec fn section_actions(patch: JsonView, sec: RecordSection) -> Seq<ActionView> {
    match vget(patch, section_name(sec)) {
        Some(JsonView::Object(m)) => m.map_values(|e: (Seq<char>, JsonView)| entry_action(sec, e)),
        _ => Seq::empty(),
    }
}

/// Rolling back a stored patch: its locations, edges, knowledge entries
/// and characters, in that order.
pub open spec fn rollback_plan_view(patch: JsonView) -> Seq<ActionView> {
    section_actions(patch, RecordSection::Locations) + section_actions(patch, RecordSection::Edges)
        + section_actions(patch, RecordSection::Knowledge) + section_actions(
        patch,
        RecordSection::Characters,
    )
}

fn push_section_actions(out: &mut Vec<RollbackAction>, patch: &JsonValue, sec: RecordSection)
    ensures
        actions_view(final(out)@) == actions_view(old(out)@) + section_actions(json_view(*patch), sec),
{
    let name = match sec {
        RecordSection::Locations => "locations",
        RecordSection::Edges => "edges",
        RecordSection::Knowledge => "knowledge",
        RecordSection::Characters => "characters",
    };
    match vjson_get(patch, name) {
        Some(JsonValue::Object(m)) => {
            let ghost vm = json_view(JsonValue::Object(*m))->Object_0;
            assert(vm.len() == m@.len());
            let mut i: usize = 0;
            while i < m.len()
                invariant
                    i <= m.len(),
                    vm == json_view(JsonValue::Object(*m))->Object_0,
                    vm.len() == m@.len(),
                    actions_view(out@) == actions_view(old(out)@) + vm.take(i as int).map_values(
                        |e: (Seq<char>, JsonView)| entry_action(sec, e),
                    ),
                decreases m.len() - i,
            {
                let ghost before = out@;
                let (id, image) = &m[i];
                assert(vm[i as int] == (id@, json_view(*image)));
                let a = match image {
                    JsonValue::Null => RollbackAction::Delete { section: sec, id: id.clone() },
                    _ => RollbackAction::Restore { section: sec, id: id.clone(), image: image.deep_clone() },
                };
                assert(action_view(a) == entry_action(sec, vm[i as int]));
                out.push(a);
                assert(vm.take((i + 1) as int).map_values(|e: (Seq<char>, JsonView)| entry_action(sec, e))
                    =~= vm.take(i as int).map_values(|e: (Seq<char>, JsonView)| entry_action(sec, e)).push(
                    action_view(a),
                ));
                assert(actions_view(out@) =~= actions_view(before).push(action_view(a)));
                i += 1;
            }
            assert(vm.take(vm.len() as int) =~= vm);
        },
        _ => {
            assert(section_actions(json_view(*patch), sec) =~= Seq::empty());
            assert(actions_view(out@) =~= actions_view(old(out)@) + Seq::empty());
        },
    }
}

/// What rolling back a stored patch does, record by record: a null image
/// deletes the record the commit created; any other image writes back the
/// record the commit updated or deleted.
pub fn rollback_plan(patch: &JsonValue) -> (r: Vec<RollbackAction>)
    ensures
        actions_view(r@) == rollback_plan_view(json_view(*patch)),
{
    let mut out: Vec<RollbackAction> = Vec::new();
    assert(actions_view(out@) =~= Seq::empty());
    push_section_actions(&mut out, patch, RecordSection::Locations);
    push_section_actions(&mut out, patch, RecordSection::Edges);
    push_section_actions(&mut out, patch, RecordSection::Knowledge);
    push_section_actions(&mut out, patch, RecordSection::Characters);
    assert(actions_view(out@) =~= rollback_plan_view(json_view(*patch)));
    out
}

// ---------------------------------------------------------------------------
// What rolling back undoes
// ---------------------------------------------------------------------------

proof fn lemma_fold_last(w: Seq<(Seq<char>, JsonView)>, i: int)
    requires
        0 <= i < w.len(),
        forall|j: int| i < j < w.len() ==> (#[trigger] w[j]).0 != w[i].0,
    ensures
        fold_writes(w).dom().contains(w[i].0),
        fold_writes(w)[w[i].0] == w[i].1,
    decreases w.len(),
{
    if i < w.len() - 1 {
        assert(w.last().0 != w[i].0);
        let d = w.drop_last();
        assert forall|j: int| i < j < d.len() implies (#[trigger] d[j]).0 != d[i].0 by {
            assert(d[j] == w[j]);
        }
        lemma_fold_last(d, i);
    }
}

proof fn lemma_fold_dom(w: Seq<(Seq<char>, JsonView)>, id: Seq<char>)
    requires
        fold_writes(w).dom().contains(id),
    ensures
        exists|j: int| 0 <= j < w.len() && (#[trigger] w[j]).0 == id,
    decreases w.len(),
{
    if w.len() > 0 && w.last().0 != id {
        lemma_fold_dom(w.drop_last(), id);
        let j = choose|j: int| 0 <= j < w.drop_last().len() && (#[trigger] w.drop_last()[j]).0 == id;
        assert(w[j] == w.drop_last()[j]);
    } else if w.len() > 0 {
        assert(w[w.len() - 1].0 == id);
    }
}

proof fn lemma_fold_nulls(pre: Seq<(Seq<char>, JsonView)>, ids: Seq<Seq<char>>, id: Seq<char>)
    requires
        ids.contains(id),
    ensures
        fold_writes(pre + null_writes(ids)).dom().contains(id),
        fold_writes(pre + null_writes(ids))[id] == JsonView::Null,
    decreases ids.len(),
{
    let w = pre + null_writes(ids);
    assert(w.drop_last() =~= pre + null_writes(ids.drop_last()));
    if ids.last() != id {
        assert(ids.drop_last().contains(id)) by {
            let k = choose|k: int| 0 <= k < ids.len() && ids[k] == id;
            assert(k != ids.len() - 1);
            assert(ids.drop_last()[k] == id);
        }
        lemma_fold_nulls(pre, ids.drop_last(), id);
    }
}

pub open spec fn looked_up(ls: Seq<LookupView>, sec: RecordSection, id: Seq<char>) -> bool {
    exists|k: int| 0 <= k < ls.len() && (#[trigger] ls[k]).0 == sec && ls[k].2 == id
}

proof fn lemma_image_writes_without(
    pre: Seq<(Seq<char>, JsonView)>,
    ls: Seq<LookupView>,
    imgs: Seq<JsonView>,
    sec: RecordSection,
    id: Seq<char>,
)
    requires
        !looked_up(ls, sec, id),
    ensures
        fold_writes(pre + image_writes(ls, imgs, sec)).dom().contains(id) == fold_writes(pre).dom().contains(id),
        fold_writes(pre + image_writes(ls, imgs, sec))[id] == fold_writes(pre)[id],
    decreases ls.len(),
{
    if ls.len() > 0 {
        let d = ls.drop_last();
        assert(!looked_up(d, sec, id)) by {
            if looked_up(d, sec, id) {
                let k = choose|k: int| 0 <= k < d.len() && (#[trigger] d[k]).0 == sec && d[k].2 == id;
                assert(ls[k] == d[k]);
            }
        }
        lemma_image_writes_without(pre, d, imgs, sec, id);
        if ls.last().0 == sec {
            assert(ls[ls.len() - 1].0 == sec);
            assert((pre + image_writes(ls, imgs, sec)).drop_last() =~= pre + image_writes(d, imgs, sec));
        } else {
            assert(pre + image_writes(ls, imgs, sec) =~= pre + image_writes(d, imgs, sec));
        }
    } else {
        assert(pre + image_writes(ls, imgs, sec) =~= pre);
    }
}

proof fn lemma_image_writes_last(
    pre: Seq<(Seq<char>, JsonView)>,
    ls: Seq<LookupView>,
    imgs: Seq<JsonView>,
    sec: RecordSection,
    k: int,
)
    requires
        0 <= k < ls.len(),
        ls[k].0 == sec,
        forall|j: int| k < j < ls.len() && (#[trigger] ls[j]).0 == sec ==> ls[j].2 != ls[k].2,
    ensures
        fold_writes(pre + image_writes(ls, imgs, sec)).dom().contains(ls[k].2),
        fold_writes(pre + image_writes(ls, imgs, sec))[ls[k].2] == imgs[k],
    decreases ls.len(),
{
    let d = ls.drop_last();
    if k == ls.len() - 1 {
        assert((pre + image_writes(ls, imgs, sec)).drop_last() =~= pre + image_writes(d, imgs, sec));
    } else {
        assert forall|j: int| k < j < d.len() && (#[trigger] d[j]).0 == sec implies d[j].2 != d[k].2 by {
            assert(d[j] == ls[j]);
        }
        lemma_image_writes_last(pre, d, imgs, sec, k);
        if ls.last().0 == sec {
            assert(ls[ls.len() - 1].2 != ls[k].2);
            assert((pre + image_writes(ls, imgs, sec)).drop_last() =~= pre + image_writes(d, imgs, sec));
        } else {
            assert(pre + image_writes(ls, imgs, sec) =~= pre + image_writes(d, imgs, sec));
        }
    }
}

proof fn lemma_section_actions(p: RollbackPatch, sec: RecordSection)
    ensures
        section_actions(patch_view(p), sec) == entries_view(section_of(p, sec)).map_values(
            |e: (Seq<char>, JsonView)| entry_action(sec, e),
        ),
{
    reveal_strlit("locations");
    reveal_strlit("edges");
    reveal_strlit("knowledge");
    reveal_strlit("characters");
    let m = patch_view(p)->Object_0;
    assert("edges"@ != "locations"@) by { assert("edges"@.len() != "locations"@.len()); }
    assert("knowledge"@ != "locations"@) by { assert("knowledge"@[0] != "locations"@[0]); }
    assert("knowledge"@ != "edges"@) by { assert("knowledge"@.len() != "edges"@.len()); }
    assert("characters"@ != "locations"@) by { assert("characters"@.len() != "locations"@.len()); }
    assert("characters"@ != "edges"@) by { assert("characters"@.len() != "edges"@.len()); }
    assert("characters"@ != "knowledge"@) by { assert("characters"@.len() != "knowledge"@.len()); }
    match sec {
        RecordSection::Locations => {
            assert(crate::json::vmember_index_from(m, "locations"@, 0) == Some(0int));
        },
        RecordSection::Edges => {
            assert(crate::json::vmember_index_from(m, "edges"@, 1) == Some(1int));
            assert(crate::json::vmember_index_from(m, "edges"@, 0) == Some(1int));
        },
        RecordSection::Knowledge => {
            assert(crate::json::vmember_index_from(m, "knowledge"@, 2) == Some(2int));
            assert(crate::json::vmember_index_from(m, "knowledge"@, 1) == Some(2int));
            assert(crate::json::vmember_index_from(m, "knowledge"@, 0) == Some(2int));
        },
        RecordSection::Characters => {
            assert(crate::json::vmember_index_from(m, "characters"@, 3) == Some(3int));
            assert(crate::json::vmember_index_from(m, "characters"@, 2) == Some(3int));
            assert(crate::json::vmember_index_from(m, "characters"@, 1) == Some(3int));
            assert(crate::json::vmember_index_from(m, "characters"@, 0) == Some(3int));
        },
    }
}

proof fn lemma_actions_of_map(p: RollbackPatch, sec: RecordSection, id: Seq<char>, v: JsonView)
    requires
        ids_unique(entries_view(section_of(p, sec))),
        fold_writes(entries_view(section_of(p, sec))).dom().contains(id),
        fold_writes(entries_view(section_of(p, sec)))[id] == v,
    ensures
        ({
            let acts = section_actions(patch_view(p), sec);
            let want: ActionView = (sec, id, if v is Null { None } else { Some(v) });
            &&& exists|j: int| 0 <= j < acts.len() && #[trigger] acts[j] == want
            &&& forall|j: int| 0 <= j < acts.len() && (#[trigger] acts[j]).1 == id ==> acts[j] == want
        }),
{
    let e = entries_view(section_of(p, sec));
    lemma_section_actions(p, sec);
    lemma_fold_dom(e, id);
    let j = choose|j: int| 0 <= j < e.len() && (#[trigger] e[j]).0 == id;
    assert forall|i: int| j < i < e.len() implies (#[trigger] e[i]).0 != e[j].0 by {
        assert(e[j].0 != e[i].0);
    }
    lemma_fold_last(e, j);
    let acts = section_actions(patch_view(p), sec);
    let want: ActionView = (sec, id, if v is Null { None } else { Some(v) });
    assert(acts[j] == entry_action(sec, e[j]));
    assert(acts[j] == want);
    assert forall|i: int| 0 <= i < acts.len() && (#[trigger] acts[i]).1 == id implies acts[i] == want by {
        assert(acts[i] == entry_action(sec, e[i]));
        if i != j {
            if i < j {
                assert(e[i].0 != e[j].0);
            } else {
                assert(e[j].0 != e[i].0);
            }
        }
    }
}

/// Rolling back a commit deletes each record it created: where the commit
/// creates record `id` of a section and reads no earlier image of it, the
/// rollback of its patch holds exactly one action for `id` in that
/// section, and that action deletes it.
pub proof fn law_rollback_deletes_created_records(
    c: WorldEditorChanges,
    imgs: Seq<JsonView>,
    p: RollbackPatch,
    sec: RecordSection,
    id: Seq<char>,
)
    requires
        ids_unique(entries_view(section_of(p, sec))),
        fold_writes(entries_view(section_of(p, sec))) == fold_writes(section_writes(c, imgs, sec)),
        created_ids(c, sec).contains(id),
        !looked_up(rollback_lookup_views(c), sec, id),
    ensures
        ({
            let acts = section_actions(patch_view(p), sec);
            &&& exists|j: int| 0 <= j < acts.len() && #[trigger] acts[j] == (sec, id, None::<JsonView>)
            &&& forall|j: int|
                0 <= j < acts.len() && (#[trigger] acts[j]).1 == id ==> acts[j] == (sec, id, None::<JsonView>)
        }),
{
    let pre = null_writes(created_ids(c, sec));
    lemma_fold_nulls(Seq::empty(), created_ids(c, sec), id);
    assert(Seq::<(Seq<char>, JsonView)>::empty() + pre =~= pre);
    lemma_image_writes_without(pre, rollback_lookup_views(c), imgs, sec, id);
    lemma_actions_of_map(p, sec, id, JsonView::Null);
}

/// Rolling back a commit writes back each record it updated or deleted:
/// for the last image the commit read of a record, the rollback of its
/// patch holds exactly one action for that record in its section, and
/// that action restores the image (a null image deletes the record).
pub proof fn law_rollback_restores_previous_images(
    c: WorldEditorChanges,
    imgs: Seq<JsonView>,
    p: RollbackPatch,
    k: int,
)
    requires
        0 <= k < rollback_lookup_views(c).len(),
        ids_unique(entries_view(section_of(p, rollback_lookup_views(c)[k].0))),
        fold_writes(entries_view(section_of(p, rollback_lookup_views(c)[k].0))) == fold_writes(
            section_writes(c, imgs, rollback_lookup_views(c)[k].0),
        ),
        forall|j: int|
            k < j < rollback_lookup_views(c).len() && (#[trigger] rollback_lookup_views(c)[j]).0
                == rollback_lookup_views(c)[k].0 ==> rollback_lookup_views(c)[j].2 != rollback_lookup_views(c)[k].2,
    ensures
        ({
            let l = rollback_lookup_views(c)[k];
            let acts = section_actions(patch_view(p), l.0);
            let want: ActionView = (l.0, l.2, if imgs[k] is Null { None } else { Some(imgs[k]) });
            &&& exists|j: int| 0 <= j < acts.len() && #[trigger] acts[j] == want
            &&& forall|j: int| 0 <= j < acts.len() && (#[trigger] acts[j]).1 == l.2 ==> acts[j] == want
        }),
{
    let ls = rollback_lookup_views(c);
    let sec = ls[k].0;
    let pre = null_writes(created_ids(c, sec));
    lemma_image_writes_last(pre, ls, imgs, sec, k);
    lemma_actions_of_map(p, sec, ls[k].2, imgs[k]);
}

} // verus!
