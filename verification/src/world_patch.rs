//! A world editor patch as a whole: the changes it carries, the checks that
//! span its entries, and the grouping of its issues for the editor.

use vstd::prelude::*;
use crate::text::{chars_to_string, extend_chars, is_blank, str_blank, str_chars, str_eq, trim, trim_chars};
use crate::world_editor::{
    append_issues, character_issues, err, issue_view, issues_view, knowledge_issues, location_issues, warn, issue_if,
    IssueView, ValidationIssue, ValidationSeverity, WorldEditorValidator,
};
use crate::world_model::{
    CharacterFacetType, CharacterRecord, KnowledgeEntry, KnowledgeKind, KnowledgeSubject,
    LocationEdge, LocationNode,
};

verus! {

/// The changes of one world editor patch.
#[derive(Debug, Default)]
pub struct WorldEditorChanges {
    pub location_creates: Vec<LocationNode>,
    pub location_updates: Vec<LocationNode>,
    pub location_deletes: Vec<String>,
    pub edge_creates: Vec<LocationEdge>,
    pub edge_deletes: Vec<String>,
    pub knowledge_creates: Vec<KnowledgeEntry>,
    pub knowledge_updates: Vec<KnowledgeEntry>,
    pub knowledge_deletes: Vec<String>,
    pub character_creates: Vec<CharacterRecord>,
    pub character_updates: Vec<CharacterRecord>,
    pub character_deletes: Vec<String>,
}

/// What a committed patch changed.
#[derive(Debug, Clone)]
pub struct EditorCommitResult {
    pub commit_id: String,
    pub resulting_revision: u64,
    pub changed_location_ids: Vec<String>,
    pub changed_knowledge_ids: Vec<String>,
    pub changed_character_ids: Vec<String>,
}

/// A commit as listed in the editor history.
#[derive(Debug, Clone)]
pub struct EditorCommitInfo {
    pub commit_id: String,
    pub base_revision: u64,
    pub resulting_revision: u64,
    pub changed_location_ids: Vec<String>,
    pub created_at: String,
}

/// The editor's answer to a commit.
#[derive(Debug, Clone)]
pub struct WorldEditorCommitResultDto {
    pub success: bool,
    pub commit_id: Option<String>,
    pub new_revision: u64,
    pub error: Option<String>,
}

/// One line of the editor's validation report.
#[derive(Debug, Clone)]
pub struct WorldEditorValidationItemDto {
    pub severity: String,
    pub code: String,
    pub message: String,
    pub field_path: Option<String>,
    pub entity_id: Option<String>,
}

/// The editor's validation report.
#[derive(Debug, Clone)]
pub struct WorldEditorValidationResultDto {
    pub is_valid: bool,
    pub blockers: Vec<WorldEditorValidationItemDto>,
    pub warnings: Vec<WorldEditorValidationItemDto>,
    pub info: Vec<WorldEditorValidationItemDto>,
}

// ---------------------------------------------------------------------------
// Issues of every entry of a patch
// ---------------------------------------------------------------------------

pub open spec fn locations_issues(s: Seq<LocationNode>) -> Seq<IssueView>
    decreases s.len(),
{
    if s.len() == 0 {
        Seq::empty()
    } else {
        locations_issues(s.drop_last()) + location_issues(s.last())
    }
}

/// The issues of knowledge entries, each with the schema verdict on its content.
pub open spec fn knowledge_list_issues(s: Seq<KnowledgeEntry>, errs: Seq<Option<Seq<char>>>) -> Seq<
    IssueView,
>
    decreases s.len(),
{
    if s.len() == 0 {
        Seq::empty()
    } else {
        knowledge_list_issues(s.drop_last(), errs.drop_last()) + knowledge_issues(
            s.last(),
            errs.last(),
        )
    }
}

pub open spec fn characters_issues(s: Seq<CharacterRecord>) -> Seq<IssueView>
    decreases s.len(),
{
    if s.len() == 0 {
        Seq::empty()
    } else {
        characters_issues(s.drop_last()) + character_issues(s.last())
    }
}

pub open spec fn opt_view(o: Option<String>) -> Option<Seq<char>> {
    match o {
        Some(s) => Some(s@),
        None => None,
    }
}

pub open spec fn opts_view(s: Seq<Option<String>>) -> Seq<Option<Seq<char>>> {
    s.map_values(|o: Option<String>| opt_view(o))
}

/// All issues of a patch: its locations, knowledge entries and characters,
/// creates before updates, then the checks across entries.
pub open spec fn changes_issues(
    c: WorldEditorChanges,
    create_errs: Seq<Option<Seq<char>>>,
    update_errs: Seq<Option<Seq<char>>>,
) -> Seq<IssueView> {
    locations_issues(c.location_creates@) + locations_issues(c.location_updates@)
        + knowledge_list_issues(c.knowledge_creates@, create_errs) + knowledge_list_issues(
        c.knowledge_updates@,
        update_errs,
    ) + characters_issues(c.character_creates@) + characters_issues(c.character_updates@)
        + cross_reference_issues(c)
}

// ---------------------------------------------------------------------------
// Checks across entries
// ---------------------------------------------------------------------------

/// Some character of `s` has the id `id`.
pub open spec fn listed(s: Seq<CharacterRecord>, id: Seq<char>) -> bool {
    exists|i: int| 0 <= i < s.len() && #[trigger] s[i].character_id@ == id
}

/// The characters of the patch include `id`.
pub open spec fn patch_has_character(c: WorldEditorChanges, id: Seq<char>) -> bool {
    listed(c.character_creates@, id) || listed(c.character_updates@, id)
}

pub open spec fn missing_character_message(id: Seq<char>) -> Seq<char> {
    "CharacterFacet 引用的角色 '"@ + id + "' 未包含在当前 patch 中；若库内也不存在，提交阶段会失败。"@
}

pub open spec fn wrong_card_message(id: Seq<char>) -> Seq<char> {
    "mind_model_card_knowledge_id '"@ + id
        + "' 在当前 patch 中存在，但不是该角色的 MindModelCard CharacterFacet。"@
}

/// A character facet must name a character of the patch.
pub open spec fn subject_ref_issues_at(e: KnowledgeEntry, c: WorldEditorChanges) -> Seq<IssueView> {
    match e.subject {
        KnowledgeSubject::Character { id, .. } => issue_if(
            !is_blank(id@) && !patch_has_character(c, id@),
            warn("subject_id"@, missing_character_message(id@)),
        ),
        _ => Seq::empty(),
    }
}

pub open spec fn subject_ref_issues(s: Seq<KnowledgeEntry>, c: WorldEditorChanges) -> Seq<IssueView>
    decreases s.len(),
{
    if s.len() == 0 {
        Seq::empty()
    } else {
        subject_ref_issues(s.drop_last(), c) + subject_ref_issues_at(s.last(), c)
    }
}

/// Index of the last entry of `s` with the id `id`, or -1.
pub open spec fn last_index(s: Seq<KnowledgeEntry>, id: Seq<char>) -> int
    decreases s.len(),
{
    if s.len() == 0 {
        -1
    } else if s.last().knowledge_id@ == id {
        s.len() - 1
    } else {
        last_index(s.drop_last(), id)
    }
}

/// The entry of the patch with the id `id`: of several, the last one, and
/// updates come after creates.
pub open spec fn patch_entry(c: WorldEditorChanges, id: Seq<char>) -> Option<KnowledgeEntry> {
    let u = last_index(c.knowledge_updates@, id);
    let k = last_index(c.knowledge_creates@, id);
    if u >= 0 {
        Some(c.knowledge_updates@[u])
    } else if k >= 0 {
        Some(c.knowledge_creates@[k])
    } else {
        None
    }
}

/// `e` is the mind model card facet of the character `character_id`.
pub open spec fn is_own_mind_model_card(e: KnowledgeEntry, character_id: Seq<char>) -> bool {
    e.kind == KnowledgeKind::CharacterFacet && match e.subject {
        KnowledgeSubject::Character { id, facet } => id@ == character_id && facet
            == CharacterFacetType::MindModelCard,
        _ => false,
    }
}

/// A character's mind model card id, where the patch holds that entry, must
/// name the character's own mind model card facet.
pub open spec fn card_ref_issues_at(ch: CharacterRecord, c: WorldEditorChanges) -> Seq<IssueView> {
    let kid = trim(ch.mind_model_card_knowledge_id@);
    issue_if(
        kid.len() > 0 && patch_entry(c, kid) is Some && !is_own_mind_model_card(
            patch_entry(c, kid)->0,
            ch.character_id@,
        ),
        err("mind_model_card_knowledge_id"@, wrong_card_message(kid)),
    )
}

pub open spec fn card_ref_issues(s: Seq<CharacterRecord>, c: WorldEditorChanges) -> Seq<IssueView>
    decreases s.len(),
{
    if s.len() == 0 {
        Seq::empty()
    } else {
        card_ref_issues(s.drop_last(), c) + card_ref_issues_at(s.last(), c)
    }
}

pub open spec fn cross_reference_issues(c: WorldEditorChanges) -> Seq<IssueView> {
    subject_ref_issues(c.knowledge_creates@, c) + subject_ref_issues(c.knowledge_updates@, c)
        + card_ref_issues(c.character_creates@, c) + card_ref_issues(c.character_updates@, c)
}

fn wrap(pre: &str, mid: &[char], post: &str) -> (r: String)
    ensures
        r@ == pre@ + mid@ + post@,
{
    let mut v = str_chars(pre);
    extend_chars(&mut v, mid);
    let p = str_chars(post);
    extend_chars(&mut v, &p);
    chars_to_string(&v)
}

fn text(s: &str) -> (r: String)
    ensures
        r@ == s@,
{
    chars_to_string(&str_chars(s))
}

fn character_listed(s: &Vec<CharacterRecord>, id: &str) -> (r: bool)
    ensures
        r == listed(s@, id@),
{
    let mut i: usize = 0;
    while i < s.len()
        invariant
            i <= s.len(),
            forall|j: int| 0 <= j < i ==> #[trigger] s@[j].character_id@ != id@,
        decreases s.len() - i,
    {
        if str_eq(s[i].character_id.as_str(), id) {
            return true;
        }
        i += 1;
    }
    false
}

fn last_entry_index(s: &Vec<KnowledgeEntry>, id: &str) -> (r: Option<usize>)
    ensures
        match r {
            Some(j) => j < s.len() && last_index(s@, id@) == j,
            None => last_index(s@, id@) == -1,
        },
{
    let mut i = s.len();
    assert(s@.take(i as int) =~= s@);
    while i > 0
        invariant
            i <= s.len(),
            last_index(s@, id@) == last_index(s@.take(i as int), id@),
        decreases i,
    {
        assert(s@.take(i as int).drop_last() =~= s@.take(i - 1));
        if str_eq(s[i - 1].knowledge_id.as_str(), id) {
            return Some(i - 1);
        }
        i -= 1;
    }
    None
}

fn own_mind_model_card(e: &KnowledgeEntry, character_id: &String) -> (r: bool)
    ensures
        r == is_own_mind_model_card(*e, character_id@),
{
    if e.kind != KnowledgeKind::CharacterFacet {
        return false;
    }
    match &e.subject {
        KnowledgeSubject::Character { id, facet } => *facet == CharacterFacetType::MindModelCard
            && str_eq(id.as_str(), character_id.as_str()),
        _ => false,
    }
}

fn check_subject_refs(issues: &mut Vec<ValidationIssue>, s: &Vec<KnowledgeEntry>, c: &WorldEditorChanges)
    ensures
        issues_view(final(issues)@) == issues_view(old(issues)@) + subject_ref_issues(s@, *c),
{
    let mut i: usize = 0;
    while i < s.len()
        invariant
            i <= s.len(),
            issues_view(issues@) == issues_view(old(issues)@) + subject_ref_issues(
                s@.take(i as int),
                *c,
            ),
        decreases s.len() - i,
    {
        let ghost before = issues@;
        assert(s@.take((i + 1) as int).drop_last() =~= s@.take(i as int));
        match &s[i].subject {
            KnowledgeSubject::Character { id, .. } => {
                if !str_blank(id.as_str()) && !character_listed(&c.character_creates, id.as_str())
                    && !character_listed(&c.character_updates, id.as_str()) {
                    let issue = ValidationIssue {
                        severity: ValidationSeverity::Warning,
                        field_path: text("subject_id"),
                        message: wrap(
                            "CharacterFacet 引用的角色 '",
                            &str_chars(id.as_str()),
                            "' 未包含在当前 patch 中；若库内也不存在，提交阶段会失败。",
                        ),
                    };
                    issues.push(issue);
                    assert(issues_view(issues@) =~= issues_view(before) + seq![issue_view(issue)]);
                } else {
                    assert(issues_view(issues@) =~= issues_view(before) + Seq::<IssueView>::empty());
                }
            },
            _ => {
                assert(issues_view(issues@) =~= issues_view(before) + Seq::<IssueView>::empty());
            },
        }
        i += 1;
    }
    assert(s@.take(s.len() as int) =~= s@);
}

fn check_card_refs(issues: &mut Vec<ValidationIssue>, s: &Vec<CharacterRecord>, c: &WorldEditorChanges)
    ensures
        issues_view(final(issues)@) == issues_view(old(issues)@) + card_ref_issues(s@, *c),
{
    let mut i: usize = 0;
    while i < s.len()
        invariant
            i <= s.len(),
            issues_view(issues@) == issues_view(old(issues)@) + card_ref_issues(
                s@.take(i as int),
                *c,
            ),
        decreases s.len() - i,
    {
        let ghost before = issues@;
        assert(s@.take((i + 1) as int).drop_last() =~= s@.take(i as int));
        let ch = &s[i];
        let kid_chars = trim_chars(&str_chars(ch.mind_model_card_knowledge_id.as_str()));
        let kid = chars_to_string(&kid_chars);
        let found: Option<&KnowledgeEntry> = if kid_chars.len() == 0 {
            None
        } else {
            match last_entry_index(&c.knowledge_updates, kid.as_str()) {
                Some(j) => Some(&c.knowledge_updates[j]),
                None => match last_entry_index(&c.knowledge_creates, kid.as_str()) {
                    Some(j) => Some(&c.knowledge_creates[j]),
                    None => None,
                },
            }
        };
        let bad = match found {
            Some(e) => !own_mind_model_card(e, &ch.character_id),
            None => false,
        };
        if bad {
            let issue = ValidationIssue {
                severity: ValidationSeverity::Error,
                field_path: text("mind_model_card_knowledge_id"),
                message: wrap(
                    "mind_model_card_knowledge_id '",
                    &kid_chars,
                    "' 在当前 patch 中存在，但不是该角色的 MindModelCard CharacterFacet。",
                ),
            };
            issues.push(issue);
            assert(issues_view(issues@) =~= issues_view(before) + seq![issue_view(issue)]);
        } else {
            assert(issues_view(issues@) =~= issues_view(before) + Seq::<IssueView>::empty());
        }
        i += 1;
    }
    assert(s@.take(s.len() as int) =~= s@);
}

/// The checks that span the entries of a patch: each character facet names
/// a character of the patch (a warning, as the character may already be
/// stored), and each character's mind model card id, where the patch holds
/// that entry, names the character's own mind model card facet (an error).
pub fn validate_world_editor_cross_references(changes: &WorldEditorChanges) -> (r: Vec<
    ValidationIssue,
>)
    ensures
        issues_view(r@) == cross_reference_issues(*changes),
{
    let mut issues: Vec<ValidationIssue> = Vec::new();
    check_subject_refs(&mut issues, &changes.knowledge_creates, changes);
    check_subject_refs(&mut issues, &changes.knowledge_updates, changes);
    check_card_refs(&mut issues, &changes.character_creates, changes);
    check_card_refs(&mut issues, &changes.character_updates, changes);
    issues
}


pub(crate) fn check_locations(issues: &mut Vec<ValidationIssue>, s: &Vec<LocationNode>)
    ensures
        issues_view(final(issues)@) == issues_view(old(issues)@) + locations_issues(s@),
{
    let mut i: usize = 0;
    while i < s.len()
        invariant
            i <= s.len(),
            issues_view(issues@) == issues_view(old(issues)@) + locations_issues(s@.take(i as int)),
        decreases s.len() - i,
    {
        assert(s@.take((i + 1) as int).drop_last() =~= s@.take(i as int));
        match WorldEditorValidator::validate_location(&s[i]) {
            Ok(v) => append_issues(issues, v),
            Err(_) => {},
        }
        i += 1;
    }
    assert(s@.take(s.len() as int) =~= s@);
}

pub(crate) fn check_knowledge_list(issues: &mut Vec<ValidationIssue>, s: &Vec<KnowledgeEntry>, errs: &Vec<Option<String>>)
    requires
        errs.len() == s.len(),
    ensures
        issues_view(final(issues)@) == issues_view(old(issues)@) + knowledge_list_issues(
            s@,
            opts_view(errs@),
        ),
{
    let mut i: usize = 0;
    while i < s.len()
        invariant
            i <= s.len(),
            errs.len() == s.len(),
            issues_view(issues@) == issues_view(old(issues)@) + knowledge_list_issues(
                s@.take(i as int),
                opts_view(errs@).take(i as int),
            ),
        decreases s.len() - i,
    {
        assert(s@.take((i + 1) as int).drop_last() =~= s@.take(i as int));
        assert(opts_view(errs@).take((i + 1) as int).drop_last() =~= opts_view(errs@).take(i as int));
        let verdict: Option<&str> = match &errs[i] {
            Some(m) => Some(m.as_str()),
            None => None,
        };
        match WorldEditorValidator::validate_knowledge(&s[i], verdict) {
            Ok(v) => append_issues(issues, v),
            Err(_) => {},
        }
        i += 1;
    }
    assert(s@.take(s.len() as int) =~= s@);
    assert(opts_view(errs@).take(s.len() as int) =~= opts_view(errs@));
}

pub(crate) fn check_characters(issues: &mut Vec<ValidationIssue>, s: &Vec<CharacterRecord>)
    ensures
        issues_view(final(issues)@) == issues_view(old(issues)@) + characters_issues(s@),
{
    let mut i: usize = 0;
    while i < s.len()
        invariant
            i <= s.len(),
            issues_view(issues@) == issues_view(old(issues)@) + characters_issues(s@.take(i as int)),
        decreases s.len() - i,
    {
        assert(s@.take((i + 1) as int).drop_last() =~= s@.take(i as int));
        match WorldEditorValidator::validate_character(&s[i]) {
            Ok(v) => append_issues(issues, v),
            Err(_) => {},
        }
        i += 1;
    }
    assert(s@.take(s.len() as int) =~= s@);
}

/// Validates every location, knowledge entry and character of a patch,
/// then the checks across its entries. A knowledge entry's content is
/// checked against the mind model card schema by a decoder;
/// `create_schema_errors` and `update_schema_errors` hold, for each created
/// and each updated entry in order, the decoder's error on its content.
pub fn validate_world_editor_changes(
    changes: &WorldEditorChanges,
    create_schema_errors: &Vec<Option<String>>,
    update_schema_errors: &Vec<Option<String>>,
) -> (r: Result<Vec<ValidationIssue>, String>)
    requires
        create_schema_errors.len() == changes.knowledge_creates.len(),
        update_schema_errors.len() == changes.knowledge_updates.len(),
    ensures
        r matches Ok(v) && issues_view(v@) == changes_issues(
            *changes,
            opts_view(create_schema_errors@),
            opts_view(update_schema_errors@),
        ),
{
    let mut issues: Vec<ValidationIssue> = Vec::new();
    check_locations(&mut issues, &changes.location_creates);
    check_locations(&mut issues, &changes.location_updates);
    check_knowledge_list(&mut issues, &changes.knowledge_creates, create_schema_errors);
    check_knowledge_list(&mut issues, &changes.knowledge_updates, update_schema_errors);
    check_characters(&mut issues, &changes.character_creates);
    check_characters(&mut issues, &changes.character_updates);
    append_issues(&mut issues, validate_world_editor_cross_references(changes));
    Ok(issues)
}

// ---------------------------------------------------------------------------
// The editor's report
// ---------------------------------------------------------------------------

/// A report line as plain values: severity, code, message, field path, entity id.
pub type ItemView = (Seq<char>, Seq<char>, Seq<char>, Option<Seq<char>>, Option<Seq<char>>);

pub open spec fn item_view(d: WorldEditorValidationItemDto) -> ItemView {
    (d.severity@, d.code@, d.message@, opt_view(d.field_path), opt_view(d.entity_id))
}

pub open spec fn items_view(s: Seq<WorldEditorValidationItemDto>) -> Seq<ItemView> {
    s.map_values(|d: WorldEditorValidationItemDto| item_view(d))
}

pub open spec fn severity_label(s: ValidationSeverity) -> Seq<char> {
    match s {
        ValidationSeverity::Error => "blocker"@,
        ValidationSeverity::Warning => "warning"@,
    }
}

/// The report line of an issue.
pub open spec fn issue_item(i: IssueView) -> ItemView {
    (severity_label(i.0), "world_editor_validation"@, i.2, Some(i.1), None)
}

/// The report lines of the issues of severity `sev`, in order.
pub open spec fn items_of(s: Seq<IssueView>, sev: ValidationSeverity) -> Seq<ItemView>
    decreases s.len(),
{
    if s.len() == 0 {
        Seq::empty()
    } else {
        items_of(s.drop_last(), sev) + if s.last().0 == sev {
            seq![issue_item(s.last())]
        } else {
            Seq::empty()
        }
    }
}

/// The line that closes every report.
pub open spec fn completion_item() -> ItemView {
    (
        "info"@,
        "world_editor_validation_complete"@,
        "World Editor patch 已执行真实模型校验。"@,
        None,
        None,
    )
}

/// Sorts issues into the report: errors become blockers, warnings stay
/// warnings, each in order; then one info line closes the report.
pub fn append_validation_items(
    blockers: &mut Vec<WorldEditorValidationItemDto>,
    warnings: &mut Vec<WorldEditorValidationItemDto>,
    info: &mut Vec<WorldEditorValidationItemDto>,
    issues: Vec<ValidationIssue>,
)
    ensures
        items_view(final(blockers)@) == items_view(old(blockers)@) + items_of(
            issues_view(issues@),
            ValidationSeverity::Error,
        ),
        items_view(final(warnings)@) == items_view(old(warnings)@) + items_of(
            issues_view(issues@),
            ValidationSeverity::Warning,
        ),
        items_view(final(info)@) == items_view(old(info)@).push(completion_item()),
{
    let mut i: usize = 0;
    while i < issues.len()
        invariant
            i <= issues.len(),
            items_view(blockers@) == items_view(old(blockers)@) + items_of(
                issues_view(issues@.take(i as int)),
                ValidationSeverity::Error,
            ),
            items_view(warnings@) == items_view(old(warnings)@) + items_of(
                issues_view(issues@.take(i as int)),
                ValidationSeverity::Warning,
            ),
            info@ == old(info)@,
        decreases issues.len() - i,
    {
        let ghost b0 = blockers@;
        let ghost w0 = warnings@;
        assert(issues_view(issues@.take((i + 1) as int)).drop_last() =~= issues_view(
            issues@.take(i as int),
        ));
        let issue = &issues[i];
        let is_error = issue.severity == ValidationSeverity::Error;
        let item = WorldEditorValidationItemDto {
            severity: if is_error {
                text("blocker")
            } else {
                text("warning")
            },
            code: text("world_editor_validation"),
            message: issue.message.clone(),
            field_path: Some(issue.field_path.clone()),
            entity_id: None,
        };
        assert(item_view(item) == issue_item(issue_view(*issue)));
        if is_error {
            blockers.push(item);
            assert(items_view(blockers@) =~= items_view(b0).push(item_view(item)));
            assert(items_view(warnings@) =~= items_view(w0));
        } else {
            warnings.push(item);
            assert(items_view(warnings@) =~= items_view(w0).push(item_view(item)));
            assert(items_view(blockers@) =~= items_view(b0));
        }
        i += 1;
    }
    assert(issues@.take(issues.len() as int) =~= issues@);
    let ghost f0 = info@;
    info.push(
        WorldEditorValidationItemDto {
            severity: text("info"),
            code: text("world_editor_validation_complete"),
            message: text("World Editor patch 已执行真实模型校验。"),
            field_path: None,
            entity_id: None,
        },
    );
    assert(items_view(info@) =~= items_view(f0).push(completion_item()));
}

/// The report as a whole: valid exactly when nothing blocks the patch.
pub fn validation_result(
    blockers: Vec<WorldEditorValidationItemDto>,
    warnings: Vec<WorldEditorValidationItemDto>,
    info: Vec<WorldEditorValidationItemDto>,
) -> (r: WorldEditorValidationResultDto)
    ensures
        r.is_valid == (blockers@.len() == 0),
        items_view(r.blockers@) == items_view(blockers@),
        items_view(r.warnings@) == items_view(warnings@),
        items_view(r.info@) == items_view(info@),
{
    WorldEditorValidationResultDto { is_valid: blockers.len() == 0, blockers, warnings, info }
}

// ---------------------------------------------------------------------------
// Commits
// ---------------------------------------------------------------------------

pub open spec fn stale_message(current: u64, base: u64) -> Seq<char> {
    "editor revision 已过期，当前 revision="@ + crate::text::decimal(current as nat) + "，提交基线="@
        + crate::text::decimal(base as nat)
}

pub(crate) fn u64_decimal(n: u64) -> (r: Vec<char>)
    ensures
        r@ == crate::text::decimal(n as nat),
    decreases n,
{
    if n < 10 {
        let mut v: Vec<char> = Vec::new();
        v.push(((n as u8) + 48) as char);
        assert(v@ =~= seq![crate::text::digit_char(n as nat)]);
        v
    } else {
        let mut v = u64_decimal(n / 10);
        v.push((((n % 10) as u8) + 48) as char);
        assert(v@ =~= crate::text::decimal((n / 10) as nat).push(crate::text::digit_char((n % 10) as nat)));
        v
    }
}

/// The answer to a commit made on a revision the editor has moved past:
/// a failure naming both revisions. `None` where the revisions agree.
pub fn stale_revision_result(current_revision: u64, base_revision: u64) -> (r: Option<
    WorldEditorCommitResultDto,
>)
    ensures
        match r {
            Some(d) => {
                &&& base_revision != current_revision
                &&& !d.success
                &&& d.commit_id is None
                &&& d.new_revision == current_revision
                &&& d.error matches Some(e)
                &&& e@ == stale_message(current_revision, base_revision)
            },
            None => base_revision == current_revision,
        },
{
    if base_revision == current_revision {
        return None;
    }
    let mut v = str_chars("editor revision 已过期，当前 revision=");
    extend_chars(&mut v, &u64_decimal(current_revision));
    extend_chars(&mut v, &str_chars("，提交基线="));
    extend_chars(&mut v, &u64_decimal(base_revision));
    Some(
        WorldEditorCommitResultDto {
            success: false,
            commit_id: None,
            new_revision: current_revision,
            error: Some(chars_to_string(&v)),
        },
    )
}

/// The answer to a commit: the commit id and the new revision where it
/// went through; else the error, at the current revision.
pub fn commit_result(current_revision: u64, outcome: Result<EditorCommitResult, String>) -> (r:
    WorldEditorCommitResultDto)
    ensures
        match outcome {
            Ok(c) => {
                &&& r.success
                &&& r.commit_id matches Some(id)
                &&& id@ == c.commit_id@
                &&& r.new_revision == c.resulting_revision
                &&& r.error is None
            },
            Err(e) => {
                &&& !r.success
                &&& r.commit_id is None
                &&& r.new_revision == current_revision
                &&& r.error matches Some(m)
                &&& m@ == e@
            },
        },
{
    match outcome {
        Ok(result) => WorldEditorCommitResultDto {
            success: true,
            commit_id: Some(result.commit_id),
            new_revision: result.resulting_revision,
            error: None,
        },
        Err(error) => WorldEditorCommitResultDto {
            success: false,
            commit_id: None,
            new_revision: current_revision,
            error: Some(error),
        },
    }
}

} // verus!
