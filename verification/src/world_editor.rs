//! World editor validation: checks on locations, edges, knowledge entries
//! and character records before a patch is committed, cross-reference
//! checks within a patch, and the grouping of issues for the editor.

use vstd::prelude::*;
use crate::json::{is_null, is_object, json_is_null, json_is_object};
use crate::quantity::{finite, in_unit_range, is_finite, le, lt, real_le, real_lt, unit_range_contains, Real};
use crate::text::{blank, decimal, extend_chars, is_blank, str_chars, usize_decimal, chars_to_string};
use crate::world_model::{AccessPolicy, AccessScope, CharacterFacetType, CharacterRecord, ConditionState, CooldownState, KnowledgeEntry, KnowledgeKind, KnowledgeSubject, LocationAlias, LocationEdge, LocationNode, ManaSuppression, SeasonalModifier, SubjectAwareness, TimeEstimate};

verus! {

#[derive(Debug, Clone, Copy, PartialEq, Eq, Structural)]
pub enum ValidationSeverity {
    Warning,
    Error,
}

/// A problem found in an editor patch.
#[derive(Debug, Clone)]
pub struct ValidationIssue {
    pub severity: ValidationSeverity,
    pub field_path: String,
    pub message: String,
}

/// An issue as plain values: severity, field path, message.
pub type IssueView = (ValidationSeverity, Seq<char>, Seq<char>);

pub open spec fn issue_view(i: ValidationIssue) -> IssueView {
    (i.severity, i.field_path@, i.message@)
}

pub open spec fn issues_view(v: Seq<ValidationIssue>) -> Seq<IssueView> {
    v.map_values(|i: ValidationIssue| issue_view(i))
}

pub open spec fn err(path: Seq<char>, msg: Seq<char>) -> IssueView {
    (ValidationSeverity::Error, path, msg)
}

pub open spec fn warn(path: Seq<char>, msg: Seq<char>) -> IssueView {
    (ValidationSeverity::Warning, path, msg)
}

/// The issue, when the condition holds.
pub open spec fn issue_if(c: bool, i: IssueView) -> Seq<IssueView> {
    if c {
        seq![i]
    } else {
        Seq::empty()
    }
}

pub open spec fn indexed(pre: Seq<char>, i: int, post: Seq<char>) -> Seq<char> {
    pre + decimal(i as nat) + post
}

/// Not a finite number, or below zero.
pub open spec fn bad_non_negative(r: Real) -> bool {
    !is_finite(r) || lt(r, crate::quantity::Real::Finite(0))
}

/// Not a finite number in `0.0..=1.0`.
pub open spec fn bad_ratio(r: Real) -> bool {
    !is_finite(r) || !in_unit_range(r)
}

/// An error issue.
fn error(field_path: String, message: String) -> (r: ValidationIssue)
    ensures
        issue_view(r) == err(field_path@, message@),
{
    ValidationIssue { severity: ValidationSeverity::Error, field_path, message }
}

/// A warning issue.
fn warning(field_path: String, message: String) -> (r: ValidationIssue)
    ensures
        issue_view(r) == warn(field_path@, message@),
{
    ValidationIssue { severity: ValidationSeverity::Warning, field_path, message }
}

fn text(s: &str) -> (r: String)
    ensures
        r@ == s@,
{
    chars_to_string(&str_chars(s))
}

/// `format!("{}{}{}", pre, i, post)`.
fn indexed_path(pre: &str, i: usize, post: &str) -> (r: String)
    ensures
        r@ == indexed(pre@, i as int, post@),
{
    let mut v = str_chars(pre);
    let d = usize_decimal(i);
    extend_chars(&mut v, &d);
    let p = str_chars(post);
    extend_chars(&mut v, &p);
    chars_to_string(&v)
}

/// Appends `issue` when `cond` holds.
fn push_when(issues: &mut Vec<ValidationIssue>, cond: bool, issue: ValidationIssue)
    ensures
        issues_view(final(issues)@) == issues_view(old(issues)@) + issue_if(cond, issue_view(issue)),
{
    if cond {
        issues.push(issue);
        assert(issues_view(issues@) =~= issues_view(old(issues)@) + seq![issue_view(issue)]);
    } else {
        assert(issues_view(issues@) =~= issues_view(old(issues)@) + Seq::<IssueView>::empty());
    }
}

/// Appends the issues of `more`.
pub(crate) fn append_issues(issues: &mut Vec<ValidationIssue>, more: Vec<ValidationIssue>)
    ensures
        issues_view(final(issues)@) == issues_view(old(issues)@) + issues_view(more@),
{
    let ghost extra = more@;
    let mut more = more;
    issues.append(&mut more);
    assert(issues_view(issues@) =~= issues_view(old(issues)@) + issues_view(extra));
}

// ---------------------------------------------------------------------------
// Locations
// ---------------------------------------------------------------------------

pub open spec fn alias_issues_at(a: LocationAlias, i: int) -> Seq<IssueView> {
    issue_if(is_blank(a.alias@), err(indexed("aliases["@, i, "].alias"@), "alias cannot be empty"@))
        + issue_if(
        is_blank(a.normalized_alias@),
        err(indexed("aliases["@, i, "].normalized_alias"@), "normalized_alias cannot be empty"@),
    )
}

pub open spec fn alias_issues(s: Seq<LocationAlias>) -> Seq<IssueView>
    decreases s.len(),
{
    if s.len() == 0 {
        Seq::empty()
    } else {
        alias_issues(s.drop_last()) + alias_issues_at(s.last(), s.len() - 1)
    }
}

/// The issues of a location node, in the order they are reported.
pub open spec fn location_issues(l: LocationNode) -> Seq<IssueView> {
    issue_if(is_blank(l.location_id@), err("location_id"@, "location_id cannot be empty"@)) + issue_if(
        is_blank(l.name@),
        err("name"@, "location name cannot be empty"@),
    ) + issue_if(is_blank(l.type_label@), err("type_label"@, "type_label cannot be empty"@)) + issue_if(
        l.parent_id is Some && l.parent_id->0@ == l.location_id@,
        err("parent_id"@, "location cannot be its own parent"@),
    ) + issue_if(is_blank(l.schema_version@), err("schema_version"@, "schema_version cannot be empty"@))
        + issue_if(
        !is_object(l.metadata),
        warn(
            "metadata"@,
            "metadata should be a JSON object for forward-compatible editor patches"@,
        ),
    ) + alias_issues(l.aliases@)
}

fn check_aliases(aliases: &Vec<LocationAlias>) -> (r: Vec<ValidationIssue>)
    ensures
        issues_view(r@) == alias_issues(aliases@),
{
    let mut out: Vec<ValidationIssue> = Vec::new();
    let mut i: usize = 0;
    while i < aliases.len()
        invariant
            i <= aliases.len(),
            issues_view(out@) == alias_issues(aliases@.take(i as int)),
        decreases aliases.len() - i,
    {
        let ghost before = issues_view(out@);
        let a = &aliases[i];
        push_when(
            &mut out,
            blank(&str_chars(a.alias.as_str())),
            error(indexed_path("aliases[", i, "].alias"), text("alias cannot be empty")),
        );
        push_when(
            &mut out,
            blank(&str_chars(a.normalized_alias.as_str())),
            error(
                indexed_path("aliases[", i, "].normalized_alias"),
                text("normalized_alias cannot be empty"),
            ),
        );
        assert(aliases@.take((i + 1) as int).drop_last() =~= aliases@.take(i as int));
        assert(issues_view(out@) =~= before + alias_issues_at(aliases@[i as int], i as int));
        i += 1;
    }
    assert(aliases@.take(aliases.len() as int) =~= aliases@);
    out
}

fn same_text(a: &String, b: &String) -> (r: bool)
    ensures
        r == (a@ == b@),
{
    *a == *b
}

/// World editor validator.
pub struct WorldEditorValidator;

impl WorldEditorValidator {
    /// Validates a location node.
    pub fn validate_location(location: &LocationNode) -> (r: Result<Vec<ValidationIssue>, String>)
        ensures
            r matches Ok(v) && issues_view(v@) == location_issues(*location),
    {
        let mut issues: Vec<ValidationIssue> = Vec::new();
        push_when(
            &mut issues,
            blank(&str_chars(location.location_id.as_str())),
            error(text("location_id"), text("location_id cannot be empty")),
        );
        push_when(
            &mut issues,
            blank(&str_chars(location.name.as_str())),
            error(text("name"), text("location name cannot be empty")),
        );
        push_when(
            &mut issues,
            blank(&str_chars(location.type_label.as_str())),
            error(text("type_label"), text("type_label cannot be empty")),
        );
        let own_parent = match &location.parent_id {
            Some(p) => same_text(p, &location.location_id),
            None => false,
        };
        push_when(
            &mut issues,
            own_parent,
            error(text("parent_id"), text("location cannot be its own parent")),
        );
        push_when(
            &mut issues,
            blank(&str_chars(location.schema_version.as_str())),
            error(text("schema_version"), text("schema_version cannot be empty")),
        );
        push_when(
            &mut issues,
            !json_is_object(&location.metadata),
            warning(
                text("metadata"),
                text("metadata should be a JSON object for forward-compatible editor patches"),
            ),
        );
        let alias_part = check_aliases(&location.aliases);
        append_issues(&mut issues, alias_part);
        Ok(issues)
    }
}


// ---------------------------------------------------------------------------
// Edges
// ---------------------------------------------------------------------------

/// `validate_min_max`: the issue of a range whose bounds are not finite,
/// negative, or in the wrong order.
pub open spec fn min_max_issues(path: Seq<char>, min: Real, max: Real, label: Seq<char>) -> Seq<
    IssueView,
> {
    if !is_finite(min) || !is_finite(max) {
        seq![err(path, label + " bounds must be finite numbers"@)]
    } else if lt(min, Real::Finite(0)) || lt(max, Real::Finite(0)) {
        seq![err(path, label + " bounds must be non-negative"@)]
    } else if lt(max, min) {
        seq![err(path, label + " min cannot exceed max"@)]
    } else {
        Seq::empty()
    }
}

pub open spec fn travel_issues(est: Option<TimeEstimate>, mode: Seq<char>) -> Seq<IssueView> {
    match est {
        Some(e) => min_max_issues("travel_time."@ + mode, e.min_hours, e.max_hours, "travel time"@),
        None => Seq::empty(),
    }
}

pub open spec fn seasonal_issues_at(m: SeasonalModifier, i: int) -> Seq<IssueView> {
    issue_if(
        bad_non_negative(m.terrain_cost_modifier),
        err(
            indexed("seasonal_modifiers["@, i, "].terrain_cost_modifier"@),
            "terrain cost modifier must be a non-negative finite number"@,
        ),
    ) + issue_if(
        bad_non_negative(m.safety_cost_modifier),
        err(
            indexed("seasonal_modifiers["@, i, "].safety_cost_modifier"@),
            "safety cost modifier must be a non-negative finite number"@,
        ),
    )
}

pub open spec fn seasonal_issues(s: Seq<SeasonalModifier>) -> Seq<IssueView>
    decreases s.len(),
{
    if s.len() == 0 {
        Seq::empty()
    } else {
        seasonal_issues(s.drop_last()) + seasonal_issues_at(s.last(), s.len() - 1)
    }
}

/// Not a finite number above zero.
pub open spec fn bad_positive(r: Real) -> bool {
    !is_finite(r) || le(r, Real::Finite(0))
}

/// The issues of a location edge, in the order they are reported.
pub open spec fn edge_issues(e: LocationEdge) -> Seq<IssueView> {
    issue_if(is_blank(e.edge_id@), err("edge_id"@, "edge_id cannot be empty"@)) + issue_if(
        is_blank(e.from_location_id@),
        err("from_location_id"@, "from_location_id cannot be empty"@),
    ) + issue_if(
        is_blank(e.to_location_id@),
        err("to_location_id"@, "to_location_id cannot be empty"@),
    ) + issue_if(
        e.from_location_id@ == e.to_location_id@,
        err("to_location_id"@, "location edge cannot point to the same location"@),
    ) + issue_if(
        bad_positive(e.terrain_cost),
        err("terrain_cost"@, "terrain_cost must be a positive finite number"@),
    ) + issue_if(
        bad_positive(e.safety_cost),
        err("safety_cost"@, "safety_cost must be a positive finite number"@),
    ) + match e.distance_km {
        Some(d) => min_max_issues("distance_km"@, d.min_km, d.max_km, "distance"@),
        None => Seq::empty(),
    } + travel_time_issues(e.travel_time) + seasonal_issues(e.seasonal_modifiers@)
}

fn labelled(label: &str, rest: &str) -> (r: String)
    ensures
        r@ == label@ + rest@,
{
    crate::text::concat_string(&str_chars(label), &str_chars(rest))
}

fn validate_min_max(issues: &mut Vec<ValidationIssue>, field_path: String, min: Real, max: Real, label: &str)
    ensures
        issues_view(final(issues)@) == issues_view(old(issues)@) + min_max_issues(
            field_path@,
            min,
            max,
            label@,
        ),
{
    if !finite(min) || !finite(max) {
        push_when(issues, true, error(field_path, labelled(label, " bounds must be finite numbers")));
    } else if real_lt(min, Real::Finite(0)) || real_lt(max, Real::Finite(0)) {
        push_when(issues, true, error(field_path, labelled(label, " bounds must be non-negative")));
    } else if real_lt(max, min) {
        push_when(issues, true, error(field_path, labelled(label, " min cannot exceed max")));
    } else {
        assert(issues_view(issues@) =~= issues_view(old(issues)@) + Seq::<IssueView>::empty());
    }
}

fn check_travel(issues: &mut Vec<ValidationIssue>, est: &Option<TimeEstimate>, mode: &str)
    ensures
        issues_view(final(issues)@) == issues_view(old(issues)@) + travel_issues(*est, mode@),
{
    match est {
        Some(e) => {
            validate_min_max(issues, labelled("travel_time.", mode), e.min_hours, e.max_hours, "travel time");
        },
        None => {
            assert(issues_view(issues@) =~= issues_view(old(issues)@) + Seq::<IssueView>::empty());
        },
    }
}

fn check_seasonal(mods: &Vec<SeasonalModifier>) -> (r: Vec<ValidationIssue>)
    ensures
        issues_view(r@) == seasonal_issues(mods@),
{
    let mut out: Vec<ValidationIssue> = Vec::new();
    let mut i: usize = 0;
    while i < mods.len()
        invariant
            i <= mods.len(),
            issues_view(out@) == seasonal_issues(mods@.take(i as int)),
        decreases mods.len() - i,
    {
        let ghost before = issues_view(out@);
        let m = &mods[i];
        let bad_terrain = !finite(m.terrain_cost_modifier) || real_lt(m.terrain_cost_modifier, Real::Finite(0));
        push_when(
            &mut out,
            bad_terrain,
            error(
                indexed_path("seasonal_modifiers[", i, "].terrain_cost_modifier"),
                text("terrain cost modifier must be a non-negative finite number"),
            ),
        );
        let bad_safety = !finite(m.safety_cost_modifier) || real_lt(m.safety_cost_modifier, Real::Finite(0));
        push_when(
            &mut out,
            bad_safety,
            error(
                indexed_path("seasonal_modifiers[", i, "].safety_cost_modifier"),
                text("safety cost modifier must be a non-negative finite number"),
            ),
        );
        assert(mods@.take((i + 1) as int).drop_last() =~= mods@.take(i as int));
        assert(issues_view(out@) =~= before + seasonal_issues_at(mods@[i as int], i as int));
        i += 1;
    }
    assert(mods@.take(mods.len() as int) =~= mods@);
    out
}

pub open spec fn travel_time_issues(t: Option<crate::world_model::TravelTime>) -> Seq<IssueView> {
    match t {
        Some(t) => travel_issues(t.walking, "walking"@) + travel_issues(t.horse, "horse"@)
            + travel_issues(t.carriage, "carriage"@) + travel_issues(t.boat, "boat"@)
            + travel_issues(t.flying, "flying"@) + travel_issues(t.teleport, "teleport"@),
        None => Seq::empty(),
    }
}

fn check_travel_time(issues: &mut Vec<ValidationIssue>, travel_time: &Option<crate::world_model::TravelTime>)
    ensures
        issues_view(final(issues)@) == issues_view(old(issues)@) + travel_time_issues(*travel_time),
{
    let ghost start = issues_view(issues@);
    match travel_time {
        Some(t) => {
            check_travel(issues, &t.walking, "walking");
            check_travel(issues, &t.horse, "horse");
            check_travel(issues, &t.carriage, "carriage");
            check_travel(issues, &t.boat, "boat");
            check_travel(issues, &t.flying, "flying");
            check_travel(issues, &t.teleport, "teleport");
            assert(issues_view(issues@) =~= start + travel_time_issues(*travel_time));
        },
        None => {
            assert(issues_view(issues@) =~= start + Seq::<IssueView>::empty());
        },
    }
}

impl WorldEditorValidator {
    /// Validates a location edge.
    pub fn validate_edge(edge: &LocationEdge) -> (r: Result<Vec<ValidationIssue>, String>)
        ensures
            r matches Ok(v) && issues_view(v@) == edge_issues(*edge),
    {
        let mut issues: Vec<ValidationIssue> = Vec::new();
        push_when(
            &mut issues,
            blank(&str_chars(edge.edge_id.as_str())),
            error(text("edge_id"), text("edge_id cannot be empty")),
        );
        push_when(
            &mut issues,
            blank(&str_chars(edge.from_location_id.as_str())),
            error(text("from_location_id"), text("from_location_id cannot be empty")),
        );
        push_when(
            &mut issues,
            blank(&str_chars(edge.to_location_id.as_str())),
            error(text("to_location_id"), text("to_location_id cannot be empty")),
        );
        push_when(
            &mut issues,
            same_text(&edge.from_location_id, &edge.to_location_id),
            error(text("to_location_id"), text("location edge cannot point to the same location")),
        );
        push_when(
            &mut issues,
            !finite(edge.terrain_cost) || real_le(edge.terrain_cost, Real::Finite(0)),
            error(text("terrain_cost"), text("terrain_cost must be a positive finite number")),
        );
        push_when(
            &mut issues,
            !finite(edge.safety_cost) || real_le(edge.safety_cost, Real::Finite(0)),
            error(text("safety_cost"), text("safety_cost must be a positive finite number")),
        );
        let ghost upto_costs = issues_view(issues@);
        match &edge.distance_km {
            Some(d) => {
                validate_min_max(&mut issues, text("distance_km"), d.min_km, d.max_km, "distance");
            },
            None => {
                assert(issues_view(issues@) =~= upto_costs + Seq::<IssueView>::empty());
            },
        }
        check_travel_time(&mut issues, &edge.travel_time);
        let seasonal = check_seasonal(&edge.seasonal_modifiers);
        append_issues(&mut issues, seasonal);
        Ok(issues)
    }
}

// ---------------------------------------------------------------------------
// Knowledge
// ---------------------------------------------------------------------------

pub open spec fn has_god_only(scopes: Seq<AccessScope>) -> bool {
    exists|i: int| 0 <= i < scopes.len() && #[trigger] scopes[i] is GodOnly
}

pub open spec fn known_by_issues(s: Seq<String>) -> Seq<IssueView>
    decreases s.len(),
{
    if s.len() == 0 {
        Seq::empty()
    } else {
        known_by_issues(s.drop_last()) + issue_if(
            is_blank(s.last()@),
            err(
                indexed("access_policy.known_by["@, s.len() - 1, "]"@),
                "known_by character_id cannot be empty"@,
            ),
        )
    }
}

/// A scope that names a region, faction, realm, role or bloodline with a
/// blank name.
pub open spec fn blank_scope_value(s: AccessScope) -> bool {
    match s {
        AccessScope::Region(v) => is_blank(v@),
        AccessScope::Faction(v) => is_blank(v@),
        AccessScope::Realm(v) => is_blank(v@),
        AccessScope::Role(v) => is_blank(v@),
        AccessScope::Bloodline(v) => is_blank(v@),
        _ => false,
    }
}

pub open spec fn scope_issues(s: Seq<AccessScope>) -> Seq<IssueView>
    decreases s.len(),
{
    if s.len() == 0 {
        Seq::empty()
    } else {
        scope_issues(s.drop_last()) + issue_if(
            blank_scope_value(s.last()),
            err(
                indexed("access_policy.scope["@, s.len() - 1, "]"@),
                "access scope value cannot be empty"@,
            ),
        )
    }
}

/// The issues of an access policy: `GodOnly` stands alone, and names are
/// not blank.
pub open spec fn access_policy_issues(p: AccessPolicy) -> Seq<IssueView> {
    let god = has_god_only(p.scope@);
    issue_if(
        god && p.known_by@.len() > 0,
        err("access_policy.known_by"@, "GodOnly knowledge cannot also grant known_by access"@),
    ) + issue_if(
        god && p.scope@.len() > 1,
        err("access_policy.scope"@, "GodOnly must not be combined with other access scopes"@),
    ) + issue_if(
        god && p.conditions@.len() > 0,
        err(
            "access_policy.conditions"@,
            "GodOnly knowledge cannot also grant conditional access"@,
        ),
    ) + known_by_issues(p.known_by@) + scope_issues(p.scope@)
}

/// Kind and subject agree (memories may be about anything).
pub open spec fn kind_matches_subject(kind: KnowledgeKind, subject: KnowledgeSubject) -> bool {
    match (kind, subject) {
        (KnowledgeKind::WorldFact, KnowledgeSubject::World) => true,
        (KnowledgeKind::RegionFact, KnowledgeSubject::Region(_)) => true,
        (KnowledgeKind::FactionFact, KnowledgeSubject::Faction(_)) => true,
        (KnowledgeKind::CharacterFacet, KnowledgeSubject::Character { .. }) => true,
        (KnowledgeKind::HistoricalEvent, KnowledgeSubject::Event { .. }) => true,
        (KnowledgeKind::Memory, _) => true,
        _ => false,
    }
}

/// A character facet holding a mind model card.
pub open spec fn is_mind_model_card(kind: KnowledgeKind, subject: KnowledgeSubject) -> bool {
    kind == KnowledgeKind::CharacterFacet && match subject {
        KnowledgeSubject::Character { id, facet } => facet == CharacterFacetType::MindModelCard,
        _ => false,
    }
}

/// The issues of a knowledge entry; `schema_error` is what decoding the
/// content as a mind model card reported, for entries that hold one.
pub open spec fn knowledge_issues(e: KnowledgeEntry, schema_error: Option<Seq<char>>) -> Seq<
    IssueView,
> {
    issue_if(is_blank(e.knowledge_id@), err("knowledge_id"@, "knowledge_id cannot be empty"@)) + issue_if(
        is_blank(e.schema_version@),
        err("schema_version"@, "schema_version cannot be empty"@),
    ) + issue_if(is_null(e.content), err("content"@, "content cannot be null"@))
        + access_policy_issues(e.access_policy) + issue_if(
        !kind_matches_subject(e.kind, e.subject),
        warn("subject"@, "knowledge kind and subject type look inconsistent"@),
    ) + issue_if(
        e.subject is Character && e.subject_awareness == SubjectAwareness::Unaware
            && e.apparent_content is None,
        warn(
            "apparent_content"@,
            "unaware character facets should usually provide apparent_content or self_belief"@,
        ),
    ) + match schema_error {
        Some(m) => issue_if(
            is_mind_model_card(e.kind, e.subject),
            err("content"@, "MindModelCard content schema invalid: "@ + m),
        ),
        None => Seq::empty(),
    }
}

fn scope_is_god_only(s: &AccessScope) -> (r: bool)
    ensures
        r == (*s is GodOnly),
{
    match s {
        AccessScope::GodOnly => true,
        _ => false,
    }
}

fn scope_value_blank(s: &AccessScope) -> (r: bool)
    ensures
        r == blank_scope_value(*s),
{
    match s {
        AccessScope::Region(v) => blank(&str_chars(v.as_str())),
        AccessScope::Faction(v) => blank(&str_chars(v.as_str())),
        AccessScope::Realm(v) => blank(&str_chars(v.as_str())),
        AccessScope::Role(v) => blank(&str_chars(v.as_str())),
        AccessScope::Bloodline(v) => blank(&str_chars(v.as_str())),
        _ => false,
    }
}

fn validate_access_policy(issues: &mut Vec<ValidationIssue>, policy: &AccessPolicy)
    ensures
        issues_view(final(issues)@) == issues_view(old(issues)@) + access_policy_issues(*policy),
{
    let ghost start = issues_view(issues@);
    let mut god = false;
    let mut i: usize = 0;
    while i < policy.scope.len()
        invariant
            i <= policy.scope.len(),
            god <==> exists|k: int| 0 <= k < i && #[trigger] policy.scope@[k] is GodOnly,
        decreases policy.scope.len() - i,
    {
        if scope_is_god_only(&policy.scope[i]) {
            god = true;
        }
        i += 1;
    }
    push_when(
        issues,
        god && policy.known_by.len() > 0,
        error(
            text("access_policy.known_by"),
            text("GodOnly knowledge cannot also grant known_by access"),
        ),
    );
    push_when(
        issues,
        god && policy.scope.len() > 1,
        error(
            text("access_policy.scope"),
            text("GodOnly must not be combined with other access scopes"),
        ),
    );
    push_when(
        issues,
        god && policy.conditions.len() > 0,
        error(
            text("access_policy.conditions"),
            text("GodOnly knowledge cannot also grant conditional access"),
        ),
    );
    let ghost upto_god = issues_view(issues@);
    let mut j: usize = 0;
    while j < policy.known_by.len()
        invariant
            j <= policy.known_by.len(),
            issues_view(issues@) == upto_god + known_by_issues(policy.known_by@.take(j as int)),
        decreases policy.known_by.len() - j,
    {
        let ghost before = issues_view(issues@);
        push_when(
            issues,
            blank(&str_chars(policy.known_by[j].as_str())),
            error(
                indexed_path("access_policy.known_by[", j, "]"),
                text("known_by character_id cannot be empty"),
            ),
        );
        assert(policy.known_by@.take((j + 1) as int).drop_last() =~= policy.known_by@.take(
            j as int,
        ));
        j += 1;
    }
    assert(policy.known_by@.take(policy.known_by.len() as int) =~= policy.known_by@);
    let ghost upto_known = issues_view(issues@);
    let mut k: usize = 0;
    while k < policy.scope.len()
        invariant
            k <= policy.scope.len(),
            issues_view(issues@) == upto_known + scope_issues(policy.scope@.take(k as int)),
        decreases policy.scope.len() - k,
    {
        push_when(
            issues,
            scope_value_blank(&policy.scope[k]),
            error(
                indexed_path("access_policy.scope[", k, "]"),
                text("access scope value cannot be empty"),
            ),
        );
        assert(policy.scope@.take((k + 1) as int).drop_last() =~= policy.scope@.take(k as int));
        k += 1;
    }
    assert(policy.scope@.take(policy.scope.len() as int) =~= policy.scope@);
    assert(issues_view(issues@) =~= start + access_policy_issues(*policy));
}

fn kind_subject_consistent(kind: KnowledgeKind, subject: &KnowledgeSubject) -> (r: bool)
    ensures
        r == kind_matches_subject(kind, *subject),
{
    match (kind, subject) {
        (KnowledgeKind::WorldFact, KnowledgeSubject::World) => true,
        (KnowledgeKind::RegionFact, KnowledgeSubject::Region(_)) => true,
        (KnowledgeKind::FactionFact, KnowledgeSubject::Faction(_)) => true,
        (KnowledgeKind::CharacterFacet, KnowledgeSubject::Character { .. }) => true,
        (KnowledgeKind::HistoricalEvent, KnowledgeSubject::Event { .. }) => true,
        (KnowledgeKind::Memory, _) => true,
        _ => false,
    }
}

fn holds_mind_model_card(kind: KnowledgeKind, subject: &KnowledgeSubject) -> (r: bool)
    ensures
        r == is_mind_model_card(kind, *subject),
{
    match subject {
        KnowledgeSubject::Character { id, facet } => kind == KnowledgeKind::CharacterFacet && *facet
            == CharacterFacetType::MindModelCard,
        _ => false,
    }
}

impl WorldEditorValidator {
    /// Validates a knowledge entry. A mind model card's content must decode
    /// as a mind model card; `content_schema_error` is the decoder's error
    /// for this entry's content, if it failed.
    pub fn validate_knowledge(entry: &KnowledgeEntry, content_schema_error: Option<&str>) -> (r:
        Result<Vec<ValidationIssue>, String>)
        ensures
            r matches Ok(v) && issues_view(v@) == knowledge_issues(
                *entry,
                match content_schema_error {
                    Some(m) => Some(m@),
                    None => None,
                },
            ),
    {
        let mut issues: Vec<ValidationIssue> = Vec::new();
        push_when(
            &mut issues,
            blank(&str_chars(entry.knowledge_id.as_str())),
            error(text("knowledge_id"), text("knowledge_id cannot be empty")),
        );
        push_when(
            &mut issues,
            blank(&str_chars(entry.schema_version.as_str())),
            error(text("schema_version"), text("schema_version cannot be empty")),
        );
        push_when(
            &mut issues,
            json_is_null(&entry.content),
            error(text("content"), text("content cannot be null")),
        );
        validate_access_policy(&mut issues, &entry.access_policy);
        push_when(
            &mut issues,
            !kind_subject_consistent(entry.kind, &entry.subject),
            warning(text("subject"), text("knowledge kind and subject type look inconsistent")),
        );
        let is_character = match &entry.subject {
            KnowledgeSubject::Character { .. } => true,
            _ => false,
        };
        push_when(
            &mut issues,
            is_character && entry.subject_awareness == SubjectAwareness::Unaware
                && entry.apparent_content.is_none(),
            warning(
                text("apparent_content"),
                text("unaware character facets should usually provide apparent_content or self_belief"),
            ),
        );
        let ghost before_schema = issues_view(issues@);
        match content_schema_error {
            Some(m) => {
                push_when(
                    &mut issues,
                    holds_mind_model_card(entry.kind, &entry.subject),
                    error(text("content"), labelled("MindModelCard content schema invalid: ", m)),
                );
            },
            None => {
                assert(issues_view(issues@) =~= before_schema + Seq::<IssueView>::empty());
            },
        }
        Ok(issues)
    }
}

// ---------------------------------------------------------------------------
// Characters
// ---------------------------------------------------------------------------

pub open spec fn attribute_issue(path: Seq<char>, v: Real) -> Seq<IssueView> {
    issue_if(bad_non_negative(v), err(path, "base attribute must be a non-negative finite number"@))
}

pub open spec fn ratio_issue(path: Seq<char>, v: Real) -> Seq<IssueView> {
    issue_if(bad_ratio(v), err(path, "value must be in 0.0..=1.0"@))
}

/// Identity, base attributes and body profile.
pub open spec fn character_profile_issues(c: CharacterRecord) -> Seq<IssueView> {
    let a = c.base_attributes;
    let body = c.baseline_body_profile;
    issue_if(is_blank(c.character_id@), err("character_id"@, "character_id cannot be empty"@)) + issue_if(
        is_blank(c.mind_model_card_knowledge_id@),
        err(
            "mind_model_card_knowledge_id"@,
            "mind_model_card_knowledge_id cannot be empty"@,
        ),
    ) + issue_if(is_blank(c.schema_version@), err("schema_version"@, "schema_version cannot be empty"@))
        + attribute_issue("base_attributes.physical"@, a.physical) + attribute_issue(
        "base_attributes.agility"@,
        a.agility,
    ) + attribute_issue("base_attributes.endurance"@, a.endurance) + attribute_issue(
        "base_attributes.insight"@,
        a.insight,
    ) + attribute_issue("base_attributes.mana_power"@, a.mana_power) + attribute_issue(
        "base_attributes.soul_strength"@,
        a.soul_strength,
    ) + match c.mana_expression_tendency_factor_override {
        Some(v) => issue_if(
            !is_finite(v),
            err(
                "mana_expression_tendency_factor_override"@,
                "override must be finite when present"@,
            ),
        ),
        None => Seq::empty(),
    } + issue_if(
        is_blank(body.species@),
        err("baseline_body_profile.species"@, "species cannot be empty"@),
    ) + issue_if(
        lt(body.comfort_temperature_range.1, body.comfort_temperature_range.0),
        err(
            "baseline_body_profile.comfort_temperature_range"@,
            "minimum comfort temperature cannot exceed maximum"@,
        ),
    ) + issue_if(
        bad_ratio(body.mana_sense_baseline.acuity),
        err(
            "baseline_body_profile.mana_sense_baseline.acuity"@,
            "mana sense acuity must be in 0.0..=1.0"@,
        ),
    ) + issue_if(
        bad_non_negative(body.mana_sense_baseline.overload_threshold),
        err(
            "baseline_body_profile.mana_sense_baseline.overload_threshold"@,
            "overload_threshold must be a non-negative finite number"@,
        ),
    )
}

/// The scalar parts of the temporary state.
pub open spec fn state_scalar_issues(c: CharacterRecord) -> Seq<IssueView> {
    let st = c.temporary_state;
    ratio_issue("temporary_state.fatigue"@, st.fatigue) + ratio_issue(
        "temporary_state.pain_load"@,
        st.pain_load,
    ) + match st.mana_reserve_current {
        Some(m) => issue_if(
            bad_non_negative(m),
            err(
                "temporary_state.mana_reserve_current"@,
                "mana_reserve_current must be a non-negative finite number"@,
            ),
        ),
        None => Seq::empty(),
    } + issue_if(
        bad_non_negative(st.mana_expression.display_ratio),
        err(
            "temporary_state.mana_expression.display_ratio"@,
            "display_ratio must be a non-negative finite number"@,
        ),
    ) + issue_if(
        bad_non_negative(st.mana_expression.pressure_ratio),
        err(
            "temporary_state.mana_expression.pressure_ratio"@,
            "pressure_ratio must be a non-negative finite number"@,
        ),
    ) + ratio_issue(
        "temporary_state.environmental_exposure.cold_strain"@,
        st.environmental_exposure.cold_strain,
    ) + ratio_issue(
        "temporary_state.environmental_exposure.heat_strain"@,
        st.environmental_exposure.heat_strain,
    ) + ratio_issue(
        "temporary_state.environmental_exposure.respiration_strain"@,
        st.environmental_exposure.respiration_strain,
    )
}

pub open spec fn condition_issues(s: Seq<ConditionState>) -> Seq<IssueView>
    decreases s.len(),
{
    if s.len() == 0 {
        Seq::empty()
    } else {
        let i = s.len() - 1;
        condition_issues(s.drop_last()) + issue_if(
            is_blank(s.last().condition_id@),
            err(
                indexed("temporary_state.active_conditions["@, i, "].condition_id"@),
                "condition_id cannot be empty"@,
            ),
        ) + issue_if(
            bad_non_negative(s.last().intensity),
            err(
                indexed("temporary_state.active_conditions["@, i, "].intensity"@),
                "condition intensity must be a non-negative finite number"@,
            ),
        )
    }
}

pub open spec fn suppression_issues(s: Seq<ManaSuppression>) -> Seq<IssueView>
    decreases s.len(),
{
    if s.len() == 0 {
        Seq::empty()
    } else {
        let i = s.len() - 1;
        suppression_issues(s.drop_last()) + issue_if(
            is_blank(s.last().source_id@),
            err(
                indexed("temporary_state.mana_suppression["@, i, "].source_id"@),
                "source_id cannot be empty"@,
            ),
        ) + issue_if(
            bad_non_negative(s.last().multiplier),
            err(
                indexed("temporary_state.mana_suppression["@, i, "].multiplier"@),
                "suppression multiplier must be a non-negative finite number"@,
            ),
        )
    }
}

pub open spec fn cooldown_issues(s: Seq<CooldownState>) -> Seq<IssueView>
    decreases s.len(),
{
    if s.len() == 0 {
        Seq::empty()
    } else {
        cooldown_issues(s.drop_last()) + issue_if(
            is_blank(s.last().ability_id@),
            err(
                indexed("temporary_state.cooldowns["@, s.len() - 1, "].ability_id"@),
                "ability_id cannot be empty"@,
            ),
        )
    }
}

/// The issues of a character record, in the order they are reported.
pub open spec fn character_issues(c: CharacterRecord) -> Seq<IssueView> {
    character_profile_issues(c) + state_scalar_issues(c) + condition_issues(
        c.temporary_state.active_conditions@,
    ) + suppression_issues(c.temporary_state.mana_suppression@) + cooldown_issues(
        c.temporary_state.cooldowns@,
    )
}

fn bad_non_negative_exec(v: Real) -> (r: bool)
    ensures
        r == bad_non_negative(v),
{
    !finite(v) || real_lt(v, Real::Finite(0))
}

fn bad_ratio_exec(v: Real) -> (r: bool)
    ensures
        r == bad_ratio(v),
{
    !finite(v) || !unit_range_contains(v)
}

fn check_attribute(issues: &mut Vec<ValidationIssue>, path: &str, v: Real)
    ensures
        issues_view(final(issues)@) == issues_view(old(issues)@) + attribute_issue(path@, v),
{
    push_when(
        issues,
        bad_non_negative_exec(v),
        error(text(path), text("base attribute must be a non-negative finite number")),
    );
}

fn validate_ratio(issues: &mut Vec<ValidationIssue>, field_path: &str, value: Real)
    ensures
        issues_view(final(issues)@) == issues_view(old(issues)@) + ratio_issue(field_path@, value),
{
    push_when(issues, bad_ratio_exec(value), error(text(field_path), text("value must be in 0.0..=1.0")));
}

#[verifier::rlimit(40)]
fn check_character_profile(c: &CharacterRecord) -> (r: Vec<ValidationIssue>)
    ensures
        issues_view(r@) == character_profile_issues(*c),
{
    let mut issues: Vec<ValidationIssue> = Vec::new();
    push_when(
        &mut issues,
        blank(&str_chars(c.character_id.as_str())),
        error(text("character_id"), text("character_id cannot be empty")),
    );
    push_when(
        &mut issues,
        blank(&str_chars(c.mind_model_card_knowledge_id.as_str())),
        error(
            text("mind_model_card_knowledge_id"),
            text("mind_model_card_knowledge_id cannot be empty"),
        ),
    );
    push_when(
        &mut issues,
        blank(&str_chars(c.schema_version.as_str())),
        error(text("schema_version"), text("schema_version cannot be empty")),
    );
    let a = &c.base_attributes;
    check_attribute(&mut issues, "base_attributes.physical", a.physical);
    check_attribute(&mut issues, "base_attributes.agility", a.agility);
    check_attribute(&mut issues, "base_attributes.endurance", a.endurance);
    check_attribute(&mut issues, "base_attributes.insight", a.insight);
    check_attribute(&mut issues, "base_attributes.mana_power", a.mana_power);
    check_attribute(&mut issues, "base_attributes.soul_strength", a.soul_strength);
    let ghost upto_attributes = issues_view(issues@);
    match c.mana_expression_tendency_factor_override {
        Some(v) => {
            push_when(
                &mut issues,
                !finite(v),
                error(
                    text("mana_expression_tendency_factor_override"),
                    text("override must be finite when present"),
                ),
            );
        },
        None => {
            assert(issues_view(issues@) =~= upto_attributes + Seq::<IssueView>::empty());
        },
    }
    let body = &c.baseline_body_profile;
    push_when(
        &mut issues,
        blank(&str_chars(body.species.as_str())),
        error(text("baseline_body_profile.species"), text("species cannot be empty")),
    );
    push_when(
        &mut issues,
        real_lt(body.comfort_temperature_range.1, body.comfort_temperature_range.0),
        error(
            text("baseline_body_profile.comfort_temperature_range"),
            text("minimum comfort temperature cannot exceed maximum"),
        ),
    );
    push_when(
        &mut issues,
        bad_ratio_exec(body.mana_sense_baseline.acuity),
        error(
            text("baseline_body_profile.mana_sense_baseline.acuity"),
            text("mana sense acuity must be in 0.0..=1.0"),
        ),
    );
    push_when(
        &mut issues,
        bad_non_negative_exec(body.mana_sense_baseline.overload_threshold),
        error(
            text("baseline_body_profile.mana_sense_baseline.overload_threshold"),
            text("overload_threshold must be a non-negative finite number"),
        ),
    );
    issues
}

#[verifier::rlimit(40)]
fn check_state_scalars(c: &CharacterRecord) -> (r: Vec<ValidationIssue>)
    ensures
        issues_view(r@) == state_scalar_issues(*c),
{
    let mut issues: Vec<ValidationIssue> = Vec::new();
    let st = &c.temporary_state;
    validate_ratio(&mut issues, "temporary_state.fatigue", st.fatigue);
    validate_ratio(&mut issues, "temporary_state.pain_load", st.pain_load);
    let ghost upto_ratios = issues_view(issues@);
    match st.mana_reserve_current {
        Some(m) => {
            push_when(
                &mut issues,
                bad_non_negative_exec(m),
                error(
                    text("temporary_state.mana_reserve_current"),
                    text("mana_reserve_current must be a non-negative finite number"),
                ),
            );
        },
        None => {
            assert(issues_view(issues@) =~= upto_ratios + Seq::<IssueView>::empty());
        },
    }
    push_when(
        &mut issues,
        bad_non_negative_exec(st.mana_expression.display_ratio),
        error(
            text("temporary_state.mana_expression.display_ratio"),
            text("display_ratio must be a non-negative finite number"),
        ),
    );
    push_when(
        &mut issues,
        bad_non_negative_exec(st.mana_expression.pressure_ratio),
        error(
            text("temporary_state.mana_expression.pressure_ratio"),
            text("pressure_ratio must be a non-negative finite number"),
        ),
    );
    validate_ratio(
        &mut issues,
        "temporary_state.environmental_exposure.cold_strain",
        st.environmental_exposure.cold_strain,
    );
    validate_ratio(
        &mut issues,
        "temporary_state.environmental_exposure.heat_strain",
        st.environmental_exposure.heat_strain,
    );
    validate_ratio(
        &mut issues,
        "temporary_state.environmental_exposure.respiration_strain",
        st.environmental_exposure.respiration_strain,
    );
    issues
}

fn check_conditions(s: &Vec<ConditionState>) -> (r: Vec<ValidationIssue>)
    ensures
        issues_view(r@) == condition_issues(s@),
{
    let mut out: Vec<ValidationIssue> = Vec::new();
    let mut i: usize = 0;
    while i < s.len()
        invariant
            i <= s.len(),
            issues_view(out@) == condition_issues(s@.take(i as int)),
        decreases s.len() - i,
    {
        push_when(
            &mut out,
            blank(&str_chars(s[i].condition_id.as_str())),
            error(
                indexed_path("temporary_state.active_conditions[", i, "].condition_id"),
                text("condition_id cannot be empty"),
            ),
        );
        push_when(
            &mut out,
            bad_non_negative_exec(s[i].intensity),
            error(
                indexed_path("temporary_state.active_conditions[", i, "].intensity"),
                text("condition intensity must be a non-negative finite number"),
            ),
        );
        assert(s@.take((i + 1) as int).drop_last() =~= s@.take(i as int));
        i += 1;
    }
    assert(s@.take(s.len() as int) =~= s@);
    out
}

fn check_suppression(s: &Vec<ManaSuppression>) -> (r: Vec<ValidationIssue>)
    ensures
        issues_view(r@) == suppression_issues(s@),
{
    let mut out: Vec<ValidationIssue> = Vec::new();
    let mut i: usize = 0;
    while i < s.len()
        invariant
            i <= s.len(),
            issues_view(out@) == suppression_issues(s@.take(i as int)),
        decreases s.len() - i,
    {
        push_when(
            &mut out,
            blank(&str_chars(s[i].source_id.as_str())),
            error(
                indexed_path("temporary_state.mana_suppression[", i, "].source_id"),
                text("source_id cannot be empty"),
            ),
        );
        push_when(
            &mut out,
            bad_non_negative_exec(s[i].multiplier),
            error(
                indexed_path("temporary_state.mana_suppression[", i, "].multiplier"),
                text("suppression multiplier must be a non-negative finite number"),
            ),
        );
        assert(s@.take((i + 1) as int).drop_last() =~= s@.take(i as int));
        i += 1;
    }
    assert(s@.take(s.len() as int) =~= s@);
    out
}

fn check_cooldowns(s: &Vec<CooldownState>) -> (r: Vec<ValidationIssue>)
    ensures
        issues_view(r@) == cooldown_issues(s@),
{
    let mut out: Vec<ValidationIssue> = Vec::new();
    let mut i: usize = 0;
    while i < s.len()
        invariant
            i <= s.len(),
            issues_view(out@) == cooldown_issues(s@.take(i as int)),
        decreases s.len() - i,
    {
        push_when(
            &mut out,
            blank(&str_chars(s[i].ability_id.as_str())),
            error(
                indexed_path("temporary_state.cooldowns[", i, "].ability_id"),
                text("ability_id cannot be empty"),
            ),
        );
        assert(s@.take((i + 1) as int).drop_last() =~= s@.take(i as int));
        i += 1;
    }
    assert(s@.take(s.len() as int) =~= s@);
    out
}

impl WorldEditorValidator {
    /// Validates a character record.
    pub fn validate_character(character: &CharacterRecord) -> (r: Result<Vec<ValidationIssue>, String>)
        ensures
            r matches Ok(v) && issues_view(v@) == character_issues(*character),
    {
        let mut issues = check_character_profile(character);
        append_issues(&mut issues, check_state_scalars(character));
        append_issues(&mut issues, check_conditions(&character.temporary_state.active_conditions));
        append_issues(&mut issues, check_suppression(&character.temporary_state.mana_suppression));
        append_issues(&mut issues, check_cooldowns(&character.temporary_state.cooldowns));
        Ok(issues)
    }
}

// ---------------------------------------------------------------------------
// Laws of edge validation
// ---------------------------------------------------------------------------

/// No issue of `s` is reported at `path`.
pub open spec fn none_at(s: Seq<IssueView>, path: Seq<char>) -> bool {
    forall|k: int| 0 <= k < s.len() ==> (#[trigger] s[k]).1 != path
}

/// Some issue of `s` is reported at `path`.
pub open spec fn some_at(s: Seq<IssueView>, path: Seq<char>) -> bool {
    exists|k: int| 0 <= k < s.len() && (#[trigger] s[k]).1 == path
}

proof fn lemma_at_concat(a: Seq<IssueView>, b: Seq<IssueView>, path: Seq<char>)
    ensures
        none_at(a + b, path) <==> none_at(a, path) && none_at(b, path),
        some_at(a + b, path) <==> some_at(a, path) || some_at(b, path),
{
    if some_at(a + b, path) {
        let k = choose|k: int| 0 <= k < (a + b).len() && (#[trigger] (a + b)[k]).1 == path;
        if k < a.len() {
            assert(a[k] == (a + b)[k]);
        } else {
            assert(b[k - a.len()] == (a + b)[k]);
        }
    }
    if some_at(a, path) {
        let k = choose|k: int| 0 <= k < a.len() && (#[trigger] a[k]).1 == path;
        assert((a + b)[k] == a[k]);
    }
    if some_at(b, path) {
        let k = choose|k: int| 0 <= k < b.len() && (#[trigger] b[k]).1 == path;
        assert((a + b)[a.len() + k] == b[k]);
    }
    if none_at(a, path) && none_at(b, path) {
        assert forall|k: int| 0 <= k < (a + b).len() implies (#[trigger] (a + b)[k]).1 != path by {
            if k < a.len() {
                assert(a[k] == (a + b)[k]);
            } else {
                assert(b[k - a.len()] == (a + b)[k]);
            }
        }
    }
    if none_at(a + b, path) {
        assert forall|k: int| 0 <= k < a.len() implies (#[trigger] a[k]).1 != path by {
            assert((a + b)[k] == a[k]);
        }
        assert forall|k: int| 0 <= k < b.len() implies (#[trigger] b[k]).1 != path by {
            assert((a + b)[a.len() + k] == b[k]);
        }
    }
}

proof fn lemma_none_at_is_not_some(s: Seq<IssueView>, path: Seq<char>)
    ensures
        none_at(s, path) <==> !some_at(s, path),
{
}

proof fn lemma_min_max_path(path: Seq<char>, min: Real, max: Real, label: Seq<char>, other: Seq<char>)
    requires
        path != other,
    ensures
        none_at(min_max_issues(path, min, max, label), other),
{
}

proof fn lemma_issue_if_path(c: bool, i: IssueView, other: Seq<char>)
    requires
        i.1 != other,
    ensures
        none_at(issue_if(c, i), other),
{
}

proof fn lemma_seasonal_paths(s: Seq<SeasonalModifier>, other: Seq<char>)
    requires
        other.len() > 0 && other[0] != 's',
    ensures
        none_at(seasonal_issues(s), other),
    decreases s.len(),
{
    reveal_strlit("seasonal_modifiers[");
    if s.len() > 0 {
        lemma_seasonal_paths(s.drop_last(), other);
        let m = s.last();
        let i = s.len() - 1;
        let p1 = indexed("seasonal_modifiers["@, i, "].terrain_cost_modifier"@);
        let p2 = indexed("seasonal_modifiers["@, i, "].safety_cost_modifier"@);
        assert(p1[0] == 's' && p2[0] == 's');
        assert(p1 != other && p2 != other);
        lemma_issue_if_path(bad_non_negative(m.terrain_cost_modifier), err(p1, "terrain cost modifier must be a non-negative finite number"@), other);
        lemma_issue_if_path(bad_non_negative(m.safety_cost_modifier), err(p2, "safety cost modifier must be a non-negative finite number"@), other);
        lemma_at_concat(
            issue_if(bad_non_negative(m.terrain_cost_modifier), err(p1, "terrain cost modifier must be a non-negative finite number"@)),
            issue_if(bad_non_negative(m.safety_cost_modifier), err(p2, "safety cost modifier must be a non-negative finite number"@)),
            other,
        );
        lemma_at_concat(seasonal_issues(s.drop_last()), seasonal_issues_at(m, i), other);
    }
}

/// A range of travel time with finite, non-negative bounds is refused
/// exactly when its least time exceeds its greatest: then with the one
/// issue "travel time min cannot exceed max" at `travel_time.<mode>`.
pub proof fn law_travel_time_order(e: TimeEstimate, mode: Seq<char>)
    requires
        is_finite(e.min_hours),
        is_finite(e.max_hours),
        !lt(e.min_hours, Real::Finite(0)),
        !lt(e.max_hours, Real::Finite(0)),
    ensures
        travel_issues(Some(e), mode) == if lt(e.max_hours, e.min_hours) {
            seq![(ValidationSeverity::Error, "travel_time."@ + mode, "travel time min cannot exceed max"@)]
        } else {
            Seq::<IssueView>::empty()
        },
{
    reveal_strlit("travel time");
    reveal_strlit(" min cannot exceed max");
    reveal_strlit("travel time min cannot exceed max");
    assert("travel time"@ + " min cannot exceed max"@ =~= "travel time min cannot exceed max"@);
}

spec fn edge_head_issues(e: LocationEdge) -> Seq<IssueView> {
    issue_if(is_blank(e.edge_id@), err("edge_id"@, "edge_id cannot be empty"@)) + issue_if(
        is_blank(e.from_location_id@),
        err("from_location_id"@, "from_location_id cannot be empty"@),
    ) + issue_if(
        is_blank(e.to_location_id@),
        err("to_location_id"@, "to_location_id cannot be empty"@),
    ) + issue_if(
        e.from_location_id@ == e.to_location_id@,
        err("to_location_id"@, "location edge cannot point to the same location"@),
    ) + issue_if(
        bad_positive(e.terrain_cost),
        err("terrain_cost"@, "terrain_cost must be a positive finite number"@),
    ) + issue_if(
        bad_positive(e.safety_cost),
        err("safety_cost"@, "safety_cost must be a positive finite number"@),
    ) + match e.distance_km {
        Some(d) => min_max_issues("distance_km"@, d.min_km, d.max_km, "distance"@),
        None => Seq::empty(),
    }
}

proof fn lemma_head_not_walking(e: LocationEdge)
    ensures
        none_at(edge_head_issues(e), "travel_time.walking"@),
{
    let wp = "travel_time.walking"@;
    reveal_strlit("travel_time.walking");
    reveal_strlit("edge_id");
    reveal_strlit("from_location_id");
    reveal_strlit("to_location_id");
    reveal_strlit("terrain_cost");
    reveal_strlit("safety_cost");
    reveal_strlit("distance_km");
    let a1 = issue_if(is_blank(e.edge_id@), err("edge_id"@, "edge_id cannot be empty"@));
    let a2 = issue_if(is_blank(e.from_location_id@), err("from_location_id"@, "from_location_id cannot be empty"@));
    let a3 = issue_if(is_blank(e.to_location_id@), err("to_location_id"@, "to_location_id cannot be empty"@));
    let a4 = issue_if(
        e.from_location_id@ == e.to_location_id@,
        err("to_location_id"@, "location edge cannot point to the same location"@),
    );
    let a5 = issue_if(bad_positive(e.terrain_cost), err("terrain_cost"@, "terrain_cost must be a positive finite number"@));
    let a6 = issue_if(bad_positive(e.safety_cost), err("safety_cost"@, "safety_cost must be a positive finite number"@));
    let dd = match e.distance_km {
        Some(d) => min_max_issues("distance_km"@, d.min_km, d.max_km, "distance"@),
        None => Seq::empty(),
    };
    assert("edge_id"@.len() != wp.len());
    assert("from_location_id"@.len() != wp.len());
    assert("to_location_id"@.len() != wp.len());
    assert("terrain_cost"@.len() != wp.len());
    assert("safety_cost"@.len() != wp.len());
    assert("distance_km"@.len() != wp.len());
    lemma_issue_if_path(is_blank(e.edge_id@), err("edge_id"@, "edge_id cannot be empty"@), wp);
    lemma_issue_if_path(is_blank(e.from_location_id@), err("from_location_id"@, "from_location_id cannot be empty"@), wp);
    lemma_issue_if_path(is_blank(e.to_location_id@), err("to_location_id"@, "to_location_id cannot be empty"@), wp);
    lemma_issue_if_path(
        e.from_location_id@ == e.to_location_id@,
        err("to_location_id"@, "location edge cannot point to the same location"@),
        wp,
    );
    lemma_issue_if_path(bad_positive(e.terrain_cost), err("terrain_cost"@, "terrain_cost must be a positive finite number"@), wp);
    lemma_issue_if_path(bad_positive(e.safety_cost), err("safety_cost"@, "safety_cost must be a positive finite number"@), wp);
    match e.distance_km {
        Some(d) => lemma_min_max_path("distance_km"@, d.min_km, d.max_km, "distance"@, wp),
        None => {},
    }
    lemma_at_concat(a1, a2, wp);
    lemma_at_concat(a1 + a2, a3, wp);
    lemma_at_concat(a1 + a2 + a3, a4, wp);
    lemma_at_concat(a1 + a2 + a3 + a4, a5, wp);
    lemma_at_concat(a1 + a2 + a3 + a4 + a5, a6, wp);
    lemma_at_concat(a1 + a2 + a3 + a4 + a5 + a6, dd, wp);
}

proof fn lemma_mode_not_walking(est: Option<TimeEstimate>, mode: Seq<char>)
    requires
        mode.len() != "walking"@.len(),
    ensures
        none_at(travel_issues(est, mode), "travel_time.walking"@),
{
    reveal_strlit("travel_time.walking");
    reveal_strlit("travel_time.");
    reveal_strlit("walking");
    assert(("travel_time."@ + mode).len() != "travel_time.walking"@.len());
    match est {
        Some(q) => lemma_min_max_path("travel_time."@ + mode, q.min_hours, q.max_hours, "travel time"@, "travel_time.walking"@),
        None => {},
    }
}

proof fn lemma_travel_time_walking(t: crate::world_model::TravelTime)
    ensures
        some_at(travel_time_issues(Some(t)), "travel_time.walking"@) <==> some_at(
            travel_issues(t.walking, "walking"@),
            "travel_time.walking"@,
        ),
        travel_issues(t.walking, "walking"@).len() > 0 ==> travel_time_issues(Some(t))[0] == travel_issues(
            t.walking,
            "walking"@,
        )[0],
{
    let wp = "travel_time.walking"@;
    reveal_strlit("walking");
    reveal_strlit("horse");
    reveal_strlit("carriage");
    reveal_strlit("boat");
    reveal_strlit("flying");
    reveal_strlit("teleport");
    lemma_mode_not_walking(t.horse, "horse"@);
    lemma_mode_not_walking(t.carriage, "carriage"@);
    lemma_mode_not_walking(t.boat, "boat"@);
    lemma_mode_not_walking(t.flying, "flying"@);
    lemma_mode_not_walking(t.teleport, "teleport"@);
    let tw = travel_issues(t.walking, "walking"@);
    let th = travel_issues(t.horse, "horse"@);
    let tc = travel_issues(t.carriage, "carriage"@);
    let tb = travel_issues(t.boat, "boat"@);
    let tf = travel_issues(t.flying, "flying"@);
    let tt = travel_issues(t.teleport, "teleport"@);
    lemma_at_concat(tw, th, wp);
    lemma_at_concat(tw + th, tc, wp);
    lemma_at_concat(tw + th + tc, tb, wp);
    lemma_at_concat(tw + th + tc + tb, tf, wp);
    lemma_at_concat(tw + th + tc + tb + tf, tt, wp);
    lemma_none_at_is_not_some(th, wp);
    lemma_none_at_is_not_some(tc, wp);
    lemma_none_at_is_not_some(tb, wp);
    lemma_none_at_is_not_some(tf, wp);
    lemma_none_at_is_not_some(tt, wp);
}

/// For an edge whose walking time has finite, non-negative bounds, an issue
/// is reported at `travel_time.walking` exactly when the least walking time
/// exceeds the greatest, and it is then "travel time min cannot exceed max".
pub proof fn law_edge_walking_time_order(e: LocationEdge, t: crate::world_model::TravelTime, w: TimeEstimate)
    requires
        e.travel_time == Some(t),
        t.walking == Some(w),
        is_finite(w.min_hours),
        is_finite(w.max_hours),
        !lt(w.min_hours, Real::Finite(0)),
        !lt(w.max_hours, Real::Finite(0)),
    ensures
        some_at(edge_issues(e), "travel_time.walking"@) <==> lt(w.max_hours, w.min_hours),
        lt(w.max_hours, w.min_hours) ==> edge_issues(e).contains(
            (ValidationSeverity::Error, "travel_time.walking"@, "travel time min cannot exceed max"@),
        ),
{
    let wp = "travel_time.walking"@;
    reveal_strlit("travel_time.walking");
    reveal_strlit("travel_time.");
    reveal_strlit("walking");
    assert("travel_time."@ + "walking"@ =~= wp);
    law_travel_time_order(w, "walking"@);
    lemma_head_not_walking(e);
    lemma_travel_time_walking(t);
    assert(wp[0] == 't');
    lemma_seasonal_paths(e.seasonal_modifiers@, wp);
    let x = edge_head_issues(e);
    let tt = travel_time_issues(Some(t));
    let ss = seasonal_issues(e.seasonal_modifiers@);
    assert(edge_issues(e) == x + tt + ss);
    let tw = travel_issues(t.walking, "walking"@);
    lemma_at_concat(x, tt, wp);
    lemma_at_concat(x + tt, ss, wp);
    lemma_none_at_is_not_some(x, wp);
    lemma_none_at_is_not_some(ss, wp);
    if lt(w.max_hours, w.min_hours) {
        assert(tw[0].1 == wp);
        assert(some_at(tw, wp));
        assert(edge_issues(e)[x.len() as int] == tt[0]);
    } else {
        assert(tw =~= Seq::<IssueView>::empty());
    }
}

} // verus!
