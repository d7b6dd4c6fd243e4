//! The rules the turn validator applies to each model call's output.

use vstd::prelude::*;
use crate::effect_model::{EntityDelta, SceneModel};
use crate::effect_validator::{entity_listed, has_entity};
use crate::quantity::{le, real_le, Real};
use crate::text::{
    chars_to_string, contains, contains_seq, decimal, extend_chars, has_prefix, is_blank, join_str,
    starts_with, str_blank, str_chars, str_eq, strings_view, sub_chars, usize_decimal,
};
use crate::turn_model::{
    AccessSource, AccessibleKnowledgeEntry, CharacterCognitivePassInput,
    CharacterCognitivePassOutput, Hypothesis, IntendedAction, OutcomePlannerInput,
    OutcomePlannerOutput, PlannerConflict, ReactionIntent, ReactionWindow,
    SceneStateExtractorInput, SceneStateExtractorOutput, SurfaceRealizerInput,
    SurfaceRealizerOutput,
};
use crate::turn_validator::{
    cognitive_view, consistent, issue_view, issues_view, keys_unique, map_insert, TurnIssueView,
    TurnValidationResult, ValidationIssue, ValidationSeverity, Validator,
};

verus! {

/// The Unicode lower case of a string (`str::to_lowercase`).
pub uninterp spec fn lowercase(s: Seq<char>) -> Seq<char>;

/// `str::to_lowercase`: the Unicode lower case of the string. The result
/// depends on the string alone; it is named `lowercase` and not stated.
#[verifier::external_body]
pub(crate) fn to_lowercase(s: &str) -> (r: String)
    ensures
        r@ == lowercase(s@),
{
    s.to_lowercase()
}

/// `haystack` contains the lower case of one of `needles`.
pub open spec fn contains_any_of(haystack: Seq<char>, needles: Seq<Seq<char>>) -> bool {
    exists|i: int| 0 <= i < needles.len() && contains(haystack, lowercase(#[trigger] needles[i]))
}

pub open spec fn strs_view(s: Seq<&str>) -> Seq<Seq<char>> {
    s.map_values(|x: &str| x@)
}

/// The number of bytes of a string in UTF-8 (`str::len`).
pub open spec fn byte_len(s: Seq<char>) -> int {
    (vstd::utf8::encode_utf8(s).len() as usize) as int
}

pub open spec fn make_issue(
    rule: Seq<char>,
    sev: ValidationSeverity,
    desc: Seq<char>,
    path: Option<Seq<char>>,
) -> TurnIssueView {
    (rule, sev, desc, path)
}

pub open spec fn one_if(c: bool, i: TurnIssueView) -> Seq<TurnIssueView> {
    if c {
        seq![i]
    } else {
        Seq::empty()
    }
}

pub open spec fn dec(i: int) -> Seq<char> {
    decimal(i as nat)
}

// ---------------------------------------------------------------------------
// The text of a cognitive output
// ---------------------------------------------------------------------------

pub open spec fn action_parts(s: Seq<IntendedAction>) -> Seq<Seq<char>>
    decreases s.len(),
{
    if s.len() == 0 {
        Seq::empty()
    } else {
        action_parts(s.drop_last()) + seq![s.last().outward_description@] + match s.last().spoken_text {
            Some(t) => seq![t@],
            None => Seq::empty(),
        }
    }
}

/// The texts of a cognitive output, in order.
pub open spec fn text_parts(o: CharacterCognitivePassOutput) -> Seq<Seq<char>> {
    strings_view(o.perception_delta.new_observations@) + strings_view(
        o.perception_delta.updated_perceptions@,
    ) + strings_view(o.perception_delta.missed_observations@) + o.belief_update.new_hypotheses@.map_values(
        |h: Hypothesis| h.proposition@,
    ) + strings_view(o.belief_update.decision_relevant_beliefs@) + seq![o.intent_plan.rationale@]
        + action_parts(o.intent_plan.intended_actions@) + match o.body_reaction_delta {
        Some(b) => seq![b.outward_signal@],
        None => Seq::empty(),
    }
}

/// `parts.join("\n")`.
pub open spec fn join_lines(parts: Seq<Seq<char>>) -> Seq<char>
    decreases parts.len(),
{
    if parts.len() == 0 {
        Seq::empty()
    } else if parts.len() == 1 {
        parts[0]
    } else {
        join_lines(parts.drop_last()) + "\n"@ + parts.last()
    }
}

/// The text of a cognitive output, lower case.
pub open spec fn output_text_of(o: CharacterCognitivePassOutput) -> Seq<char> {
    lowercase(join_lines(text_parts(o)))
}

fn push_strings(parts: &mut Vec<String>, s: &Vec<String>)
    ensures
        strings_view(final(parts)@) == strings_view(old(parts)@) + strings_view(s@),
{
    let mut i: usize = 0;
    while i < s.len()
        invariant
            i <= s.len(),
            strings_view(parts@) == strings_view(old(parts)@) + strings_view(s@.take(i as int)),
        decreases s.len() - i,
    {
        let ghost before = parts@;
        parts.push(s[i].clone());
        assert(strings_view(parts@) =~= strings_view(before).push(s@[i as int]@));
        assert(strings_view(s@.take((i + 1) as int)) =~= strings_view(s@.take(i as int)).push(
            s@[i as int]@,
        ));
        i += 1;
    }
    assert(s@.take(s.len() as int) =~= s@);
}

fn join_with_newlines(parts: &Vec<String>) -> (r: String)
    ensures
        r@ == join_lines(strings_view(parts@)),
{
    let mut out: Vec<char> = Vec::new();
    let mut i: usize = 0;
    while i < parts.len()
        invariant
            i <= parts.len(),
            out@ == join_lines(strings_view(parts@.take(i as int))),
        decreases parts.len() - i,
    {
        let ghost before = out@;
        assert(strings_view(parts@.take((i + 1) as int)).drop_last() =~= strings_view(
            parts@.take(i as int),
        ));
        if i > 0 {
            out.push('\n');
        }
        let p = str_chars(parts[i].as_str());
        extend_chars(&mut out, &p);
        proof {
            reveal_strlit("\n");
            let t = strings_view(parts@.take((i + 1) as int));
            if i == 0 {
                assert(t.len() == 1);
                assert(out@ =~= t[0]);
            } else {
                assert(out@ =~= before + "\n"@ + t.last());
            }
        }
        i += 1;
    }
    assert(parts@.take(parts.len() as int) =~= parts@);
    chars_to_string(&out)
}

impl Validator {
    /// The texts of a cognitive output joined by line breaks, lower case.
    pub fn output_text(output: &CharacterCognitivePassOutput) -> (r: String)
        ensures
            r@ == output_text_of(*output),
    {
        let mut parts: Vec<String> = Vec::new();
        push_strings(&mut parts, &output.perception_delta.new_observations);
        push_strings(&mut parts, &output.perception_delta.updated_perceptions);
        push_strings(&mut parts, &output.perception_delta.missed_observations);
        let hs = &output.belief_update.new_hypotheses;
        let ghost p0 = strings_view(parts@);
        let mut i: usize = 0;
        while i < hs.len()
            invariant
                i <= hs.len(),
                hs@ == output.belief_update.new_hypotheses@,
                strings_view(parts@) == p0 + hs@.take(i as int).map_values(
                    |h: Hypothesis| h.proposition@,
                ),
            decreases hs.len() - i,
        {
            let ghost before = parts@;
            parts.push(hs[i].proposition.clone());
            assert(strings_view(parts@) =~= strings_view(before).push(hs@[i as int].proposition@));
            assert(hs@.take((i + 1) as int).map_values(|h: Hypothesis| h.proposition@)
                =~= hs@.take(i as int).map_values(|h: Hypothesis| h.proposition@).push(
                hs@[i as int].proposition@,
            ));
            i += 1;
        }
        assert(hs@.take(hs.len() as int) =~= hs@);
        push_strings(&mut parts, &output.belief_update.decision_relevant_beliefs);
        let ghost before_rationale = parts@;
        parts.push(output.intent_plan.rationale.clone());
        assert(strings_view(parts@) =~= strings_view(before_rationale).push(
            output.intent_plan.rationale@,
        ));
        let acts = &output.intent_plan.intended_actions;
        let ghost p1 = strings_view(parts@);
        let mut i: usize = 0;
        while i < acts.len()
            invariant
                i <= acts.len(),
                acts@ == output.intent_plan.intended_actions@,
                strings_view(parts@) == p1 + action_parts(acts@.take(i as int)),
            decreases acts.len() - i,
        {
            let ghost before = parts@;
            assert(acts@.take((i + 1) as int).drop_last() =~= acts@.take(i as int));
            parts.push(acts[i].outward_description.clone());
            match &acts[i].spoken_text {
                Some(t) => {
                    parts.push(t.clone());
                    assert(strings_view(parts@) =~= strings_view(before) + seq![
                        acts@[i as int].outward_description@,
                    ] + seq![t@]);
                },
                None => {
                    assert(strings_view(parts@) =~= strings_view(before) + seq![
                        acts@[i as int].outward_description@,
                    ] + Seq::<Seq<char>>::empty());
                },
            }
            i += 1;
        }
        assert(acts@.take(acts.len() as int) =~= acts@);
        let ghost before_signal = parts@;
        match &output.body_reaction_delta {
            Some(b) => {
                parts.push(b.outward_signal.clone());
                assert(strings_view(parts@) =~= strings_view(before_signal) + seq![b.outward_signal@]);
            },
            None => {
                assert(strings_view(parts@) =~= strings_view(before_signal) + Seq::<Seq<char>>::empty());
            },
        }
        assert(strings_view(parts@) =~= text_parts(*output));
        let joined = join_with_newlines(&parts);
        to_lowercase(joined.as_str())
    }

    /// The haystack contains the lower case of one of the needles.
    pub fn contains_any(haystack: &str, needles: &[&str]) -> (r: bool)
        ensures
            r == contains_any_of(haystack@, strs_view(needles@)),
    {
        let h = str_chars(haystack);
        let mut i: usize = 0;
        while i < needles.len()
            invariant
                i <= needles.len(),
                h@ == haystack@,
                forall|j: int| 0 <= j < i ==> !contains(haystack@, lowercase(#[trigger] strs_view(needles@)[j])),
            decreases needles.len() - i,
        {
            let n = to_lowercase(needles[i]);
            let nc = str_chars(n.as_str());
            if contains_seq(&h, &nc) {
                assert(strs_view(needles@)[i as int] == needles@[i as int]@);
                return true;
            }
            i += 1;
        }
        false
    }

    fn issue(rule: &str, severity: ValidationSeverity, description: String, field_path: Option<String>) -> (r:
        ValidationIssue)
        ensures
            issue_view(r) == make_issue(
                rule@,
                severity,
                description@,
                match field_path {
                    Some(p) => Some(p@),
                    None => None,
                },
            ),
    {
        ValidationIssue { rule: rule.to_owned(), severity, description, field_path }
    }
}

fn quoted(pre: &str, mid: &str, post: &str) -> (r: String)
    ensures
        r@ == pre@ + mid@ + post@,
{
    let a = join_str(pre, mid);
    join_str(a.as_str(), post)
}

fn numbered(pre: &str, n: usize, post: &str) -> (r: String)
    ensures
        r@ == pre@ + dec(n as int) + post@,
{
    let mut v = str_chars(pre);
    let d = usize_decimal(n);
    extend_chars(&mut v, &d);
    let p = str_chars(post);
    extend_chars(&mut v, &p);
    chars_to_string(&v)
}

fn push_if(issues: &mut Vec<ValidationIssue>, c: bool, i: ValidationIssue)
    ensures
        issues_view(final(issues)@) == issues_view(old(issues)@) + one_if(c, issue_view(i)),
{
    if c {
        issues.push(i);
        assert(issues_view(issues@) =~= issues_view(old(issues)@) + seq![issue_view(i)]);
    } else {
        assert(issues_view(issues@) =~= issues_view(old(issues)@) + Seq::<TurnIssueView>::empty());
    }
}

fn extend(dst: &mut Vec<ValidationIssue>, more: Vec<ValidationIssue>)
    ensures
        issues_view(final(dst)@) == issues_view(old(dst)@) + issues_view(more@),
{
    let ghost extra = more@;
    let mut more = more;
    dst.append(&mut more);
    assert(issues_view(dst@) =~= issues_view(old(dst)@) + issues_view(extra));
}

// ---------------------------------------------------------------------------
// Scene extraction
// ---------------------------------------------------------------------------

pub open spec fn unknown_entity_issues(ds: Seq<EntityDelta>, scene: SceneModel) -> Seq<TurnIssueView>
    decreases ds.len(),
{
    if ds.len() == 0 {
        Seq::empty()
    } else {
        let d = ds.last();
        unknown_entity_issues(ds.drop_last(), scene) + one_if(
            !has_entity(scene, d.entity_id@) && d.delta_kind@ != "add"@,
            make_issue(
                "invalid_entity_ref"@,
                ValidationSeverity::Error,
                "entity_delta references unknown entity '"@ + d.entity_id@ + "'"@,
                Some("scene_update.scene_delta.entity_deltas["@ + d.entity_id@ + "]"@),
            ),
        )
    }
}

pub open spec fn extractor_issues_of(o: SceneStateExtractorOutput, inp: SceneStateExtractorInput) -> Seq<TurnIssueView> {
    one_if(
        o.scene_update is None && o.provisional_truth_candidates@.len() == 0,
        make_issue(
            "empty_extraction"@,
            ValidationSeverity::Warning,
            "SceneStateExtractor produced no scene update or provisional truths"@,
            None,
        ),
    ) + match o.scene_update {
        Some(u) => unknown_entity_issues(u.scene_delta.entity_deltas@, inp.current_scene),
        None => Seq::empty(),
    }
}

impl Validator {
    /// Validates the output of scene extraction: it should update the scene
    /// or propose truths, and its entity deltas must name known entities
    /// unless they add one.
    pub fn validate_extractor(output: &SceneStateExtractorOutput, input: &SceneStateExtractorInput) -> (r: Vec<
        ValidationIssue,
    >)
        ensures
            issues_view(r@) == extractor_issues_of(*output, *input),
    {
        let mut issues: Vec<ValidationIssue> = Vec::new();
        push_if(
            &mut issues,
            output.scene_update.is_none() && output.provisional_truth_candidates.len() == 0,
            Self::issue(
                "empty_extraction",
                ValidationSeverity::Warning,
                "SceneStateExtractor produced no scene update or provisional truths".to_owned(),
                None,
            ),
        );
        let ghost i0 = issues_view(issues@);
        match &output.scene_update {
            Some(u) => {
                let ds = &u.scene_delta.entity_deltas;
                let mut i: usize = 0;
                while i < ds.len()
                    invariant
                        i <= ds.len(),
                        ds@ == u.scene_delta.entity_deltas@,
                        issues_view(issues@) == i0 + unknown_entity_issues(
                            ds@.take(i as int),
                            input.current_scene,
                        ),
                    decreases ds.len() - i,
                {
                    assert(ds@.take((i + 1) as int).drop_last() =~= ds@.take(i as int));
                    let d = &ds[i];
                    let unknown = !entity_listed(&input.current_scene, d.entity_id.as_str())
                        && !str_eq(d.delta_kind.as_str(), "add");
                    push_if(
                        &mut issues,
                        unknown,
                        Self::issue(
                            "invalid_entity_ref",
                            ValidationSeverity::Error,
                            quoted("entity_delta references unknown entity '", d.entity_id.as_str(), "'"),
                            Some(
                                quoted(
                                    "scene_update.scene_delta.entity_deltas[",
                                    d.entity_id.as_str(),
                                    "]",
                                ),
                            ),
                        ),
                    );
                    i += 1;
                }
                assert(ds@.take(ds.len() as int) =~= ds@);
            },
            None => {
                assert(issues_view(issues@) =~= i0 + Seq::<TurnIssueView>::empty());
            },
        }
        issues
    }
}

// ---------------------------------------------------------------------------
// Reactions, outcome, narration
// ---------------------------------------------------------------------------

pub open spec fn reactor_index_from(w: ReactionWindow, id: Seq<char>, i: int) -> Option<int>
    decreases w.eligible_reactors@.len() - i,
{
    if i < 0 || i >= w.eligible_reactors@.len() {
        None
    } else if w.eligible_reactors@[i].character_id@ == id {
        Some(i)
    } else {
        reactor_index_from(w, id, i + 1)
    }
}

/// The reactor is offered the option `id`.
pub open spec fn offers_option(r: crate::turn_model::ReactorEligibility, id: Seq<char>) -> bool {
    exists|o: int|
        0 <= o < r.available_reaction_options@.len()
            && (#[trigger] r.available_reaction_options@[o]).option_id@ == id
}

pub open spec fn reaction_issues_of(intent: ReactionIntent, w: ReactionWindow) -> Seq<TurnIssueView> {
    let k = reactor_index_from(w, intent.character_id@, 0);
    one_if(
        k is None,
        make_issue(
            "reaction_eligibility"@,
            ValidationSeverity::Error,
            "character '"@ + intent.character_id@ + "' is not eligible to react in this window"@,
            Some("character_id"@),
        ),
    ) + match k {
        Some(j) => one_if(
            !offers_option(w.eligible_reactors@[j], intent.chosen_option_id@),
            make_issue(
                "invalid_reaction_option"@,
                ValidationSeverity::Error,
                "chosen option '"@ + intent.chosen_option_id@ + "' is not available"@,
                Some("chosen_option_id"@),
            ),
        ),
        None => Seq::empty(),
    }
}

pub open spec fn conflict_issues(cs: Seq<PlannerConflict>) -> Seq<TurnIssueView>
    decreases cs.len(),
{
    if cs.len() == 0 {
        Seq::empty()
    } else {
        let i = cs.len() - 1;
        conflict_issues(cs.drop_last()) + seq![
            make_issue(
                "outcome_conflict"@,
                ValidationSeverity::Warning,
                "conflict report "@ + dec(i) + ": "@ + cs.last().summary_json@,
                Some("conflict_reports["@ + dec(i) + "]"@),
            ),
        ]
    }
}

pub open spec fn outcome_issues_of(o: OutcomePlannerOutput) -> Seq<TurnIssueView> {
    one_if(
        o.outcome_plan.outward_actions@.len() == 0,
        make_issue(
            "no_outward_actions"@,
            ValidationSeverity::Warning,
            "OutcomePlanner produced no outward actions"@,
            None,
        ),
    ) + conflict_issues(o.conflict_reports@) + one_if(
        o.outcome_plan.narratable_facts@.len() == 0,
        make_issue(
            "no_narratable_facts"@,
            ValidationSeverity::Warning,
            "OutcomePlanner produced no narratable facts"@,
            None,
        ),
    )
}

pub open spec fn narrative_issues_of(o: SurfaceRealizerOutput) -> Seq<TurnIssueView> {
    let t = o.narrative_text@;
    one_if(
        is_blank(t),
        make_issue(
            "empty_narrative"@,
            ValidationSeverity::Error,
            "SurfaceRealizer produced empty narrative text"@,
            Some("narrative_text"@),
        ),
    ) + one_if(
        byte_len(t) > 10000,
        make_issue(
            "long_narrative"@,
            ValidationSeverity::Warning,
            "narrative is very long ("@ + dec(byte_len(t)) + " chars)"@,
            Some("narrative_text"@),
        ),
    ) + one_if(
        contains(t, "{{"@) || contains(t, "}}"@),
        make_issue(
            "unresolved_placeholders"@,
            ValidationSeverity::Warning,
            "narrative contains unresolved template placeholders"@,
            Some("narrative_text"@),
        ),
    )
}

impl Validator {
    /// Validates a reaction: the character must be eligible in the window,
    /// and the chosen option one the window offers it.
    pub fn validate_reaction(intent: &ReactionIntent, window: &ReactionWindow) -> (r: Vec<ValidationIssue>)
        ensures
            issues_view(r@) == reaction_issues_of(*intent, *window),
    {
        let rs = &window.eligible_reactors;
        let mut k: usize = 0;
        while k < rs.len() && !str_eq(rs[k].character_id.as_str(), intent.character_id.as_str())
            invariant
                k <= rs.len(),
                rs@ == window.eligible_reactors@,
                reactor_index_from(*window, intent.character_id@, 0) == reactor_index_from(
                    *window,
                    intent.character_id@,
                    k as int,
                ),
            decreases rs.len() - k,
        {
            k += 1;
        }
        assert(k < rs.len() ==> reactor_index_from(*window, intent.character_id@, 0) == Some(k as int));
        assert(k == rs.len() ==> reactor_index_from(*window, intent.character_id@, 0) is None);
        let mut issues: Vec<ValidationIssue> = Vec::new();
        assert(issues_view(issues@) =~= Seq::<TurnIssueView>::empty());
        push_if(
            &mut issues,
            k == rs.len(),
            Self::issue(
                "reaction_eligibility",
                ValidationSeverity::Error,
                quoted(
                    "character '",
                    intent.character_id.as_str(),
                    "' is not eligible to react in this window",
                ),
                Some("character_id".to_owned()),
            ),
        );
        if k < rs.len() {
            let opts = &rs[k].available_reaction_options;
            let mut j: usize = 0;
            let mut found = false;
            while j < opts.len()
                invariant
                    j <= opts.len(),
                    k < rs.len(),
                    rs@ == window.eligible_reactors@,
                    opts@ == rs@[k as int].available_reaction_options@,
                    found == exists|o: int|
                        0 <= o < j && (#[trigger] opts@[o]).option_id@ == intent.chosen_option_id@,
                decreases opts.len() - j,
            {
                if str_eq(opts[j].option_id.as_str(), intent.chosen_option_id.as_str()) {
                    found = true;
                }
                j += 1;
            }
            assert(found == offers_option(window.eligible_reactors@[k as int], intent.chosen_option_id@));
            push_if(
                &mut issues,
                !found,
                Self::issue(
                    "invalid_reaction_option",
                    ValidationSeverity::Error,
                    quoted("chosen option '", intent.chosen_option_id.as_str(), "' is not available"),
                    Some("chosen_option_id".to_owned()),
                ),
            );
            assert(issues_view(issues@) =~= reaction_issues_of(*intent, *window));
        } else {
            assert(issues_view(issues@) =~= reaction_issues_of(*intent, *window));
        }
        assert(reaction_issues_of(*intent, *window) =~= issues_view(issues@));
        issues
    }

    /// Validates an outcome plan: it should have outward actions and
    /// narratable facts, and each conflict it reports is noted.
    pub fn validate_outcome(output: &OutcomePlannerOutput, _input: &OutcomePlannerInput) -> (r: Vec<
        ValidationIssue,
    >)
        ensures
            issues_view(r@) == outcome_issues_of(*output),
    {
        let mut issues: Vec<ValidationIssue> = Vec::new();
        push_if(
            &mut issues,
            output.outcome_plan.outward_actions.len() == 0,
            Self::issue(
                "no_outward_actions",
                ValidationSeverity::Warning,
                "OutcomePlanner produced no outward actions".to_owned(),
                None,
            ),
        );
        let ghost i0 = issues_view(issues@);
        let cs = &output.conflict_reports;
        let mut i: usize = 0;
        while i < cs.len()
            invariant
                i <= cs.len(),
                cs@ == output.conflict_reports@,
                issues_view(issues@) == i0 + conflict_issues(cs@.take(i as int)),
            decreases cs.len() - i,
        {
            assert(cs@.take((i + 1) as int).drop_last() =~= cs@.take(i as int));
            let head = numbered("conflict report ", i, ": ");
            let issue = Self::issue(
                "outcome_conflict",
                ValidationSeverity::Warning,
                join_str(head.as_str(), cs[i].summary_json.as_str()),
                Some(numbered("conflict_reports[", i, "]")),
            );
            let ghost before = issues_view(issues@);
            issues.push(issue);
            assert(issues_view(issues@) =~= before + seq![issue_view(issue)]);
            i += 1;
        }
        assert(cs@.take(cs.len() as int) =~= cs@);
        push_if(
            &mut issues,
            output.outcome_plan.narratable_facts.len() == 0,
            Self::issue(
                "no_narratable_facts",
                ValidationSeverity::Warning,
                "OutcomePlanner produced no narratable facts".to_owned(),
                None,
            ),
        );
        issues
    }

    /// Validates a narration: it must not be blank, should not be very long
    /// (over ten thousand bytes), and should leave no template placeholder.
    pub fn validate_narrative(output: &SurfaceRealizerOutput, _input: &SurfaceRealizerInput) -> (r: Vec<
        ValidationIssue,
    >)
        ensures
            issues_view(r@) == narrative_issues_of(*output),
    {
        let text = output.narrative_text.as_str();
        let mut issues: Vec<ValidationIssue> = Vec::new();
        push_if(
            &mut issues,
            str_blank(text),
            Self::issue(
                "empty_narrative",
                ValidationSeverity::Error,
                "SurfaceRealizer produced empty narrative text".to_owned(),
                Some("narrative_text".to_owned()),
            ),
        );
        let n = text.len();
        push_if(
            &mut issues,
            n > 10000,
            Self::issue(
                "long_narrative",
                ValidationSeverity::Warning,
                numbered("narrative is very long (", n, " chars)"),
                Some("narrative_text".to_owned()),
            ),
        );
        assert(n == byte_len(output.narrative_text@));
        let chars = str_chars(text);
        let open = str_chars("{{");
        let close = str_chars("}}");
        push_if(
            &mut issues,
            contains_seq(&chars, &open) || contains_seq(&chars, &close),
            Self::issue(
                "unresolved_placeholders",
                ValidationSeverity::Warning,
                "narrative contains unresolved template placeholders".to_owned(),
                Some("narrative_text".to_owned()),
            ),
        );
        issues
    }
}

// ---------------------------------------------------------------------------
// Cognition
// ---------------------------------------------------------------------------

/// The character can observe the entity: it is in view, or it is the
/// character.
pub open spec fn entity_visible(inp: CharacterCognitivePassInput, id: Seq<char>) -> bool {
    (exists|i: int|
        0 <= i < inp.filtered_scene_view.observable_entities@.len()
            && #[trigger] inp.filtered_scene_view.observable_entities@[i].entity_id@ == id)
        || inp.character_id@ == id
}

/// The character may know the entry.
pub open spec fn knowledge_visible(inp: CharacterCognitivePassInput, id: Seq<char>) -> bool {
    exists|i: int|
        0 <= i < inp.accessible_knowledge.entries@.len()
            && #[trigger] inp.accessible_knowledge.entries@[i].knowledge_id@ == id
}

/// The character may cite the reference: an accessible entry or a recent event.
pub open spec fn ref_visible(inp: CharacterCognitivePassInput, id: Seq<char>) -> bool {
    knowledge_visible(inp, id) || exists|i: int|
        0 <= i < inp.recent_event_delta@.len() && #[trigger] inp.recent_event_delta@[i].event_id@ == id
}

pub open spec fn intent_ref_issues(refs: Seq<String>, inp: CharacterCognitivePassInput) -> Seq<TurnIssueView>
    decreases refs.len(),
{
    if refs.len() == 0 {
        Seq::empty()
    } else {
        let t = refs.last()@;
        intent_ref_issues(refs.drop_last(), inp) + one_if(
            !entity_visible(inp, t),
            make_issue(
                "omniscience_leakage"@,
                ValidationSeverity::Error,
                "intent target_ref '"@ + t + "' is not observable"@,
                Some("intent_plan.target_refs["@ + dec(refs.len() - 1) + "]"@),
            ),
        )
    }
}

pub open spec fn action_ref_issues(refs: Seq<String>, a: int, inp: CharacterCognitivePassInput) -> Seq<TurnIssueView>
    decreases refs.len(),
{
    if refs.len() == 0 {
        Seq::empty()
    } else {
        let t = refs.last()@;
        action_ref_issues(refs.drop_last(), a, inp) + one_if(
            !entity_visible(inp, t),
            make_issue(
                "omniscience_leakage"@,
                ValidationSeverity::Error,
                "action target_ref '"@ + t + "' is not observable"@,
                Some(
                    "intent_plan.intended_actions["@ + dec(a) + "].target_refs["@ + dec(refs.len() - 1)
                        + "]"@,
                ),
            ),
        )
    }
}

pub open spec fn actions_ref_issues(acts: Seq<IntendedAction>, inp: CharacterCognitivePassInput) -> Seq<TurnIssueView>
    decreases acts.len(),
{
    if acts.len() == 0 {
        Seq::empty()
    } else {
        actions_ref_issues(acts.drop_last(), inp) + action_ref_issues(
            acts.last().target_refs@,
            acts.len() - 1,
            inp,
        )
    }
}

pub open spec fn evidence_issues(refs: Seq<String>, h: int, inp: CharacterCognitivePassInput) -> Seq<TurnIssueView>
    decreases refs.len(),
{
    if refs.len() == 0 {
        Seq::empty()
    } else {
        let e = refs.last()@;
        evidence_issues(refs.drop_last(), h, inp) + one_if(
            !ref_visible(inp, e),
            make_issue(
                "omniscience_leakage"@,
                ValidationSeverity::Warning,
                "evidence_ref '"@ + e + "' is not in accessible knowledge or recent events"@,
                Some(
                    "belief_update.new_hypotheses["@ + dec(h) + "].evidence_refs["@ + dec(
                        refs.len() - 1,
                    ) + "]"@,
                ),
            ),
        )
    }
}

pub open spec fn hypotheses_issues(hs: Seq<Hypothesis>, inp: CharacterCognitivePassInput) -> Seq<TurnIssueView>
    decreases hs.len(),
{
    if hs.len() == 0 {
        Seq::empty()
    } else {
        hypotheses_issues(hs.drop_last(), inp) + evidence_issues(hs.last().evidence_refs@, hs.len() - 1, inp)
    }
}

pub open spec fn omniscience_issues(o: CharacterCognitivePassOutput, inp: CharacterCognitivePassInput) -> Seq<TurnIssueView> {
    intent_ref_issues(o.intent_plan.target_refs@, inp) + actions_ref_issues(
        o.intent_plan.intended_actions@,
        inp,
    ) + hypotheses_issues(o.belief_update.new_hypotheses@, inp)
}

pub open spec fn vision_words() -> Seq<Seq<char>> {
    seq!["saw"@, "seen"@, "visual"@, "looked"@, "看见"@, "看到"@, "目睹"@]
}

pub open spec fn hearing_words() -> Seq<Seq<char>> {
    seq!["heard"@, "sound"@, "voice"@, "听见"@, "听到"@, "声音"@]
}

pub open spec fn smell_words() -> Seq<Seq<char>> {
    seq!["smell"@, "scent"@, "odor"@, "闻到"@, "气味"@]
}

pub open spec fn mana_words() -> Seq<Seq<char>> {
    seq!["mana"@, "aura"@, "spiritual pressure"@, "灵力"@, "法力"@, "气息"@, "威压"@]
}

/// A sense is unavailable: its availability is at most 0.05.
pub open spec fn faint(r: Real) -> bool {
    le(r, Real::Finite(50_000))
}

pub open spec fn embodiment_issues(o: CharacterCognitivePassOutput, inp: CharacterCognitivePassInput) -> Seq<TurnIssueView> {
    let t = output_text_of(o);
    let s = inp.embodiment_state.sensory_capabilities;
    one_if(
        faint(s.vision.availability) && contains_any_of(t, vision_words()),
        make_issue(
            "embodiment_ignored"@,
            ValidationSeverity::Error,
            "output describes visual perception while vision is unavailable"@,
            Some("perception_delta"@),
        ),
    ) + one_if(
        faint(s.hearing.availability) && contains_any_of(t, hearing_words()),
        make_issue(
            "embodiment_ignored"@,
            ValidationSeverity::Error,
            "output describes auditory perception while hearing is unavailable"@,
            Some("perception_delta"@),
        ),
    ) + one_if(
        faint(s.smell.availability) && contains_any_of(t, smell_words()),
        make_issue(
            "embodiment_ignored"@,
            ValidationSeverity::Error,
            "output describes olfactory perception while smell is unavailable"@,
            Some("perception_delta"@),
        ),
    )
}

pub open spec fn self_awareness_issues(o: CharacterCognitivePassOutput, inp: CharacterCognitivePassInput) -> Seq<TurnIssueView> {
    let id = inp.character_id@;
    one_if(
        o.intent_plan.character_id@ != id,
        make_issue(
            "self_awareness"@,
            ValidationSeverity::Critical,
            "intent_plan.character_id '"@ + o.intent_plan.character_id@
                + "' does not match input character_id '"@ + id + "'"@,
            Some("intent_plan.character_id"@),
        ),
    ) + match o.body_reaction_delta {
        Some(b) => one_if(
            b.character_id@ != id,
            make_issue(
                "self_awareness"@,
                ValidationSeverity::Critical,
                "body_reaction_delta.character_id '"@ + b.character_id@
                    + "' does not match input character_id '"@ + id + "'"@,
                Some("body_reaction_delta.character_id"@),
            ),
        ),
        None => Seq::empty(),
    } + one_if(
        inp.filtered_scene_view.character_id@ != id || inp.embodiment_state.character_id@ != id
            || inp.accessible_knowledge.character_id@ != id,
        make_issue(
            "self_awareness"@,
            ValidationSeverity::Critical,
            "cognitive input contains mismatched character_id across filtered scene, embodiment, or knowledge"@,
            None,
        ),
    )
}

/// `s.trim_start_matches(p)`: `s` without its leading repeats of `p`.
pub open spec fn strip_repeated_prefix(s: Seq<char>, p: Seq<char>) -> Seq<char>
    decreases s.len(),
{
    if p.len() > 0 && starts_with(s, p) {
        strip_repeated_prefix(s.skip(p.len() as int), p)
    } else {
        s
    }
}

/// A belief the character may not hold: one marked for the god's eyes
/// only, or one citing knowledge the character cannot access.
pub open spec fn belief_hidden(b: Seq<char>, inp: CharacterCognitivePassInput) -> bool {
    starts_with(b, "god_only:"@) || (starts_with(b, "knowledge:"@) && !knowledge_visible(
        inp,
        strip_repeated_prefix(b, "knowledge:"@),
    ))
}

pub open spec fn god_only_issues(bs: Seq<String>, inp: CharacterCognitivePassInput) -> Seq<TurnIssueView>
    decreases bs.len(),
{
    if bs.len() == 0 {
        Seq::empty()
    } else {
        let b = bs.last()@;
        god_only_issues(bs.drop_last(), inp) + one_if(
            belief_hidden(b, inp),
            make_issue(
                "god_only"@,
                ValidationSeverity::Error,
                "decision relevant belief '"@ + b + "' is not accessible"@,
                Some("belief_update.decision_relevant_beliefs["@ + dec(bs.len() - 1) + "]"@),
            ),
        )
    }
}

pub open spec fn mana_sense_issues(o: CharacterCognitivePassOutput, inp: CharacterCognitivePassInput) -> Seq<TurnIssueView> {
    let m = inp.embodiment_state.sensory_capabilities.mana;
    one_if(
        (faint(m.availability) || faint(m.acuity)) && (inp.filtered_scene_view.mana_signals@.len() > 0
            || contains_any_of(output_text_of(o), mana_words())),
        make_issue(
            "mana_sense"@,
            ValidationSeverity::Error,
            "output uses clear mana perception while mana sense is unavailable"@,
            Some("perception_delta"@),
        ),
    )
}

/// The output repeats the exact content of an entry the character only
/// sees the appearance of.
pub open spec fn repeats_apparent(e: AccessibleKnowledgeEntry, t: Seq<char>) -> bool {
    e.source_hint == AccessSource::ApparentFromObservation && byte_len(lowercase(e.accessible_text@))
        > 24 && contains(t, lowercase(e.accessible_text@))
}

pub open spec fn apparent_issues(es: Seq<AccessibleKnowledgeEntry>, t: Seq<char>) -> Seq<TurnIssueView>
    decreases es.len(),
{
    if es.len() == 0 {
        Seq::empty()
    } else {
        apparent_issues(es.drop_last(), t) + one_if(
            repeats_apparent(es.last(), t),
            make_issue(
                "apparent_vs_true"@,
                ValidationSeverity::Warning,
                "output appears to repeat exact hidden/apparent knowledge payload '"@
                    + es.last().knowledge_id@ + "'"@,
                Some("accessible_knowledge"@),
            ),
        )
    }
}

/// The issues of a cognitive output, rule by rule.
pub open spec fn cognitive_issues_of(o: CharacterCognitivePassOutput, inp: CharacterCognitivePassInput) -> Seq<TurnIssueView> {
    omniscience_issues(o, inp) + embodiment_issues(o, inp) + self_awareness_issues(o, inp)
        + god_only_issues(o.belief_update.decision_relevant_beliefs@, inp) + mana_sense_issues(o, inp)
        + apparent_issues(inp.accessible_knowledge.entries@, output_text_of(o))
}

fn entity_in_view(inp: &CharacterCognitivePassInput, id: &str) -> (r: bool)
    ensures
        r == entity_visible(*inp, id@),
{
    let es = &inp.filtered_scene_view.observable_entities;
    let mut i: usize = 0;
    while i < es.len()
        invariant
            i <= es.len(),
            es@ == inp.filtered_scene_view.observable_entities@,
            forall|j: int| 0 <= j < i ==> #[trigger] es@[j].entity_id@ != id@,
        decreases es.len() - i,
    {
        if str_eq(es[i].entity_id.as_str(), id) {
            return true;
        }
        i += 1;
    }
    str_eq(inp.character_id.as_str(), id)
}

fn knowledge_in_reach(inp: &CharacterCognitivePassInput, id: &str) -> (r: bool)
    ensures
        r == knowledge_visible(*inp, id@),
{
    let es = &inp.accessible_knowledge.entries;
    let mut i: usize = 0;
    while i < es.len()
        invariant
            i <= es.len(),
            es@ == inp.accessible_knowledge.entries@,
            forall|j: int| 0 <= j < i ==> #[trigger] es@[j].knowledge_id@ != id@,
        decreases es.len() - i,
    {
        if str_eq(es[i].knowledge_id.as_str(), id) {
            return true;
        }
        i += 1;
    }
    false
}

fn ref_in_reach(inp: &CharacterCognitivePassInput, id: &str) -> (r: bool)
    ensures
        r == ref_visible(*inp, id@),
{
    if knowledge_in_reach(inp, id) {
        return true;
    }
    let es = &inp.recent_event_delta;
    let mut i: usize = 0;
    while i < es.len()
        invariant
            i <= es.len(),
            es@ == inp.recent_event_delta@,
            forall|j: int| 0 <= j < i ==> #[trigger] es@[j].event_id@ != id@,
        decreases es.len() - i,
    {
        if str_eq(es[i].event_id.as_str(), id) {
            return true;
        }
        i += 1;
    }
    false
}

fn path2(a: &str, i: usize, b: &str, j: usize, c: &str) -> (r: String)
    ensures
        r@ == a@ + dec(i as int) + b@ + dec(j as int) + c@,
{
    let mut v = str_chars(a);
    let d = usize_decimal(i);
    extend_chars(&mut v, &d);
    let bv = str_chars(b);
    extend_chars(&mut v, &bv);
    let e = usize_decimal(j);
    extend_chars(&mut v, &e);
    let cv = str_chars(c);
    extend_chars(&mut v, &cv);
    chars_to_string(&v)
}

fn strip_prefix_repeated(s: &str, p: &str) -> (r: Vec<char>)
    ensures
        r@ == strip_repeated_prefix(s@, p@),
{
    let sc = str_chars(s);
    let pc = str_chars(p);
    let mut start: usize = 0;
    if pc.len() == 0 {
        return sc;
    }
    assert(sc@.skip(0) =~= sc@);
    while pc.len() <= sc.len() - start && crate::text::matches_at(&sc, &pc, start)
        invariant
            start <= sc.len(),
            pc.len() > 0,
            pc@ == p@,
            sc@ == s@,
            strip_repeated_prefix(s@, p@) == strip_repeated_prefix(sc@.skip(start as int), p@),
        decreases sc.len() - start,
    {
        assert(sc@.skip(start as int).skip(pc.len() as int) =~= sc@.skip(start + pc.len()));
        assert(starts_with(sc@.skip(start as int), p@)) by {
            assert(sc@.skip(start as int).subrange(0, pc.len() as int) =~= sc@.subrange(
                start as int,
                start + pc.len(),
            ));
        }
        start += pc.len();
    }
    proof {
        if starts_with(sc@.skip(start as int), p@) {
            assert(sc@.skip(start as int).subrange(0, pc.len() as int) =~= sc@.subrange(
                start as int,
                start + pc.len(),
            ));
        }
    }
    sub_chars(&sc, start, sc.len())
}

impl Validator {
    /// Targets and evidence the character could not observe or know.
    fn check_omniscience_leakage(output: &CharacterCognitivePassOutput, input: &CharacterCognitivePassInput) -> (r:
        Vec<ValidationIssue>)
        ensures
            issues_view(r@) == omniscience_issues(*output, *input),
    {
        let mut issues: Vec<ValidationIssue> = Vec::new();
        let refs = &output.intent_plan.target_refs;
        let mut i: usize = 0;
        while i < refs.len()
            invariant
                i <= refs.len(),
                refs@ == output.intent_plan.target_refs@,
                issues_view(issues@) == intent_ref_issues(refs@.take(i as int), *input),
            decreases refs.len() - i,
        {
            assert(refs@.take((i + 1) as int).drop_last() =~= refs@.take(i as int));
            let t = refs[i].as_str();
            push_if(
                &mut issues,
                !entity_in_view(input, t),
                Self::issue(
                    "omniscience_leakage",
                    ValidationSeverity::Error,
                    quoted("intent target_ref '", t, "' is not observable"),
                    Some(numbered("intent_plan.target_refs[", i, "]")),
                ),
            );
            i += 1;
        }
        assert(refs@.take(refs.len() as int) =~= refs@);
        let ghost p1 = issues_view(issues@);
        let acts = &output.intent_plan.intended_actions;
        let mut a: usize = 0;
        while a < acts.len()
            invariant
                a <= acts.len(),
                acts@ == output.intent_plan.intended_actions@,
                issues_view(issues@) == p1 + actions_ref_issues(acts@.take(a as int), *input),
            decreases acts.len() - a,
        {
            assert(acts@.take((a + 1) as int).drop_last() =~= acts@.take(a as int));
            let ghost p2 = issues_view(issues@);
            let trefs = &acts[a].target_refs;
            let mut j: usize = 0;
            while j < trefs.len()
                invariant
                    j <= trefs.len(),
                    a < acts.len(),
                    trefs@ == acts@[a as int].target_refs@,
                    issues_view(issues@) == p2 + action_ref_issues(trefs@.take(j as int), a as int, *input),
                decreases trefs.len() - j,
            {
                assert(trefs@.take((j + 1) as int).drop_last() =~= trefs@.take(j as int));
                let t = trefs[j].as_str();
                push_if(
                    &mut issues,
                    !entity_in_view(input, t),
                    Self::issue(
                        "omniscience_leakage",
                        ValidationSeverity::Error,
                        quoted("action target_ref '", t, "' is not observable"),
                        Some(path2("intent_plan.intended_actions[", a, "].target_refs[", j, "]")),
                    ),
                );
                j += 1;
            }
            assert(trefs@.take(trefs.len() as int) =~= trefs@);
            a += 1;
        }
        assert(acts@.take(acts.len() as int) =~= acts@);
        let ghost p3 = issues_view(issues@);
        let hs = &output.belief_update.new_hypotheses;
        let mut h: usize = 0;
        while h < hs.len()
            invariant
                h <= hs.len(),
                hs@ == output.belief_update.new_hypotheses@,
                issues_view(issues@) == p3 + hypotheses_issues(hs@.take(h as int), *input),
            decreases hs.len() - h,
        {
            assert(hs@.take((h + 1) as int).drop_last() =~= hs@.take(h as int));
            let ghost p4 = issues_view(issues@);
            let erefs = &hs[h].evidence_refs;
            let mut j: usize = 0;
            while j < erefs.len()
                invariant
                    j <= erefs.len(),
                    h < hs.len(),
                    erefs@ == hs@[h as int].evidence_refs@,
                    issues_view(issues@) == p4 + evidence_issues(erefs@.take(j as int), h as int, *input),
                decreases erefs.len() - j,
            {
                assert(erefs@.take((j + 1) as int).drop_last() =~= erefs@.take(j as int));
                let e = erefs[j].as_str();
                push_if(
                    &mut issues,
                    !ref_in_reach(input, e),
                    Self::issue(
                        "omniscience_leakage",
                        ValidationSeverity::Warning,
                        quoted(
                            "evidence_ref '",
                            e,
                            "' is not in accessible knowledge or recent events",
                        ),
                        Some(path2("belief_update.new_hypotheses[", h, "].evidence_refs[", j, "]")),
                    ),
                );
                j += 1;
            }
            assert(erefs@.take(erefs.len() as int) =~= erefs@);
            h += 1;
        }
        assert(hs@.take(hs.len() as int) =~= hs@);
        issues
    }

    /// Perceptions through senses the character lacks.
    fn check_embodiment_ignored(output: &CharacterCognitivePassOutput, input: &CharacterCognitivePassInput) -> (r:
        Vec<ValidationIssue>)
        ensures
            issues_view(r@) == embodiment_issues(*output, *input),
    {
        let text = Self::output_text(output);
        let sensory = input.embodiment_state.sensory_capabilities;
        let limit = Real::Finite(50_000);
        let vision = vec!["saw", "seen", "visual", "looked", "看见", "看到", "目睹"];
        let hearing = vec!["heard", "sound", "voice", "听见", "听到", "声音"];
        let smell = vec!["smell", "scent", "odor", "闻到", "气味"];
        assert(strs_view(vision@) =~= vision_words());
        assert(strs_view(hearing@) =~= hearing_words());
        assert(strs_view(smell@) =~= smell_words());
        let mut issues: Vec<ValidationIssue> = Vec::new();
        assert(issues_view(issues@) =~= Seq::<TurnIssueView>::empty());
        push_if(
            &mut issues,
            real_le(sensory.vision.availability, limit) && Self::contains_any(
                text.as_str(),
                vision.as_slice(),
            ),
            Self::issue(
                "embodiment_ignored",
                ValidationSeverity::Error,
                "output describes visual perception while vision is unavailable".to_owned(),
                Some("perception_delta".to_owned()),
            ),
        );
        push_if(
            &mut issues,
            real_le(sensory.hearing.availability, limit) && Self::contains_any(
                text.as_str(),
                hearing.as_slice(),
            ),
            Self::issue(
                "embodiment_ignored",
                ValidationSeverity::Error,
                "output describes auditory perception while hearing is unavailable".to_owned(),
                Some("perception_delta".to_owned()),
            ),
        );
        push_if(
            &mut issues,
            real_le(sensory.smell.availability, limit) && Self::contains_any(
                text.as_str(),
                smell.as_slice(),
            ),
            Self::issue(
                "embodiment_ignored",
                ValidationSeverity::Error,
                "output describes olfactory perception while smell is unavailable".to_owned(),
                Some("perception_delta".to_owned()),
            ),
        );
        issues
    }

    /// Identities that do not match the character.
    fn check_self_awareness(output: &CharacterCognitivePassOutput, input: &CharacterCognitivePassInput) -> (r:
        Vec<ValidationIssue>)
        ensures
            issues_view(r@) == self_awareness_issues(*output, *input),
    {
        let id = input.character_id.as_str();
        let mut issues: Vec<ValidationIssue> = Vec::new();
        assert(issues_view(issues@) =~= Seq::<TurnIssueView>::empty());
        let plan_id = output.intent_plan.character_id.as_str();
        let head = quoted("intent_plan.character_id '", plan_id, "' does not match input character_id '");
        push_if(
            &mut issues,
            !str_eq(plan_id, id),
            Self::issue(
                "self_awareness",
                ValidationSeverity::Critical,
                quoted(head.as_str(), id, "'"),
                Some("intent_plan.character_id".to_owned()),
            ),
        );
        let ghost p1 = issues_view(issues@);
        match &output.body_reaction_delta {
            Some(b) => {
                let rid = b.character_id.as_str();
                let head = quoted(
                    "body_reaction_delta.character_id '",
                    rid,
                    "' does not match input character_id '",
                );
                push_if(
                    &mut issues,
                    !str_eq(rid, id),
                    Self::issue(
                        "self_awareness",
                        ValidationSeverity::Critical,
                        quoted(head.as_str(), id, "'"),
                        Some("body_reaction_delta.character_id".to_owned()),
                    ),
                );
            },
            None => {
                assert(issues_view(issues@) =~= p1 + Seq::<TurnIssueView>::empty());
            },
        }
        push_if(
            &mut issues,
            !str_eq(input.filtered_scene_view.character_id.as_str(), id) || !str_eq(
                input.embodiment_state.character_id.as_str(),
                id,
            ) || !str_eq(input.accessible_knowledge.character_id.as_str(), id),
            Self::issue(
                "self_awareness",
                ValidationSeverity::Critical,
                "cognitive input contains mismatched character_id across filtered scene, embodiment, or knowledge".to_owned(),
                None,
            ),
        );
        issues
    }

    /// Beliefs the character may not hold.
    fn check_god_only(output: &CharacterCognitivePassOutput, input: &CharacterCognitivePassInput) -> (r: Vec<
        ValidationIssue,
    >)
        ensures
            issues_view(r@) == god_only_issues(output.belief_update.decision_relevant_beliefs@, *input),
    {
        let bs = &output.belief_update.decision_relevant_beliefs;
        let god = str_chars("god_only:");
        let know = str_chars("knowledge:");
        let mut issues: Vec<ValidationIssue> = Vec::new();
        let mut i: usize = 0;
        while i < bs.len()
            invariant
                i <= bs.len(),
                god@ == "god_only:"@,
                know@ == "knowledge:"@,
                issues_view(issues@) == god_only_issues(bs@.take(i as int), *input),
            decreases bs.len() - i,
        {
            assert(bs@.take((i + 1) as int).drop_last() =~= bs@.take(i as int));
            let b = bs[i].as_str();
            let bc = str_chars(b);
            let hidden = has_prefix(&bc, &god) || (has_prefix(&bc, &know) && {
                let rest = chars_to_string(&strip_prefix_repeated(b, "knowledge:"));
                !knowledge_in_reach(input, rest.as_str())
            });
            push_if(
                &mut issues,
                hidden,
                Self::issue(
                    "god_only",
                    ValidationSeverity::Error,
                    quoted("decision relevant belief '", b, "' is not accessible"),
                    Some(numbered("belief_update.decision_relevant_beliefs[", i, "]")),
                ),
            );
            i += 1;
        }
        assert(bs@.take(bs.len() as int) =~= bs@);
        issues
    }

    /// Clear mana perception without a mana sense.
    fn check_mana_sense(output: &CharacterCognitivePassOutput, input: &CharacterCognitivePassInput) -> (r: Vec<
        ValidationIssue,
    >)
        ensures
            issues_view(r@) == mana_sense_issues(*output, *input),
    {
        let mana = input.embodiment_state.sensory_capabilities.mana;
        let limit = Real::Finite(50_000);
        let words = vec!["mana", "aura", "spiritual pressure", "灵力", "法力", "气息", "威压"];
        assert(strs_view(words@) =~= mana_words());
        let faint_sense = real_le(mana.availability, limit) || real_le(mana.acuity, limit);
        let sensed = faint_sense && (input.filtered_scene_view.mana_signals.len() > 0 || {
            let text = Self::output_text(output);
            Self::contains_any(text.as_str(), words.as_slice())
        });
        let mut issues: Vec<ValidationIssue> = Vec::new();
        assert(issues_view(issues@) =~= Seq::<TurnIssueView>::empty());
        push_if(
            &mut issues,
            sensed,
            Self::issue(
                "mana_sense",
                ValidationSeverity::Error,
                "output uses clear mana perception while mana sense is unavailable".to_owned(),
                Some("perception_delta".to_owned()),
            ),
        );
        issues
    }

    /// Exact repeats of content the character only sees the appearance of.
    fn check_apparent_vs_true(output: &CharacterCognitivePassOutput, input: &CharacterCognitivePassInput) -> (r:
        Vec<ValidationIssue>)
        ensures
            issues_view(r@) == apparent_issues(input.accessible_knowledge.entries@, output_text_of(*output)),
    {
        let text = Self::output_text(output);
        let tc = str_chars(text.as_str());
        let es = &input.accessible_knowledge.entries;
        let mut issues: Vec<ValidationIssue> = Vec::new();
        let mut i: usize = 0;
        while i < es.len()
            invariant
                i <= es.len(),
                es@ == input.accessible_knowledge.entries@,
                tc@ == output_text_of(*output),
                issues_view(issues@) == apparent_issues(es@.take(i as int), tc@),
            decreases es.len() - i,
        {
            assert(es@.take((i + 1) as int).drop_last() =~= es@.take(i as int));
            let e = &es[i];
            let repeats = e.source_hint == AccessSource::ApparentFromObservation && {
                let true_text = to_lowercase(e.accessible_text.as_str());
                true_text.as_str().len() > 24 && contains_seq(&tc, &str_chars(true_text.as_str()))
            };
            push_if(
                &mut issues,
                repeats,
                Self::issue(
                    "apparent_vs_true",
                    ValidationSeverity::Warning,
                    quoted(
                        "output appears to repeat exact hidden/apparent knowledge payload '",
                        e.knowledge_id.as_str(),
                        "'",
                    ),
                    Some("accessible_knowledge".to_owned()),
                ),
            );
            i += 1;
        }
        assert(es@.take(es.len() as int) =~= es@);
        issues
    }

    /// Validates a character's cognition against the rules on omniscience,
    /// embodiment, self awareness, god-only knowledge, mana sense and
    /// apparent knowledge, in that order.
    pub fn validate_cognitive(output: &CharacterCognitivePassOutput, input: &CharacterCognitivePassInput) -> (r:
        Vec<ValidationIssue>)
        ensures
            issues_view(r@) == cognitive_issues_of(*output, *input),
    {
        let mut issues = Self::check_omniscience_leakage(output, input);
        extend(&mut issues, Self::check_embodiment_ignored(output, input));
        extend(&mut issues, Self::check_self_awareness(output, input));
        extend(&mut issues, Self::check_god_only(output, input));
        extend(&mut issues, Self::check_mana_sense(output, input));
        extend(&mut issues, Self::check_apparent_vs_true(output, input));
        issues
    }
}

// ---------------------------------------------------------------------------
// A whole turn
// ---------------------------------------------------------------------------

/// The cognition issues of a turn: for each character in turn, its issues
/// replace those it had.
pub open spec fn cognitive_fold(
    s: Seq<(String, (CharacterCognitivePassOutput, CharacterCognitivePassInput))>,
) -> Seq<(Seq<char>, Seq<TurnIssueView>)>
    decreases s.len(),
{
    if s.len() == 0 {
        Seq::empty()
    } else {
        map_insert(
            cognitive_fold(s.drop_last()),
            s.last().0@,
            cognitive_issues_of(s.last().1.0, s.last().1.1),
        )
    }
}

pub open spec fn reactions_fold(s: Seq<(ReactionIntent, ReactionWindow)>) -> Seq<TurnIssueView>
    decreases s.len(),
{
    if s.len() == 0 {
        Seq::empty()
    } else {
        reactions_fold(s.drop_last()) + reaction_issues_of(s.last().0, s.last().1)
    }
}

impl Validator {
    /// Validates the model calls of a turn that took place, and gathers the
    /// issues and the verdict.
    pub fn validate_turn(
        extractor_output: Option<(&SceneStateExtractorOutput, &SceneStateExtractorInput)>,
        cognitive_outputs: &Vec<(String, (CharacterCognitivePassOutput, CharacterCognitivePassInput))>,
        reaction_intents: &[(ReactionIntent, ReactionWindow)],
        outcome_output: Option<(&OutcomePlannerOutput, &OutcomePlannerInput)>,
        narrative_output: Option<(&SurfaceRealizerOutput, &SurfaceRealizerInput)>,
    ) -> (r: TurnValidationResult)
        ensures
            issues_view(r.extractor_issues@) == match extractor_output {
                Some((o, i)) => extractor_issues_of(*o, *i),
                None => Seq::empty(),
            },
            cognitive_view(r.cognitive_issues@) == cognitive_fold(cognitive_outputs@),
            r.wf(),
            issues_view(r.reaction_issues@) == reactions_fold(reaction_intents@),
            issues_view(r.outcome_issues@) == match outcome_output {
                Some((o, _)) => outcome_issues_of(*o),
                None => Seq::empty(),
            },
            issues_view(r.narrative_issues@) == match narrative_output {
                Some((o, _)) => narrative_issues_of(*o),
                None => Seq::empty(),
            },
            consistent(r),
    {
        let mut result = TurnValidationResult::new();
        assert(issues_view(result.extractor_issues@) =~= Seq::<TurnIssueView>::empty());
        match extractor_output {
            Some((output, input)) => {
                result.add_extractor_issues(Self::validate_extractor(output, input));
            },
            None => {},
        }
        let ghost ext = issues_view(result.extractor_issues@);
        assert(cognitive_view(result.cognitive_issues@) =~= Seq::empty());
        let mut k: usize = 0;
        while k < cognitive_outputs.len()
            invariant
                k <= cognitive_outputs.len(),
                issues_view(result.extractor_issues@) == ext,
                cognitive_view(result.cognitive_issues@) == cognitive_fold(
                    cognitive_outputs@.take(k as int),
                ),
                keys_unique(cognitive_view(result.cognitive_issues@)),
                result.reaction_issues@.len() == 0,
                result.outcome_issues@.len() == 0,
                result.narrative_issues@.len() == 0,
                consistent(result),
            decreases cognitive_outputs.len() - k,
        {
            assert(cognitive_outputs@.take((k + 1) as int).drop_last() =~= cognitive_outputs@.take(
                k as int,
            ));
            let entry = &cognitive_outputs[k];
            let issues = Self::validate_cognitive(&entry.1.0, &entry.1.1);
            result.add_cognitive_issues(entry.0.clone(), issues);
            k += 1;
        }
        assert(cognitive_outputs@.take(cognitive_outputs.len() as int) =~= cognitive_outputs@);
        let ghost cog = result.cognitive_issues;
        assert(issues_view(result.reaction_issues@) =~= Seq::<TurnIssueView>::empty());
        let mut i: usize = 0;
        while i < reaction_intents.len()
            invariant
                i <= reaction_intents.len(),
                issues_view(result.extractor_issues@) == ext,
                result.cognitive_issues == cog,
                issues_view(result.reaction_issues@) == reactions_fold(reaction_intents@.take(i as int)),
                result.outcome_issues@.len() == 0,
                result.narrative_issues@.len() == 0,
                consistent(result),
            decreases reaction_intents.len() - i,
        {
            assert(reaction_intents@.take((i + 1) as int).drop_last() =~= reaction_intents@.take(
                i as int,
            ));
            let pair = &reaction_intents[i];
            result.add_reaction_issues(Self::validate_reaction(&pair.0, &pair.1));
            i += 1;
        }
        assert(reaction_intents@.take(reaction_intents.len() as int) =~= reaction_intents@);
        assert(issues_view(result.outcome_issues@) =~= Seq::<TurnIssueView>::empty());
        match outcome_output {
            Some((output, input)) => {
                result.add_outcome_issues(Self::validate_outcome(output, input));
            },
            None => {},
        }
        assert(issues_view(result.narrative_issues@) =~= Seq::<TurnIssueView>::empty());
        match narrative_output {
            Some((output, input)) => {
                result.add_narrative_issues(Self::validate_narrative(output, input));
            },
            None => {},
        }
        result
    }
}

/// The auditory embodiment issue is reported exactly when the character's
/// hearing is at most 0.05 available and the output names a hearing word;
/// with hearing above 0.05 it is never reported.
pub proof fn law_auditory_embodiment(o: CharacterCognitivePassOutput, inp: CharacterCognitivePassInput)
    ensures
        embodiment_issues(o, inp).contains(
            (
                "embodiment_ignored"@,
                ValidationSeverity::Error,
                "output describes auditory perception while hearing is unavailable"@,
                Some("perception_delta"@),
            ),
        ) <==> (le(inp.embodiment_state.sensory_capabilities.hearing.availability, Real::Finite(50_000))
            && contains_any_of(output_text_of(o), hearing_words())),
{
    reveal_strlit("output describes visual perception while vision is unavailable");
    reveal_strlit("output describes auditory perception while hearing is unavailable");
    reveal_strlit("output describes olfactory perception while smell is unavailable");
    let t = output_text_of(o);
    let sc = inp.embodiment_state.sensory_capabilities;
    let vis = make_issue(
        "embodiment_ignored"@,
        ValidationSeverity::Error,
        "output describes visual perception while vision is unavailable"@,
        Some("perception_delta"@),
    );
    let aud = make_issue(
        "embodiment_ignored"@,
        ValidationSeverity::Error,
        "output describes auditory perception while hearing is unavailable"@,
        Some("perception_delta"@),
    );
    let olf = make_issue(
        "embodiment_ignored"@,
        ValidationSeverity::Error,
        "output describes olfactory perception while smell is unavailable"@,
        Some("perception_delta"@),
    );
    assert(vis.2[17] != aud.2[17]);
    assert(olf.2[17] != aud.2[17]);
    let v = one_if(faint(sc.vision.availability) && contains_any_of(t, vision_words()), vis);
    let h = one_if(faint(sc.hearing.availability) && contains_any_of(t, hearing_words()), aud);
    let m = one_if(faint(sc.smell.availability) && contains_any_of(t, smell_words()), olf);
    let e = embodiment_issues(o, inp);
    assert(e == v + h + m);
    if e.contains(aud) {
        let k = choose|k: int| 0 <= k < e.len() && e[k] == aud;
        if k < v.len() {
            assert(e[k] == v[k]);
        } else if k < v.len() + h.len() {
            assert(e[k] == h[k - v.len()]);
        } else {
            assert(e[k] == m[k - v.len() - h.len()]);
        }
    }
    if faint(sc.hearing.availability) && contains_any_of(t, hearing_words()) {
        assert(e[v.len() as int] == aud);
    }
}

} // verus!
