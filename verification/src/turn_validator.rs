//! The turn validator: rules on the outputs of a turn's model calls, and
//! the aggregate verdict of a turn.

use vstd::prelude::*;
use crate::text::strings_view;

verus! {

/// The turn validator.
pub struct Validator;

#[derive(Debug, Clone, Copy, PartialEq, Eq, Structural, PartialOrd, Ord)]
pub enum ValidationSeverity {
    Warning,
    Error,
    Critical,
}

/// A broken rule.
#[derive(Debug, Clone)]
pub struct ValidationIssue {
    pub rule: String,
    pub severity: ValidationSeverity,
    pub description: String,
    pub field_path: Option<String>,
}

/// The issues of a turn, by model call, and the verdict.
#[derive(Debug, Clone)]
pub struct TurnValidationResult {
    pub extractor_issues: Vec<ValidationIssue>,
    /// The issues of each character's cognition, by character id, each id once.
    pub cognitive_issues: Vec<(String, Vec<ValidationIssue>)>,
    pub reaction_issues: Vec<ValidationIssue>,
    pub outcome_issues: Vec<ValidationIssue>,
    pub narrative_issues: Vec<ValidationIssue>,
    /// No issue is an error or worse.
    pub passed: bool,
    /// `[rule] description` of each critical issue.
    pub critical_summary: Vec<String>,
}

/// The order of severities: warning, error, critical.
pub open spec fn severity_rank(s: ValidationSeverity) -> int {
    match s {
        ValidationSeverity::Warning => 0,
        ValidationSeverity::Error => 1,
        ValidationSeverity::Critical => 2,
    }
}

/// An issue as plain values: rule, severity, description, field path.
pub type TurnIssueView = (Seq<char>, ValidationSeverity, Seq<char>, Option<Seq<char>>);

pub open spec fn issue_view(i: ValidationIssue) -> TurnIssueView {
    (
        i.rule@,
        i.severity,
        i.description@,
        match i.field_path {
            Some(p) => Some(p@),
            None => None,
        },
    )
}

pub open spec fn issues_view(s: Seq<ValidationIssue>) -> Seq<TurnIssueView> {
    s.map_values(|i: ValidationIssue| issue_view(i))
}

/// The issues of each character, in order, as plain values.
pub open spec fn cognitive_view(s: Seq<(String, Vec<ValidationIssue>)>) -> Seq<(Seq<char>, Seq<TurnIssueView>)> {
    s.map_values(|e: (String, Vec<ValidationIssue>)| (e.0@, issues_view(e.1@)))
}

pub open spec fn flatten(s: Seq<(Seq<char>, Seq<TurnIssueView>)>) -> Seq<TurnIssueView>
    decreases s.len(),
{
    if s.len() == 0 {
        Seq::empty()
    } else {
        flatten(s.drop_last()) + s.last().1
    }
}

/// All issues of a turn: extraction, cognition by character, reactions,
/// outcome, narration.
pub open spec fn all_issue_views(r: TurnValidationResult) -> Seq<TurnIssueView> {
    issues_view(r.extractor_issues@) + flatten(cognitive_view(r.cognitive_issues@)) + issues_view(
        r.reaction_issues@,
    ) + issues_view(r.outcome_issues@) + issues_view(r.narrative_issues@)
}

/// Some issue is an error or worse.
pub open spec fn has_blocking(s: Seq<TurnIssueView>) -> bool {
    exists|i: int| 0 <= i < s.len() && severity_rank(#[trigger] s[i].1) >= 1
}

/// `[rule] description` of each critical issue, in order.
pub open spec fn critical_lines(s: Seq<TurnIssueView>) -> Seq<Seq<char>>
    decreases s.len(),
{
    if s.len() == 0 {
        Seq::empty()
    } else {
        critical_lines(s.drop_last()) + if s.last().1 == ValidationSeverity::Critical {
            seq!["["@ + s.last().0 + "] "@ + s.last().2]
        } else {
            Seq::empty()
        }
    }
}

/// The number of issues of severity `sev`.
pub open spec fn count_severity(s: Seq<TurnIssueView>, sev: ValidationSeverity) -> nat
    decreases s.len(),
{
    if s.len() == 0 {
        0
    } else {
        count_severity(s.drop_last(), sev) + if s.last().1 == sev {
            1nat
        } else {
            0nat
        }
    }
}

/// Each character id appears once among the cognition issues.
pub open spec fn keys_unique(s: Seq<(Seq<char>, Seq<TurnIssueView>)>) -> bool {
    forall|i: int, j: int| 0 <= i < j < s.len() ==> (#[trigger] s[i]).0 != (#[trigger] s[j]).0
}

impl TurnValidationResult {
    /// The invariant of a result: each character id appears once among the
    /// cognition issues, as in a map keyed by character. Every constructor
    /// and method keeps it.
    pub open spec fn wf(self) -> bool {
        keys_unique(cognitive_view(self.cognitive_issues@))
    }
}

/// The verdict and the summary agree with the issues.
pub open spec fn consistent(r: TurnValidationResult) -> bool {
    &&& r.passed == !has_blocking(all_issue_views(r))
    &&& strings_view(r.critical_summary@) == critical_lines(all_issue_views(r))
}

/// Index of the first entry at or after `i` with the key `k`.
pub open spec fn key_index_from(s: Seq<(Seq<char>, Seq<TurnIssueView>)>, k: Seq<char>, i: int) -> Option<int>
    decreases s.len() - i,
{
    if i < 0 || i >= s.len() {
        None
    } else if s[i].0 == k {
        Some(i)
    } else {
        key_index_from(s, k, i + 1)
    }
}

pub open spec fn key_index(s: Seq<(Seq<char>, Seq<TurnIssueView>)>, k: Seq<char>) -> Option<int> {
    key_index_from(s, k, 0)
}

/// A map insert: the value of key `k` becomes `v`, in place where `k` is
/// present, else at the end.
pub open spec fn map_insert(
    s: Seq<(Seq<char>, Seq<TurnIssueView>)>,
    k: Seq<char>,
    v: Seq<TurnIssueView>,
) -> Seq<(Seq<char>, Seq<TurnIssueView>)> {
    match key_index(s, k) {
        Some(i) => s.update(i, (k, v)),
        None => s.push((k, v)),
    }
}

proof fn lemma_flatten_push(s: Seq<(Seq<char>, Seq<TurnIssueView>)>, e: (Seq<char>, Seq<TurnIssueView>))
    ensures
        flatten(s.push(e)) == flatten(s) + e.1,
{
    assert(s.push(e).drop_last() =~= s);
}

fn issue_copy(i: &ValidationIssue) -> (r: ValidationIssue)
    ensures
        issue_view(r) == issue_view(*i),
{
    ValidationIssue {
        rule: i.rule.clone(),
        severity: i.severity,
        description: i.description.clone(),
        field_path: match &i.field_path {
            Some(p) => Some(p.clone()),
            None => None,
        },
    }
}

fn extend_issues(dst: &mut Vec<ValidationIssue>, more: Vec<ValidationIssue>)
    ensures
        issues_view(final(dst)@) == issues_view(old(dst)@) + issues_view(more@),
{
    let ghost extra = more@;
    let mut more = more;
    dst.append(&mut more);
    assert(issues_view(dst@) =~= issues_view(old(dst)@) + issues_view(extra));
}

proof fn lemma_blocking_concat(a: Seq<TurnIssueView>, b: Seq<TurnIssueView>)
    ensures
        has_blocking(a + b) == (has_blocking(a) || has_blocking(b)),
{
    let c = a + b;
    if has_blocking(a) {
        let i = choose|i: int| 0 <= i < a.len() && severity_rank(#[trigger] a[i].1) >= 1;
        assert(c[i] == a[i]);
    }
    if has_blocking(b) {
        let i = choose|i: int| 0 <= i < b.len() && severity_rank(#[trigger] b[i].1) >= 1;
        assert(c[a.len() + i] == b[i]);
    }
    if has_blocking(c) {
        let i = choose|i: int| 0 <= i < c.len() && severity_rank(#[trigger] c[i].1) >= 1;
        if i < a.len() {
            assert(c[i] == a[i]);
        } else {
            assert(c[i] == b[i - a.len()]);
        }
    }
}

proof fn lemma_critical_concat(a: Seq<TurnIssueView>, b: Seq<TurnIssueView>)
    ensures
        critical_lines(a + b) == critical_lines(a) + critical_lines(b),
    decreases b.len(),
{
    if b.len() == 0 {
        assert(a + b =~= a);
        assert(critical_lines(b) =~= Seq::<Seq<char>>::empty());
        assert(critical_lines(a) + critical_lines(b) =~= critical_lines(a));
    } else {
        assert((a + b).drop_last() =~= a + b.drop_last());
        lemma_critical_concat(a, b.drop_last());
        assert((a + b).last() == b.last());
    }
}

proof fn lemma_count_concat(a: Seq<TurnIssueView>, b: Seq<TurnIssueView>, sev: ValidationSeverity)
    ensures
        count_severity(a + b, sev) == count_severity(a, sev) + count_severity(b, sev),
    decreases b.len(),
{
    if b.len() == 0 {
        assert(a + b =~= a);
    } else {
        assert((a + b).drop_last() =~= a + b.drop_last());
        lemma_count_concat(a, b.drop_last(), sev);
        assert((a + b).last() == b.last());
    }
}

/// Scans issues: notes whether one is an error or worse, and appends the
/// summary line of each critical one.
fn scan(issues: &Vec<ValidationIssue>, blocking: &mut bool, summary: &mut Vec<String>)
    ensures
        *final(blocking) == (*old(blocking) || has_blocking(issues_view(issues@))),
        strings_view(final(summary)@) == strings_view(old(summary)@) + critical_lines(
            issues_view(issues@),
        ),
{
    let mut i: usize = 0;
    while i < issues.len()
        invariant
            i <= issues.len(),
            *blocking == (*old(blocking) || has_blocking(issues_view(issues@.take(i as int)))),
            strings_view(summary@) == strings_view(old(summary)@) + critical_lines(
                issues_view(issues@.take(i as int)),
            ),
        decreases issues.len() - i,
    {
        let ghost pre = issues_view(issues@.take(i as int));
        let ghost post = issues_view(issues@.take((i + 1) as int));
        assert(post =~= pre.push(issue_view(issues@[i as int])));
        assert(post.drop_last() =~= pre);
        proof {
            lemma_blocking_concat(pre, seq![issue_view(issues@[i as int])]);
            assert(pre + seq![issue_view(issues@[i as int])] =~= post);
            assert(seq![issue_view(issues@[i as int])][0] == issue_view(issues@[i as int]));
        }
        let issue = &issues[i];
        if issue.severity != ValidationSeverity::Warning {
            *blocking = true;
        }
        let ghost s0 = summary@;
        if issue.severity == ValidationSeverity::Critical {
            let mut line = crate::text::join_str("[", issue.rule.as_str());
            line = crate::text::join_str(line.as_str(), "] ");
            line = crate::text::join_str(line.as_str(), issue.description.as_str());
            summary.push(line);
            assert(strings_view(summary@) =~= strings_view(s0).push(line@));
        }
        i += 1;
    }
    assert(issues@.take(issues.len() as int) =~= issues@);
}

impl TurnValidationResult {
    /// A result with no issue, passed.
    pub fn new() -> (r: TurnValidationResult)
        ensures
            r.extractor_issues@.len() == 0,
            r.cognitive_issues@.len() == 0,
            r.reaction_issues@.len() == 0,
            r.outcome_issues@.len() == 0,
            r.narrative_issues@.len() == 0,
            r.passed,
            r.critical_summary@.len() == 0,
            consistent(r),
            r.wf(),
    {
        let r = TurnValidationResult {
            extractor_issues: Vec::new(),
            cognitive_issues: Vec::new(),
            reaction_issues: Vec::new(),
            outcome_issues: Vec::new(),
            narrative_issues: Vec::new(),
            passed: true,
            critical_summary: Vec::new(),
        };
        assert(cognitive_view(r.cognitive_issues@) =~= Seq::empty());
        assert(all_issue_views(r) =~= Seq::<TurnIssueView>::empty());
        assert(strings_view(r.critical_summary@) =~= Seq::<Seq<char>>::empty());
        r
    }

    /// Recomputes the verdict and the critical summary from the issues.
    fn update_passed(&mut self)
        ensures
            final(self).extractor_issues == old(self).extractor_issues,
            final(self).cognitive_issues == old(self).cognitive_issues,
            final(self).reaction_issues == old(self).reaction_issues,
            final(self).outcome_issues == old(self).outcome_issues,
            final(self).narrative_issues == old(self).narrative_issues,
            consistent(*final(self)),
    {
        let mut blocking = false;
        let mut summary: Vec<String> = Vec::new();
        scan(&self.extractor_issues, &mut blocking, &mut summary);
        assert(strings_view(summary@) =~= critical_lines(issues_view(self.extractor_issues@)));
        let ghost ext = issues_view(self.extractor_issues@);
        let ghost cog = cognitive_view(self.cognitive_issues@);
        let mut k: usize = 0;
        while k < self.cognitive_issues.len()
            invariant
                k <= self.cognitive_issues.len(),
                ext == issues_view(self.extractor_issues@),
                cog == cognitive_view(self.cognitive_issues@),
                blocking == has_blocking(ext + flatten(cog.take(k as int))),
                strings_view(summary@) == critical_lines(ext + flatten(cog.take(k as int))),
            decreases self.cognitive_issues.len() - k,
        {
            let ghost pre = ext + flatten(cog.take(k as int));
            scan(&self.cognitive_issues[k].1, &mut blocking, &mut summary);
            proof {
                assert(cog.take((k + 1) as int) =~= cog.take(k as int).push(cog[k as int]));
                lemma_flatten_push(cog.take(k as int), cog[k as int]);
                assert(ext + flatten(cog.take((k + 1) as int)) =~= pre + cog[k as int].1);
                lemma_blocking_concat(pre, cog[k as int].1);
                lemma_critical_concat(pre, cog[k as int].1);
            }
            k += 1;
        }
        assert(cog.take(cog.len() as int) =~= cog);
        let ghost p1 = ext + flatten(cog);
        scan(&self.reaction_issues, &mut blocking, &mut summary);
        proof {
            lemma_blocking_concat(p1, issues_view(self.reaction_issues@));
            lemma_critical_concat(p1, issues_view(self.reaction_issues@));
        }
        let ghost p2 = p1 + issues_view(self.reaction_issues@);
        scan(&self.outcome_issues, &mut blocking, &mut summary);
        proof {
            lemma_blocking_concat(p2, issues_view(self.outcome_issues@));
            lemma_critical_concat(p2, issues_view(self.outcome_issues@));
        }
        let ghost p3 = p2 + issues_view(self.outcome_issues@);
        scan(&self.narrative_issues, &mut blocking, &mut summary);
        proof {
            lemma_blocking_concat(p3, issues_view(self.narrative_issues@));
            lemma_critical_concat(p3, issues_view(self.narrative_issues@));
        }
        self.passed = !blocking;
        self.critical_summary = summary;
    }
}

proof fn lemma_key_index_from(s: Seq<(Seq<char>, Seq<TurnIssueView>)>, k: Seq<char>, i: int)
    requires
        0 <= i <= s.len(),
    ensures
        key_index_from(s, k, i) matches Some(j) ==> i <= j < s.len() && s[j].0 == k,
        key_index_from(s, k, i) is None ==> forall|j: int| i <= j < s.len() ==> s[j].0 != k,
    decreases s.len() - i,
{
    if i < s.len() {
        lemma_key_index_from(s, k, i + 1);
    }
}

pub open spec fn issue_refs_view(s: Seq<&ValidationIssue>) -> Seq<TurnIssueView> {
    s.map_values(|i: &ValidationIssue| issue_view(*i))
}

fn push_refs<'a>(all: &mut Vec<&'a ValidationIssue>, issues: &'a Vec<ValidationIssue>)
    ensures
        issue_refs_view(final(all)@) == issue_refs_view(old(all)@) + issues_view(issues@),
{
    let mut i: usize = 0;
    while i < issues.len()
        invariant
            i <= issues.len(),
            issue_refs_view(all@) == issue_refs_view(old(all)@) + issues_view(issues@.take(i as int)),
        decreases issues.len() - i,
    {
        let ghost before = all@;
        all.push(&issues[i]);
        assert(issue_refs_view(all@) =~= issue_refs_view(before).push(issue_view(issues@[i as int])));
        assert(issues_view(issues@.take((i + 1) as int)) =~= issues_view(issues@.take(i as int)).push(
            issue_view(issues@[i as int]),
        ));
        i += 1;
    }
    assert(issues@.take(issues.len() as int) =~= issues@);
}

impl TurnValidationResult {
    /// Adds the issues of scene extraction.
    pub fn add_extractor_issues(&mut self, issues: Vec<ValidationIssue>)
        ensures
            issues_view(final(self).extractor_issues@) == issues_view(old(self).extractor_issues@)
                + issues_view(issues@),
            final(self).cognitive_issues == old(self).cognitive_issues,
            final(self).reaction_issues == old(self).reaction_issues,
            final(self).outcome_issues == old(self).outcome_issues,
            final(self).narrative_issues == old(self).narrative_issues,
            consistent(*final(self)),
    {
        extend_issues(&mut self.extractor_issues, issues);
        self.update_passed();
    }

    /// Sets the issues of one character's cognition, replacing those it had.
    pub fn add_cognitive_issues(&mut self, character_id: String, issues: Vec<ValidationIssue>)
        ensures
            cognitive_view(final(self).cognitive_issues@) == map_insert(
                cognitive_view(old(self).cognitive_issues@),
                character_id@,
                issues_view(issues@),
            ),
            old(self).wf() ==> final(self).wf(),
            final(self).extractor_issues == old(self).extractor_issues,
            final(self).reaction_issues == old(self).reaction_issues,
            final(self).outcome_issues == old(self).outcome_issues,
            final(self).narrative_issues == old(self).narrative_issues,
            consistent(*final(self)),
    {
        let ghost cog = cognitive_view(self.cognitive_issues@);
        let ghost entry = (character_id@, issues_view(issues@));
        let mut k: usize = 0;
        while k < self.cognitive_issues.len() && !crate::text::str_eq(
            self.cognitive_issues[k].0.as_str(),
            character_id.as_str(),
        )
            invariant
                k <= self.cognitive_issues.len(),
                cog == cognitive_view(self.cognitive_issues@),
                key_index(cog, character_id@) == key_index_from(cog, character_id@, k as int),
            decreases self.cognitive_issues.len() - k,
        {
            k += 1;
        }
        proof {
            lemma_key_index_from(cog, character_id@, 0);
        }
        if k < self.cognitive_issues.len() {
            self.cognitive_issues.set(k, (character_id, issues));
            assert(cognitive_view(self.cognitive_issues@) =~= cog.update(k as int, entry));
        } else {
            self.cognitive_issues.push((character_id, issues));
            assert(cognitive_view(self.cognitive_issues@) =~= cog.push(entry));
        }
        proof {
            let new_cog = cognitive_view(self.cognitive_issues@);
            if keys_unique(cog) {
                assert forall|i: int, j: int| 0 <= i < j < new_cog.len() implies (#[trigger] new_cog[i]).0
                    != (#[trigger] new_cog[j]).0 by {
                    if k < cog.len() {
                        if i == k {
                            assert(new_cog[j] == cog[j]);
                        } else if j == k {
                            assert(new_cog[i] == cog[i]);
                        } else {
                            assert(new_cog[i] == cog[i] && new_cog[j] == cog[j]);
                        }
                    } else {
                        if j == cog.len() {
                            assert(new_cog[i] == cog[i]);
                        } else {
                            assert(new_cog[i] == cog[i] && new_cog[j] == cog[j]);
                        }
                    }
                }
            }
        }
        self.update_passed();
    }

    /// Adds the issues of reactions.
    pub fn add_reaction_issues(&mut self, issues: Vec<ValidationIssue>)
        ensures
            issues_view(final(self).reaction_issues@) == issues_view(old(self).reaction_issues@)
                + issues_view(issues@),
            final(self).extractor_issues == old(self).extractor_issues,
            final(self).cognitive_issues == old(self).cognitive_issues,
            final(self).outcome_issues == old(self).outcome_issues,
            final(self).narrative_issues == old(self).narrative_issues,
            consistent(*final(self)),
    {
        extend_issues(&mut self.reaction_issues, issues);
        self.update_passed();
    }

    /// Adds the issues of outcome planning.
    pub fn add_outcome_issues(&mut self, issues: Vec<ValidationIssue>)
        ensures
            issues_view(final(self).outcome_issues@) == issues_view(old(self).outcome_issues@)
                + issues_view(issues@),
            final(self).extractor_issues == old(self).extractor_issues,
            final(self).cognitive_issues == old(self).cognitive_issues,
            final(self).reaction_issues == old(self).reaction_issues,
            final(self).narrative_issues == old(self).narrative_issues,
            consistent(*final(self)),
    {
        extend_issues(&mut self.outcome_issues, issues);
        self.update_passed();
    }

    /// Adds the issues of narration.
    pub fn add_narrative_issues(&mut self, issues: Vec<ValidationIssue>)
        ensures
            issues_view(final(self).narrative_issues@) == issues_view(old(self).narrative_issues@)
                + issues_view(issues@),
            final(self).extractor_issues == old(self).extractor_issues,
            final(self).cognitive_issues == old(self).cognitive_issues,
            final(self).reaction_issues == old(self).reaction_issues,
            final(self).outcome_issues == old(self).outcome_issues,
            consistent(*final(self)),
    {
        extend_issues(&mut self.narrative_issues, issues);
        self.update_passed();
    }

    /// All issues, in order: extraction, cognition by character, reactions,
    /// outcome, narration.
    pub fn all_issues(&self) -> (r: Vec<&ValidationIssue>)
        ensures
            issue_refs_view(r@) == all_issue_views(*self),
    {
        let mut all: Vec<&ValidationIssue> = Vec::new();
        push_refs(&mut all, &self.extractor_issues);
        assert(issue_refs_view(all@) =~= issues_view(self.extractor_issues@));
        let ghost ext = issues_view(self.extractor_issues@);
        let ghost cog = cognitive_view(self.cognitive_issues@);
        let mut k: usize = 0;
        while k < self.cognitive_issues.len()
            invariant
                k <= self.cognitive_issues.len(),
                ext == issues_view(self.extractor_issues@),
                cog == cognitive_view(self.cognitive_issues@),
                issue_refs_view(all@) == ext + flatten(cog.take(k as int)),
            decreases self.cognitive_issues.len() - k,
        {
            push_refs(&mut all, &self.cognitive_issues[k].1);
            proof {
                assert(cog.take((k + 1) as int) =~= cog.take(k as int).push(cog[k as int]));
                lemma_flatten_push(cog.take(k as int), cog[k as int]);
            }
            assert(issue_refs_view(all@) =~= ext + flatten(cog.take((k + 1) as int)));
            k += 1;
        }
        assert(cog.take(cog.len() as int) =~= cog);
        push_refs(&mut all, &self.reaction_issues);
        push_refs(&mut all, &self.outcome_issues);
        push_refs(&mut all, &self.narrative_issues);
        assert(issue_refs_view(all@) =~= all_issue_views(*self));
        all
    }

    /// The number of issues of a severity.
    pub fn count_by_severity(&self, severity: ValidationSeverity) -> (r: usize)
        ensures
            r == count_severity(all_issue_views(*self), severity),
    {
        let all = self.all_issues();
        let ghost v = issue_refs_view(all@);
        let mut n: usize = 0;
        let mut i: usize = 0;
        while i < all.len()
            invariant
                i <= all.len(),
                v == issue_refs_view(all@),
                n == count_severity(v.take(i as int), severity),
                n <= i,
            decreases all.len() - i,
        {
            assert(v.take((i + 1) as int).drop_last() =~= v.take(i as int));
            if all[i].severity == severity {
                n += 1;
            }
            i += 1;
        }
        assert(v.take(all.len() as int) =~= v);
        n
    }
}

proof fn lemma_blocking_counts(s: Seq<TurnIssueView>)
    ensures
        has_blocking(s) <==> (count_severity(s, ValidationSeverity::Error) > 0 || count_severity(
            s,
            ValidationSeverity::Critical,
        ) > 0),
    decreases s.len(),
{
    if s.len() > 0 {
        let d = s.drop_last();
        lemma_blocking_counts(d);
        lemma_blocking_concat(d, seq![s.last()]);
        assert(d + seq![s.last()] =~= s);
        assert(seq![s.last()][0] == s.last());
        if has_blocking(seq![s.last()]) {
            let i = choose|i: int| 0 <= i < 1 && severity_rank(#[trigger] seq![s.last()][i].1) >= 1;
            assert(i == 0);
        }
    }
}

/// A turn passes exactly when it has no error and no critical issue.
pub proof fn law_passed_iff_no_errors(r: TurnValidationResult)
    requires
        consistent(r),
    ensures
        r.passed <==> (count_severity(all_issue_views(r), ValidationSeverity::Error) == 0
            && count_severity(all_issue_views(r), ValidationSeverity::Critical) == 0),
{
    lemma_blocking_counts(all_issue_views(r));
}

/// Every issue has one severity: the counts by severity add up to the
/// number of issues.
pub proof fn law_counts_add_up(r: TurnValidationResult)
    ensures
        count_severity(all_issue_views(r), ValidationSeverity::Warning) + count_severity(
            all_issue_views(r),
            ValidationSeverity::Error,
        ) + count_severity(all_issue_views(r), ValidationSeverity::Critical) == all_issue_views(
            r,
        ).len(),
{
    lemma_counts_total(all_issue_views(r));
}

proof fn lemma_counts_total(s: Seq<TurnIssueView>)
    ensures
        count_severity(s, ValidationSeverity::Warning) + count_severity(s, ValidationSeverity::Error)
            + count_severity(s, ValidationSeverity::Critical) == s.len(),
    decreases s.len(),
{
    if s.len() > 0 {
        lemma_counts_total(s.drop_last());
    }
}

} // verus!
