//! The domain model: workflows, jobs, steps, permissions and findings.

use vstd::prelude::*;

verus! {

/// A parsed workflow file.
#[derive(Debug, Clone)]
pub struct WorkflowFile {
    pub path: String,
    pub name: String,
    pub triggers: Vec<String>,
    pub jobs: Vec<Job>,
    pub global_permissions: Option<Permissions>,
}

/// One job of a workflow.
#[derive(Debug, Clone)]
pub struct Job {
    pub id: String,
    pub runs_on: String,
    pub permissions: Option<Permissions>,
    pub steps: Vec<Step>,
    pub is_reusable_call: bool,
    /// 1-based line of the job's key in the source, where it was found.
    pub line: Option<usize>,
}

/// One step of a job.
#[derive(Debug, Clone)]
pub struct Step {
    pub name: Option<String>,
    pub uses: Option<String>,
    pub run: Option<String>,
    pub env: Vec<(String, String)>,
    pub with: Vec<(String, String)>,
    /// 1-based line of the step's `-` item in the source, where it was found.
    pub line: Option<usize>,
}

/// The permission grants the analyzers look at.
#[derive(Debug, Clone)]
pub struct Permissions {
    pub contents: Option<String>,
    pub pull_requests: Option<String>,
    pub write_all: bool,
}

impl Permissions {
    /// No grant at all: the value `Permissions::default()` gives.
    pub fn empty() -> (res: Permissions)
        ensures
            res@ == (PermissionsView { contents: None, pull_requests: None, write_all: false }),
    {
        Permissions { contents: None, pull_requests: None, write_all: false }
    }
}

impl Default for Permissions {
    fn default() -> (res: Permissions)
        ensures
            res@ == (PermissionsView { contents: None, pull_requests: None, write_all: false }),
    {
        Permissions::empty()
    }
}

/// How serious a finding is.
#[derive(Debug, Clone, Copy, PartialEq, Eq, Structural)]
pub enum Severity {
    Critical,
    High,
    Medium,
    Low,
    Informational,
}

/// The numeric rank of a severity: 4 for critical down to 0 for
/// informational.
pub open spec fn severity_score(s: Severity) -> u8 {
    match s {
        Severity::Critical => 4,
        Severity::High => 3,
        Severity::Medium => 2,
        Severity::Low => 1,
        Severity::Informational => 0,
    }
}

/// The upper-case label under which a severity is displayed.
pub open spec fn severity_label(s: Severity) -> Seq<char> {
    match s {
        Severity::Critical => "CRITICAL"@,
        Severity::High => "HIGH"@,
        Severity::Medium => "MEDIUM"@,
        Severity::Low => "LOW"@,
        Severity::Informational => "INFO"@,
    }
}

impl Severity {
    /// The numeric rank of this severity (critical highest).
    pub fn score(&self) -> (res: u8)
        ensures
            res == severity_score(*self),
    {
        match self {
            Severity::Critical => 4,
            Severity::High => 3,
            Severity::Medium => 2,
            Severity::Low => 1,
            Severity::Informational => 0,
        }
    }

    /// The label under which this severity is displayed.
    pub fn label(&self) -> (res: String)
        ensures
            res@ == severity_label(*self),
    {
        match self {
            Severity::Critical => String::from_str("CRITICAL"),
            Severity::High => String::from_str("HIGH"),
            Severity::Medium => String::from_str("MEDIUM"),
            Severity::Low => String::from_str("LOW"),
            Severity::Informational => String::from_str("INFO"),
        }
    }
}

/// The kind of a finding.
#[derive(Debug, Clone, PartialEq, Eq)]
pub enum FindingType {
    ScriptInjection,
    UnpinnedAction,
    ExcessivePermissions,
    SecretExposure,
    SelfHostedRunner,
    PwnRequest,
    /// Matched a user-authored rule from a custom rules file; carries the rule id.
    Custom(String),
}

/// The abstract value of a `FindingType`.
pub enum FindingKind {
    ScriptInjection,
    UnpinnedAction,
    ExcessivePermissions,
    SecretExposure,
    SelfHostedRunner,
    PwnRequest,
    Custom(Seq<char>),
}

impl View for FindingType {
    type V = FindingKind;

    open spec fn view(&self) -> FindingKind {
        match self {
            FindingType::ScriptInjection => FindingKind::ScriptInjection,
            FindingType::UnpinnedAction => FindingKind::UnpinnedAction,
            FindingType::ExcessivePermissions => FindingKind::ExcessivePermissions,
            FindingType::SecretExposure => FindingKind::SecretExposure,
            FindingType::SelfHostedRunner => FindingKind::SelfHostedRunner,
            FindingType::PwnRequest => FindingKind::PwnRequest,
            FindingType::Custom(id) => FindingKind::Custom(id@),
        }
    }
}

/// The label under which a finding type is displayed.
pub open spec fn finding_kind_label(k: FindingKind) -> Seq<char> {
    match k {
        FindingKind::ScriptInjection => "Script Injection"@,
        FindingKind::UnpinnedAction => "Unpinned Action"@,
        FindingKind::ExcessivePermissions => "Excessive Permissions"@,
        FindingKind::SecretExposure => "Secret Exposure"@,
        FindingKind::SelfHostedRunner => "Self-Hosted Runner"@,
        FindingKind::PwnRequest => "Pwn Request"@,
        FindingKind::Custom(id) => "Custom Rule: "@ + id,
    }
}

impl FindingType {
    /// The label under which this finding type is displayed.
    pub fn label(&self) -> (res: String)
        ensures
            res@ == finding_kind_label(self@),
    {
        match self {
            FindingType::ScriptInjection => String::from_str("Script Injection"),
            FindingType::UnpinnedAction => String::from_str("Unpinned Action"),
            FindingType::ExcessivePermissions => String::from_str("Excessive Permissions"),
            FindingType::SecretExposure => String::from_str("Secret Exposure"),
            FindingType::SelfHostedRunner => String::from_str("Self-Hosted Runner"),
            FindingType::PwnRequest => String::from_str("Pwn Request"),
            FindingType::Custom(id) => {
                let mut s = String::from_str("Custom Rule: ");
                s.append(id.as_str());
                s
            },
        }
    }

    /// A copy of this finding type.
    pub fn duplicate(&self) -> (res: FindingType)
        ensures
            res@ == self@,
    {
        match self {
            FindingType::ScriptInjection => FindingType::ScriptInjection,
            FindingType::UnpinnedAction => FindingType::UnpinnedAction,
            FindingType::ExcessivePermissions => FindingType::ExcessivePermissions,
            FindingType::SecretExposure => FindingType::SecretExposure,
            FindingType::SelfHostedRunner => FindingType::SelfHostedRunner,
            FindingType::PwnRequest => FindingType::PwnRequest,
            FindingType::Custom(id) => FindingType::Custom(id.clone()),
        }
    }
}

/// One security finding.
#[derive(Debug, Clone)]
pub struct Finding {
    pub workflow: String,
    pub job_id: Option<String>,
    pub step_name: Option<String>,
    pub finding_type: FindingType,
    pub severity: Severity,
    pub title: String,
    pub description: String,
    pub evidence: String,
    pub remediation: String,
    pub cwe: Option<String>,
    /// 1-based source line the finding points at, where known.
    pub line: Option<usize>,
}

/// The abstract value of a `Finding`.
pub struct FindingView {
    pub workflow: Seq<char>,
    pub job_id: Option<Seq<char>>,
    pub step_name: Option<Seq<char>>,
    pub finding_type: FindingKind,
    pub severity: Severity,
    pub title: Seq<char>,
    pub description: Seq<char>,
    pub evidence: Seq<char>,
    pub remediation: Seq<char>,
    pub cwe: Option<Seq<char>>,
    pub line: Option<usize>,
}

impl View for Finding {
    type V = FindingView;

    open spec fn view(&self) -> FindingView {
        FindingView {
            workflow: self.workflow@,
            job_id: self.job_id.deep_view(),
            step_name: self.step_name.deep_view(),
            finding_type: self.finding_type@,
            severity: self.severity,
            title: self.title@,
            description: self.description@,
            evidence: self.evidence@,
            remediation: self.remediation@,
            cwe: self.cwe.deep_view(),
            line: self.line,
        }
    }
}

impl Finding {
    /// A copy of this finding.
    pub fn duplicate(&self) -> (res: Finding)
        ensures
            res@ == self@,
    {
        Finding {
            workflow: self.workflow.clone(),
            job_id: clone_opt_string(&self.job_id),
            step_name: clone_opt_string(&self.step_name),
            finding_type: self.finding_type.duplicate(),
            severity: self.severity,
            title: self.title.clone(),
            description: self.description.clone(),
            evidence: self.evidence.clone(),
            remediation: self.remediation.clone(),
            cwe: clone_opt_string(&self.cwe),
            line: self.line,
        }
    }
}

/// The abstract values of a list of findings.
pub open spec fn findings_view(fs: Seq<Finding>) -> Seq<FindingView> {
    fs.map_values(|f: Finding| f@)
}

/// The abstract value of `Permissions`.
pub struct PermissionsView {
    pub contents: Option<Seq<char>>,
    pub pull_requests: Option<Seq<char>>,
    pub write_all: bool,
}

impl View for Permissions {
    type V = PermissionsView;

    open spec fn view(&self) -> PermissionsView {
        PermissionsView {
            contents: self.contents.deep_view(),
            pull_requests: self.pull_requests.deep_view(),
            write_all: self.write_all,
        }
    }
}

/// The abstract value of an optional `Permissions`.
pub open spec fn opt_permissions_view(p: Option<Permissions>) -> Option<PermissionsView> {
    match p {
        Some(p) => Some(p@),
        None => None,
    }
}

/// The abstract value of a `Step`.
pub struct StepView {
    pub name: Option<Seq<char>>,
    pub uses: Option<Seq<char>>,
    pub run: Option<Seq<char>>,
    pub env: Seq<(Seq<char>, Seq<char>)>,
    pub with: Seq<(Seq<char>, Seq<char>)>,
    pub line: Option<usize>,
}

impl View for Step {
    type V = StepView;

    open spec fn view(&self) -> StepView {
        StepView {
            name: self.name.deep_view(),
            uses: self.uses.deep_view(),
            run: self.run.deep_view(),
            env: self.env.deep_view(),
            with: self.with.deep_view(),
            line: self.line,
        }
    }
}

/// The abstract value of a `Job`.
pub struct JobView {
    pub id: Seq<char>,
    pub runs_on: Seq<char>,
    pub permissions: Option<PermissionsView>,
    pub steps: Seq<StepView>,
    pub is_reusable_call: bool,
    pub line: Option<usize>,
}

impl View for Job {
    type V = JobView;

    open spec fn view(&self) -> JobView {
        JobView {
            id: self.id@,
            runs_on: self.runs_on@,
            permissions: opt_permissions_view(self.permissions),
            steps: self.steps@.map_values(|s: Step| s@),
            is_reusable_call: self.is_reusable_call,
            line: self.line,
        }
    }
}

/// The abstract value of a `WorkflowFile`.
pub struct WorkflowView {
    pub path: Seq<char>,
    pub name: Seq<char>,
    pub triggers: Seq<Seq<char>>,
    pub jobs: Seq<JobView>,
    pub global_permissions: Option<PermissionsView>,
}

impl View for WorkflowFile {
    type V = WorkflowView;

    open spec fn view(&self) -> WorkflowView {
        WorkflowView {
            path: self.path@,
            name: self.name@,
            triggers: self.triggers.deep_view(),
            jobs: self.jobs@.map_values(|j: Job| j@),
            global_permissions: opt_permissions_view(self.global_permissions),
        }
    }
}

/// Number of findings at each severity.
#[derive(Debug, Clone, Default)]
pub struct FindingSummary {
    pub critical_count: usize,
    pub high_count: usize,
    pub medium_count: usize,
    pub low_count: usize,
    pub informational_count: usize,
}

/// A copy of an optional string.
pub fn clone_opt_string(o: &Option<String>) -> (res: Option<String>)
    ensures
        res.deep_view() == o.deep_view(),
{
    match o {
        Some(s) => Some(s.clone()),
        None => None,
    }
}

/// The results of `f` on each element of `s`, concatenated in order.
pub open spec fn flat_map<A, B>(s: Seq<A>, f: spec_fn(A) -> Seq<B>) -> Seq<B>
    decreases s.len(),
{
    if s.len() == 0 {
        Seq::empty()
    } else {
        flat_map(s.drop_last(), f) + f(s.last())
    }
}

/// Extending the processed prefix by one element appends that element's results.
pub proof fn lemma_flat_map_take<A, B>(s: Seq<A>, f: spec_fn(A) -> Seq<B>, k: int)
    requires
        0 <= k < s.len(),
    ensures
        flat_map(s.take(k + 1), f) == flat_map(s.take(k), f) + f(s[k]),
{
    assert(s.take(k + 1).drop_last() =~= s.take(k));
}

/// The whole sequence is the prefix of its own length.
pub proof fn lemma_flat_map_full<A, B>(s: Seq<A>, f: spec_fn(A) -> Seq<B>)
    ensures
        flat_map(s.take(s.len() as int), f) == flat_map(s, f),
{
    assert(s.take(s.len() as int) =~= s);
}

/// A `flat_map` whose parts are each no longer than those of another is no
/// longer than it.
pub proof fn lemma_flat_map_len_le<A, B, C>(
    s: Seq<A>,
    f: spec_fn(A) -> Seq<B>,
    g: spec_fn(A) -> Seq<C>,
)
    requires
        forall|i: int| 0 <= i < s.len() ==> (#[trigger] f(s[i])).len() <= g(s[i]).len(),
    ensures
        flat_map(s, f).len() <= flat_map(s, g).len(),
    decreases s.len(),
{
    if s.len() > 0 {
        assert forall|i: int| 0 <= i < s.drop_last().len() implies (#[trigger] f(
            s.drop_last()[i],
        )).len() <= g(s.drop_last()[i]).len() by {
            assert(s.drop_last()[i] == s[i]);
        }
        assert(f(s[s.len() - 1]).len() <= g(s[s.len() - 1]).len());
        lemma_flat_map_len_le(s.drop_last(), f, g);
    }
}

/// A `flat_map` whose parts have at most one element each has at most as
/// many elements as its source.
pub proof fn lemma_flat_map_at_most_one<A, B>(s: Seq<A>, f: spec_fn(A) -> Seq<B>)
    requires
        forall|i: int| 0 <= i < s.len() ==> (#[trigger] f(s[i])).len() <= 1,
    ensures
        flat_map(s, f).len() <= s.len(),
    decreases s.len(),
{
    if s.len() > 0 {
        assert forall|i: int| 0 <= i < s.drop_last().len() implies (#[trigger] f(
            s.drop_last()[i],
        )).len() <= 1 by {
            assert(s.drop_last()[i] == s[i]);
        }
        assert(f(s[s.len() - 1]).len() <= 1);
        lemma_flat_map_at_most_one(s.drop_last(), f);
    }
}

/// Every element of a `flat_map` is an element of one of its parts, so a
/// property of every part's elements holds of every element.
pub proof fn lemma_flat_map_all<A, B>(s: Seq<A>, f: spec_fn(A) -> Seq<B>, p: spec_fn(B) -> bool)
    requires
        forall|i: int, k: int| 0 <= i < s.len() && 0 <= k < f(s[i]).len() ==> p(#[trigger] f(s[i])[k]),
    ensures
        forall|k: int| 0 <= k < flat_map(s, f).len() ==> p(#[trigger] flat_map(s, f)[k]),
    decreases s.len(),
{
    if s.len() > 0 {
        let init = s.drop_last();
        assert forall|i: int, k: int| 0 <= i < init.len() && 0 <= k < f(init[i]).len() implies p(
            #[trigger] f(init[i])[k],
        ) by {
            assert(init[i] == s[i]);
        }
        lemma_flat_map_all(init, f, p);
        let a = flat_map(init, f);
        let b = f(s[s.len() - 1]);
        assert forall|k: int| 0 <= k < (a + b).len() implies p(#[trigger] (a + b)[k]) by {
            if k >= a.len() {
                assert((a + b)[k] == b[k - a.len()]);
                assert(p(f(s[s.len() - 1])[k - a.len()]));
            } else {
                assert((a + b)[k] == a[k]);
            }
        }
    }
}

/// Every element of every part is an element of the `flat_map`.
pub proof fn lemma_flat_map_contains<A, B>(s: Seq<A>, f: spec_fn(A) -> Seq<B>, i: int, k: int)
    requires
        0 <= i < s.len(),
        0 <= k < f(s[i]).len(),
    ensures
        flat_map(s, f).contains(f(s[i])[k]),
    decreases s.len(),
{
    let init = s.drop_last();
    let a = flat_map(init, f);
    let b = f(s.last());
    assert(flat_map(s, f) == a + b);
    if i == s.len() - 1 {
        assert((a + b)[a.len() + k] == b[k]);
    } else {
        assert(init[i] == s[i]);
        lemma_flat_map_contains(init, f, i, k);
        let j = choose|j: int| 0 <= j < a.len() && a[j] == f(s[i])[k];
        assert((a + b)[j] == a[j]);
    }
}

/// A `flat_map` whose every part is empty is empty.
pub proof fn lemma_flat_map_empty<A, B>(s: Seq<A>, f: spec_fn(A) -> Seq<B>)
    requires
        forall|i: int| 0 <= i < s.len() ==> (#[trigger] f(s[i])).len() == 0,
    ensures
        flat_map(s, f).len() == 0,
    decreases s.len(),
{
    if s.len() > 0 {
        assert(f(s[s.len() - 1]).len() == 0);
        assert forall|i: int| 0 <= i < s.drop_last().len() implies (#[trigger] f(
            s.drop_last()[i],
        )).len() == 0 by {
            assert(s.drop_last()[i] == s[i]);
        }
        lemma_flat_map_empty(s.drop_last(), f);
    }
}

/// Appending findings appends their views.
pub proof fn lemma_findings_view_append(a: Seq<Finding>, b: Seq<Finding>)
    ensures
        findings_view(a + b) == findings_view(a) + findings_view(b),
{
    assert(findings_view(a + b) =~= findings_view(a) + findings_view(b));
}

/// Pushing a finding pushes its view.
pub proof fn lemma_findings_view_push(a: Seq<Finding>, f: Finding)
    ensures
        findings_view(a.push(f)) == findings_view(a).push(f@),
{
    assert(findings_view(a.push(f)) =~= findings_view(a).push(f@));
}

/// Moves all findings of `more` to the end of `acc`.
pub fn append_findings(acc: &mut Vec<Finding>, more: Vec<Finding>)
    ensures
        findings_view(final(acc)@) == findings_view(old(acc)@) + findings_view(more@),
{
    let mut more = more;
    proof {
        lemma_findings_view_append(acc@, more@);
    }
    acc.append(&mut more);
}

} // verus!
