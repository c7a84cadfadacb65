//! Phase 1 agents: orchestrator, ICP scout, outbound SDR and the
//! feedback-to-PRD synthesizer.

use vstd::prelude::*;
use crate::gtm::contracts::{
    AccountSignal, AgentId, AgentTaskEnvelope, AgentTaskResult, ApprovalRequest, ClaimRisk,
    CurrentState, DriftReport, EntityType, EventEnvelope, EventPayload, ExecutionStep, GtmChannel,
    FeedbackItem, FeedbackPrdInput, FeedbackPrdOutput, InsightCluster, JobStory, PrdDraft,
    IcpScore, IcpScoutInput, IcpScoutOutput, IcpTier, MessageVariant, OrchestratorInput,
    OrchestratorOutput, OutboundSdrInput, OutboundSdrOutput, SegmentDefinition, SendRequest,
    SequenceDraft, SequenceTouch, SubjectType, TaskAssignment, TaskStatus, WorkflowState,
    GTM_SCHEMA_VERSION, event_is, make_event, extend_events, handed_to,
};
use crate::gtm::ids::{uuid_simple_text, uuid_text, MINUTE_MS};
use crate::text::contains;
use crate::order::sort_seq;
use crate::gtm::ids::{HOUR_MS, DAY_MS};
use crate::text::{strs, lower_seq};
use crate::number::decimal;
use crate::gtm::common::slug;

verus! {

/// Failure of a phase 1 agent. The agents themselves always succeed; the
/// variant is for writing their events out.
#[derive(Debug, Clone)]
pub enum GtmAgentError {
    EventSerialization(String),
}

/// The phase 1 engine.
#[derive(Debug, Clone, Copy)]
pub struct Phase1AgentEngine;

impl Default for Phase1AgentEngine {
    fn default() -> (r: Self)
        ensures
            r == Phase1AgentEngine,
    {
        Phase1AgentEngine
    }
}

/// The stage the orchestrator reports.
pub open spec fn orchestrator_stage(s: CurrentState) -> Seq<char> {
    if s.blockers@.len() > 0 {
        "blocked"@
    } else if s.open_tasks > 0 {
        "execution"@
    } else {
        "planning"@
    }
}

pub open spec fn stage_progress(s: CurrentState) -> u8 {
    if s.blockers@.len() > 0 {
        35
    } else if s.open_tasks > 0 {
        55
    } else {
        20
    }
}

/// Minutes until the workflow completes: 90, plus 15 per open task and 10
/// per active campaign.
pub open spec fn eta_minutes(s: CurrentState) -> int {
    90 + s.open_tasks * 15 + s.active_campaigns * 10
}

/// The deadline the orchestrator plans against.
pub open spec fn plan_deadline(e: AgentTaskEnvelope) -> int {
    match e.deadline_at {
        Some(d) => d as int,
        None => e.requested_at + 24 * HOUR_MS,
    }
}

/// The approval requests of the orchestrator: the policy gate, then missing
/// review capacity.
pub open spec fn orchestrator_approvals(e: AgentTaskEnvelope, input: OrchestratorInput) -> Seq<(Seq<char>, Seq<char>, Seq<char>)> {
    let gate: Seq<(Seq<char>, Seq<char>, Seq<char>)> = if e.policy_pack.human_approval_required {
        seq![("Policy pack enforces human gate before external sends"@, "medium"@, "gtm_ops"@)]
    } else {
        Seq::empty()
    };
    let capacity: Seq<(Seq<char>, Seq<char>, Seq<char>)> = if input.resource_limits.human_review_capacity == 0 {
        seq![("No human review capacity configured"@, "high"@, "revops"@)]
    } else {
        Seq::empty()
    };
    gate + capacity
}

pub open spec fn approval_view(a: ApprovalRequest) -> (Seq<char>, Seq<char>, Seq<char>) {
    (a.reason@, a.risk_level@, a.reviewer_group@)
}

pub open spec fn approvals_view(v: Seq<ApprovalRequest>) -> Seq<(Seq<char>, Seq<char>, Seq<char>)> {
    v.map_values(|a: ApprovalRequest| approval_view(a))
}

/// The three assignments: ICP refresh 16 hours before the deadline, the
/// outbound sequence 8 hours before, the PRD synthesis 2 hours before.
pub open spec fn assignment_is(a: TaskAssignment, task_type: Seq<char>, agent: AgentId, due: int, refs: Seq<String>) -> bool {
    &&& a.task_type@ == task_type
    &&& a.agent_id == agent
    &&& a.deadline_at == Some(due as i64)
    &&& a.input_refs@ == refs
}

pub open spec fn step_is(s: ExecutionStep, id: Seq<char>, description: Seq<char>, depends_on: Seq<Seq<char>>) -> bool {
    &&& s.step_id@ == id
    &&& s.description@ == description
    &&& strs(s.depends_on@) == depends_on
}

/// Everything the orchestrator's result states.
pub open spec fn orchestrator_result(e: AgentTaskEnvelope, input: OrchestratorInput, r: AgentTaskResult<OrchestratorOutput>) -> bool {
    let o = r.output_payload;
    let d = plan_deadline(e);
    let approvals = orchestrator_approvals(e, input);
    &&& r.task_id == e.task_id
    &&& r.status == TaskStatus::Succeeded
    &&& r.schema_version@ == GTM_SCHEMA_VERSION@
    &&& o.execution_plan@.len() == 3
    &&& step_is(o.execution_plan@[0], "phase1_icp"@, "Score accounts and promote ICP segments"@, seq![])
    &&& step_is(o.execution_plan@[1], "phase1_outbound"@, "Draft outbound sequence for promoted segments"@, seq!["phase1_icp"@])
    &&& step_is(o.execution_plan@[2], "phase1_feedback_prd"@, "Synthesize feedback into PRD drafts"@, seq!["phase1_outbound"@])
    &&& o.task_assignments@.len() == 3
    &&& assignment_is(o.task_assignments@[0], "icp.score.refresh"@, AgentId::RachelIcpScout, d - 16 * HOUR_MS, e.input_refs@)
    &&& assignment_is(o.task_assignments@[1], "outbound.sequence.prepare"@, AgentId::RachelOutboundSdr, d - 8 * HOUR_MS, e.input_refs@)
    &&& assignment_is(o.task_assignments@[2], "feedback.prd.synthesize"@, AgentId::RachelFeedbackPrdSynthesizer, d - 2 * HOUR_MS, e.input_refs@)
    &&& approvals_view(o.approval_requests@) == approvals
    &&& o.workflow_state.stage@ == orchestrator_stage(input.current_state)
    &&& o.workflow_state.progress_pct == stage_progress(input.current_state)
    &&& o.workflow_state.eta_minutes == eta_minutes(input.current_state)
    &&& r.emitted_events@.len() == 4 + approvals.len()
    &&& event_is(r.emitted_events@[0], e, AgentId::RachelOrchestrator, "orchestrator.workflow.updated"@, SubjectType::Objective, e.objective_id, EventPayload::WorkflowState)
    &&& forall|i: int| 0 <= i < 3 ==> event_is(#[trigger] r.emitted_events@[1 + i], e, AgentId::RachelOrchestrator, "orchestrator.task.assigned"@, SubjectType::Objective, e.objective_id, EventPayload::TaskAssignment(i as usize))
    &&& forall|i: int| 0 <= i < approvals.len() ==> event_is(#[trigger] r.emitted_events@[4 + i], e, AgentId::RachelOrchestrator, "approval.requested"@, SubjectType::Objective, e.objective_id, EventPayload::ApprovalRequest(i as usize))
    &&& r.evidence_refs@ == e.input_refs@
    &&& r.next_action@ == "Run ICP Scout assignments and publish promoted segments"@
    &&& r.errors@.len() == 0
}

fn approval(reason: &str, risk_level: &str, reviewer_group: &str) -> (r: ApprovalRequest)
    ensures
        approval_view(r) == (reason@, risk_level@, reviewer_group@),
{
    ApprovalRequest {
        reason: crate::text::owned(reason),
        risk_level: crate::text::owned(risk_level),
        reviewer_group: crate::text::owned(reviewer_group),
    }
}

fn step(id: &str, description: &str, depends_on: Vec<String>) -> (r: ExecutionStep)
    ensures
        r.step_id@ == id@,
        r.description@ == description@,
        r.depends_on@ == depends_on@,
{
    ExecutionStep { step_id: crate::text::owned(id), description: crate::text::owned(description), depends_on }
}

fn assignment(task_type: &str, agent: AgentId, due: i64, refs: &Vec<String>) -> (r: TaskAssignment)
    ensures
        assignment_is(r, task_type@, agent, due as int, refs@),
{
    TaskAssignment {
        task_type: crate::text::owned(task_type),
        agent_id: agent,
        deadline_at: Some(due),
        input_refs: crate::text::clone_strings(refs),
    }
}

/// Whether the orchestrator's arithmetic stays in range: the deadline and
/// the assignment deadlines are representable, and so is the ETA.
pub open spec fn orchestrator_in_range(e: AgentTaskEnvelope, input: OrchestratorInput) -> bool {
    &&& (e.deadline_at is None ==> e.requested_at + 24 * HOUR_MS <= i64::MAX)
    &&& plan_deadline(e) - 16 * HOUR_MS >= i64::MIN
    &&& eta_minutes(input.current_state) <= u32::MAX
}

impl Phase1AgentEngine {
    /// Plans phase 1: three steps, one assignment per agent timed against the
    /// deadline (24 hours after the request when none is set), the approvals
    /// the policy or an empty approval capacity calls for, and the workflow state.
    pub fn run_orchestrator(&self, envelope: AgentTaskEnvelope, input: OrchestratorInput) -> (r: Result<
        AgentTaskResult<OrchestratorOutput>,
        GtmAgentError,
    >)
        requires
            orchestrator_in_range(envelope, input),
        ensures
            r matches Ok(res) && orchestrator_result(envelope, input, res),
    {
        let deadline: i64 = match envelope.deadline_at {
            Some(d) => d,
            None => envelope.requested_at + 24 * HOUR_MS,
        };
        let blocked = input.current_state.blockers.len() > 0;
        let executing = input.current_state.open_tasks > 0;
        let (stage, progress): (&str, u8) = if blocked {
            ("blocked", 35)
        } else if executing {
            ("execution", 55)
        } else {
            ("planning", 20)
        };
        let plan = vec![
            step("phase1_icp", "Score accounts and promote ICP segments", Vec::new()),
            step(
                "phase1_outbound",
                "Draft outbound sequence for promoted segments",
                vec![crate::text::owned("phase1_icp")],
            ),
            step(
                "phase1_feedback_prd",
                "Synthesize feedback into PRD drafts",
                vec![crate::text::owned("phase1_outbound")],
            ),
        ];
        proof {
            assert(strs(plan@[0].depends_on@) =~= seq![]);
            assert(strs(plan@[1].depends_on@) =~= seq!["phase1_icp"@]);
            assert(strs(plan@[2].depends_on@) =~= seq!["phase1_outbound"@]);
        }
        let assignments = vec![
            assignment("icp.score.refresh", AgentId::RachelIcpScout, deadline - 16 * HOUR_MS, &envelope.input_refs),
            assignment(
                "outbound.sequence.prepare",
                AgentId::RachelOutboundSdr,
                deadline - 8 * HOUR_MS,
                &envelope.input_refs,
            ),
            assignment(
                "feedback.prd.synthesize",
                AgentId::RachelFeedbackPrdSynthesizer,
                deadline - 2 * HOUR_MS,
                &envelope.input_refs,
            ),
        ];
        let mut approvals: Vec<ApprovalRequest> = Vec::new();
        if envelope.policy_pack.human_approval_required {
            approvals.push(approval("Policy pack enforces human gate before external sends", "medium", "gtm_ops"));
        }
        if input.resource_limits.human_review_capacity == 0 {
            approvals.push(approval("No human review capacity configured", "high", "revops"));
        }
        proof {
            assert(approvals_view(approvals@) =~= orchestrator_approvals(envelope, input));
        }
        let eta: u32 = 90 + input.current_state.open_tasks * 15 + input.current_state.active_campaigns * 10;
        let workflow_state = WorkflowState { stage: crate::text::owned(stage), progress_pct: progress, eta_minutes: eta };
        let mut events: Vec<EventEnvelope> = Vec::new();
        events.push(
            make_event(
                &envelope,
                AgentId::RachelOrchestrator,
                "orchestrator.workflow.updated",
                SubjectType::Objective,
                envelope.objective_id,
                EventPayload::WorkflowState,
            ),
        );
        let mut i: usize = 0;
        while i < 3
            invariant
                i <= 3,
                events@.len() == 1 + i,
                event_is(events@[0], envelope, AgentId::RachelOrchestrator, "orchestrator.workflow.updated"@, SubjectType::Objective, envelope.objective_id, EventPayload::WorkflowState),
                forall|k: int| 0 <= k < i ==> event_is(#[trigger] events@[1 + k], envelope, AgentId::RachelOrchestrator, "orchestrator.task.assigned"@, SubjectType::Objective, envelope.objective_id, EventPayload::TaskAssignment(k as usize)),
            decreases 3 - i,
        {
            events.push(
                make_event(
                    &envelope,
                    AgentId::RachelOrchestrator,
                    "orchestrator.task.assigned",
                    SubjectType::Objective,
                    envelope.objective_id,
                    EventPayload::TaskAssignment(i),
                ),
            );
            i = i + 1;
        }
        let mut j: usize = 0;
        while j < approvals.len()
            invariant
                j <= approvals@.len(),
                events@.len() == 4 + j,
                event_is(events@[0], envelope, AgentId::RachelOrchestrator, "orchestrator.workflow.updated"@, SubjectType::Objective, envelope.objective_id, EventPayload::WorkflowState),
                forall|k: int| 0 <= k < 3 ==> event_is(#[trigger] events@[1 + k], envelope, AgentId::RachelOrchestrator, "orchestrator.task.assigned"@, SubjectType::Objective, envelope.objective_id, EventPayload::TaskAssignment(k as usize)),
                forall|k: int| 0 <= k < j ==> event_is(#[trigger] events@[4 + k], envelope, AgentId::RachelOrchestrator, "approval.requested"@, SubjectType::Objective, envelope.objective_id, EventPayload::ApprovalRequest(k as usize)),
            decreases approvals@.len() - j,
        {
            events.push(
                make_event(
                    &envelope,
                    AgentId::RachelOrchestrator,
                    "approval.requested",
                    SubjectType::Objective,
                    envelope.objective_id,
                    EventPayload::ApprovalRequest(j),
                ),
            );
            j = j + 1;
        }
        let output = OrchestratorOutput {
            execution_plan: plan,
            task_assignments: assignments,
            approval_requests: approvals,
            workflow_state,
        };
        Ok(AgentTaskResult {
            task_id: envelope.task_id,
            status: TaskStatus::Succeeded,
            schema_version: crate::text::owned(GTM_SCHEMA_VERSION),
            output_payload: output,
            emitted_events: events,
            evidence_refs: crate::text::clone_strings(&envelope.input_refs),
            next_action: crate::text::owned("Run ICP Scout assignments and publish promoted segments"),
            errors: Vec::new(),
        })
    }
}


pub open spec fn usage_points(a: AccountSignal) -> int {
    (if a.product_events_14d < 12 { a.product_events_14d as int } else { 12 }) * 3
}

pub open spec fn win_points(a: AccountSignal) -> int {
    if a.won_deals_12m >= a.lost_deals_12m && a.won_deals_12m > 0 {
        15
    } else if a.lost_deals_12m > a.won_deals_12m {
        -6
    } else {
        0
    }
}

pub open spec fn churn_points(a: AccountSignal) -> int {
    if a.churned { -25 } else { 12 }
}

pub open spec fn activation_points(a: AccountSignal) -> int {
    if a.activation_days <= 7 {
        14
    } else if a.activation_days <= 14 {
        8
    } else {
        0
    }
}

pub open spec fn support_points(a: AccountSignal) -> int {
    if a.support_tickets_30d <= 2 {
        10
    } else if a.support_tickets_30d >= 8 {
        -12
    } else {
        0
    }
}

pub open spec fn ltv_points(a: AccountSignal) -> int {
    if a.ltv_usd >= 5000 { 10 } else { 0 }
}

pub open spec fn size_points(a: AccountSignal) -> int {
    if 50 <= a.company_size <= 500 { 5 } else { 0 }
}

/// The points an account scores, before clamping to 0..=100: product
/// usage, win rate, churn, activation speed, support load, lifetime value
/// and company size.
pub open spec fn raw_score(a: AccountSignal) -> int {
    usage_points(a) + win_points(a) + churn_points(a) + activation_points(a) + support_points(a)
        + ltv_points(a) + size_points(a)
}

/// The account's ICP score.
pub open spec fn account_score(a: AccountSignal) -> int {
    let r = raw_score(a);
    if r < 0 {
        0
    } else if r > 100 {
        100
    } else {
        r
    }
}

/// Two accounts whose signals agree on everything the score reads except
/// the number of open support tickets.
pub open spec fn differ_in_support_only(a: AccountSignal, b: AccountSignal) -> bool {
    &&& a.company_size == b.company_size
    &&& a.product_events_14d == b.product_events_14d
    &&& a.won_deals_12m == b.won_deals_12m
    &&& a.lost_deals_12m == b.lost_deals_12m
    &&& a.churned == b.churned
    &&& a.activation_days == b.activation_days
    &&& a.ltv_usd == b.ltv_usd
}

/// Support load weighs on the score. With every other signal fixed, an
/// account with at most two open tickets scores 10 points more than one
/// with three to seven and 22 points more than one with eight or more
/// (before clamping); where no clamping happens, the final score keeps
/// the same gap.
pub proof fn lemma_support_load_weighs(light: AccountSignal, medium: AccountSignal, heavy: AccountSignal)
    requires
        differ_in_support_only(light, medium),
        differ_in_support_only(light, heavy),
        light.support_tickets_30d <= 2,
        3 <= medium.support_tickets_30d <= 7,
        heavy.support_tickets_30d >= 8,
    ensures
        raw_score(light) == raw_score(heavy) + 22,
        raw_score(light) == raw_score(medium) + 10,
        raw_score(medium) == raw_score(heavy) + 12,
        0 <= raw_score(heavy) && raw_score(light) <= 100 ==> account_score(light) == account_score(heavy) + 22,
{
}

/// Churn weighs on the score: with every other signal fixed, a churned
/// account scores 37 points less than a retained one (before clamping).
pub proof fn lemma_churn_weighs(a: AccountSignal)
    ensures
        raw_score(AccountSignal { churned: false, ..a }) == raw_score(AccountSignal { churned: true, ..a }) + 37,
{
}

/// Product usage adds 3 points per event in the last 14 days, up to 12
/// events; further events add nothing (before clamping).
pub proof fn lemma_usage_weighs(a: AccountSignal, n: u32)
    requires
        n < 12,
    ensures
        raw_score(AccountSignal { product_events_14d: (n + 1) as u32, ..a })
            == raw_score(AccountSignal { product_events_14d: n, ..a }) + 3,
        a.product_events_14d >= 12 ==> raw_score(a) == raw_score(AccountSignal { product_events_14d: 12, ..a }),
{
}

/// Activation within a week is worth 14 points and within two weeks 8,
/// over a slow activation (before clamping).
pub proof fn lemma_activation_weighs(a: AccountSignal, fast: u32, ok: u32, slow: u32)
    requires
        fast <= 7,
        8 <= ok <= 14,
        slow > 14,
    ensures
        raw_score(AccountSignal { activation_days: fast, ..a }) == raw_score(AccountSignal { activation_days: slow, ..a }) + 14,
        raw_score(AccountSignal { activation_days: ok, ..a }) == raw_score(AccountSignal { activation_days: slow, ..a }) + 8,
{
}

/// A lifetime value of at least 5000 adds 10 points, and a company of 50 to
/// 500 people adds 5 (before clamping).
pub proof fn lemma_value_and_size_weigh(a: AccountSignal, high: u64, low: u64, fit: u32, off: u32)
    requires
        high >= 5000,
        low < 5000,
        50 <= fit <= 500,
        off < 50 || off > 500,
    ensures
        raw_score(AccountSignal { ltv_usd: high, ..a }) == raw_score(AccountSignal { ltv_usd: low, ..a }) + 10,
        raw_score(AccountSignal { company_size: fit, ..a }) == raw_score(AccountSignal { company_size: off, ..a }) + 5,
{
}

/// A positive win record (at least as many wins as losses, and some win)
/// is worth 15 points over no deals at all, and a losing record costs 6
/// (before clamping).
pub proof fn lemma_win_rate_weighs(a: AccountSignal, won: u32, lost: u32, won2: u32, lost2: u32)
    requires
        won >= lost && won > 0,
        lost2 > won2,
    ensures
        raw_score(AccountSignal { won_deals_12m: won, lost_deals_12m: lost, ..a })
            == raw_score(AccountSignal { won_deals_12m: 0, lost_deals_12m: 0, ..a }) + 15,
        raw_score(AccountSignal { won_deals_12m: won2, lost_deals_12m: lost2, ..a })
            == raw_score(AccountSignal { won_deals_12m: 0, lost_deals_12m: 0, ..a }) - 6,
{
}

/// The score is the raw score clamped to 0..=100.
pub proof fn lemma_account_score_clamps(a: AccountSignal)
    ensures
        0 <= account_score(a) <= 100,
        0 <= raw_score(a) <= 100 ==> account_score(a) == raw_score(a),
        raw_score(a) < 0 ==> account_score(a) == 0,
        raw_score(a) > 100 ==> account_score(a) == 100,
{
}

pub open spec fn opt_driver(b: bool, d: Seq<char>) -> Seq<Seq<char>> {
    if b {
        seq![d]
    } else {
        Seq::empty()
    }
}

pub open spec fn churn_driver(a: AccountSignal) -> Seq<Seq<char>> {
    if a.churned { seq!["recent_churn_signal"@] } else { seq!["retention_signal"@] }
}

pub open spec fn activation_driver(a: AccountSignal) -> Seq<Seq<char>> {
    if a.activation_days <= 7 {
        seq!["fast_activation"@]
    } else if a.activation_days <= 14 {
        seq!["acceptable_activation"@]
    } else {
        Seq::empty()
    }
}

pub open spec fn support_driver(a: AccountSignal) -> Seq<Seq<char>> {
    if a.support_tickets_30d <= 2 {
        seq!["low_support_load"@]
    } else if a.support_tickets_30d >= 8 {
        seq!["high_support_load"@]
    } else {
        Seq::empty()
    }
}

/// The drivers behind an account's score, in order.
pub open spec fn score_drivers(a: AccountSignal) -> Seq<Seq<char>> {
    opt_driver(a.product_events_14d > 0, "strong_product_activity"@)
        + opt_driver(a.won_deals_12m >= a.lost_deals_12m && a.won_deals_12m > 0, "win_rate_positive"@)
        + churn_driver(a) + activation_driver(a) + support_driver(a)
        + opt_driver(a.ltv_usd >= 5000, "high_ltv"@)
        + opt_driver(50 <= a.company_size <= 500, "target_company_size"@)
}

fn push_driver(drivers: &mut Vec<String>, d: &str)
    ensures
        strs(final(drivers)@) == strs(old(drivers)@).push(d@),
{
    drivers.push(crate::text::owned(d));
    proof {
        assert(strs(drivers@) =~= strs(old(drivers)@).push(d@));
    }
}

fn push_if(drivers: &mut Vec<String>, cond: bool, d: &str)
    ensures
        strs(final(drivers)@) == strs(old(drivers)@) + opt_driver(cond, d@),
{
    if cond {
        push_driver(drivers, d);
    } else {
        proof {
            assert(strs(drivers@) =~= strs(old(drivers)@) + opt_driver(cond, d@));
        }
    }
}

fn churn_step(a: &AccountSignal, drivers: &mut Vec<String>) -> (p: i32)
    ensures
        p == churn_points(*a),
        strs(final(drivers)@) == strs(old(drivers)@) + churn_driver(*a),
{
    if a.churned {
        push_driver(drivers, "recent_churn_signal");
        proof {
            assert(strs(drivers@) =~= strs(old(drivers)@) + churn_driver(*a));
        }
        -25
    } else {
        push_driver(drivers, "retention_signal");
        proof {
            assert(strs(drivers@) =~= strs(old(drivers)@) + churn_driver(*a));
        }
        12
    }
}

fn activation_step(a: &AccountSignal, drivers: &mut Vec<String>) -> (p: i32)
    ensures
        p == activation_points(*a),
        strs(final(drivers)@) == strs(old(drivers)@) + activation_driver(*a),
{
    if a.activation_days <= 7 {
        push_driver(drivers, "fast_activation");
        proof {
            assert(strs(drivers@) =~= strs(old(drivers)@) + activation_driver(*a));
        }
        14
    } else if a.activation_days <= 14 {
        push_driver(drivers, "acceptable_activation");
        proof {
            assert(strs(drivers@) =~= strs(old(drivers)@) + activation_driver(*a));
        }
        8
    } else {
        proof {
            assert(strs(drivers@) =~= strs(old(drivers)@) + activation_driver(*a));
        }
        0
    }
}

fn support_step(a: &AccountSignal, drivers: &mut Vec<String>) -> (p: i32)
    ensures
        p == support_points(*a),
        strs(final(drivers)@) == strs(old(drivers)@) + support_driver(*a),
{
    if a.support_tickets_30d <= 2 {
        push_driver(drivers, "low_support_load");
        proof {
            assert(strs(drivers@) =~= strs(old(drivers)@) + support_driver(*a));
        }
        10
    } else if a.support_tickets_30d >= 8 {
        push_driver(drivers, "high_support_load");
        proof {
            assert(strs(drivers@) =~= strs(old(drivers)@) + support_driver(*a));
        }
        -12
    } else {
        proof {
            assert(strs(drivers@) =~= strs(old(drivers)@) + support_driver(*a));
        }
        0
    }
}

/// The account's score and the drivers behind it.
pub fn score_account(a: &AccountSignal) -> (r: (u8, Vec<String>))
    ensures
        r.0 == account_score(*a),
        strs(r.1@) == score_drivers(*a),
{
    let mut drivers: Vec<String> = Vec::new();
    let events: u32 = if a.product_events_14d < 12 { a.product_events_14d } else { 12 };
    let usage: i32 = (events * 3) as i32;
    push_if(&mut drivers, usage > 0, "strong_product_activity");
    let winning = a.won_deals_12m >= a.lost_deals_12m && a.won_deals_12m > 0;
    let wins: i32 = if winning {
        15
    } else if a.lost_deals_12m > a.won_deals_12m {
        -6
    } else {
        0
    };
    push_if(&mut drivers, winning, "win_rate_positive");
    let churn = churn_step(a, &mut drivers);
    let activation = activation_step(a, &mut drivers);
    let support = support_step(a, &mut drivers);
    let high_ltv = a.ltv_usd >= 5000;
    push_if(&mut drivers, high_ltv, "high_ltv");
    let sized = a.company_size >= 50 && a.company_size <= 500;
    push_if(&mut drivers, sized, "target_company_size");
    let ltv: i32 = if high_ltv { 10 } else { 0 };
    let size: i32 = if sized { 5 } else { 0 };
    let score: i32 = usage + wins + churn + activation + support + ltv + size;
    proof {
        assert(usage > 0 <==> a.product_events_14d > 0);
        assert(score == raw_score(*a));
        assert(strs(drivers@) =~= score_drivers(*a));
    }
    let clamped: u8 = if score < 0 {
        0
    } else if score > 100 {
        100
    } else {
        score as u8
    };
    (clamped, drivers)
}

pub open spec fn tier_of(score: int) -> IcpTier {
    if 80 <= score {
        IcpTier::A
    } else if 65 <= score {
        IcpTier::B
    } else if 45 <= score {
        IcpTier::C
    } else {
        IcpTier::D
    }
}

/// Rank of a tier: D lowest, A highest.
pub open spec fn tier_rank(t: IcpTier) -> int {
    match t {
        IcpTier::D => 0,
        IcpTier::C => 1,
        IcpTier::B => 2,
        IcpTier::A => 3,
    }
}

/// A higher score never gets a lower tier.
pub proof fn lemma_tier_monotone(a: int, b: int)
    requires
        a <= b,
    ensures
        tier_rank(tier_of(a)) <= tier_rank(tier_of(b)),
{
}

/// The tier of a score: A from 80, B from 65, C from 45, D below.
pub fn tier_for_score(score: u8) -> (r: IcpTier)
    ensures
        r == tier_of(score as int),
{
    if score >= 80 {
        IcpTier::A
    } else if score >= 65 {
        IcpTier::B
    } else if score >= 45 {
        IcpTier::C
    } else {
        IcpTier::D
    }
}

/// The score entry of an account.
pub open spec fn score_entry(s: IcpScore, a: AccountSignal) -> bool {
    &&& s.entity_id == a.entity_id
    &&& s.entity_type == EntityType::Account
    &&& s.score_0_100 == account_score(a)
    &&& s.tier == tier_of(account_score(a))
    &&& strs(s.top_drivers@) == score_drivers(a)
}

/// `x` placed after every entry scoring at least as much.
pub open spec fn insert_by_score(s: Seq<IcpScore>, x: IcpScore) -> Seq<IcpScore>
    decreases s.len(),
{
    if s.len() == 0 {
        seq![x]
    } else if s[0].score_0_100 < x.score_0_100 {
        seq![x] + s
    } else {
        seq![s[0]] + insert_by_score(s.drop_first(), x)
    }
}

/// Entries by descending score; equal scores keep their order.
pub open spec fn sort_by_score(s: Seq<IcpScore>) -> Seq<IcpScore>
    decreases s.len(),
{
    if s.len() == 0 {
        Seq::empty()
    } else {
        insert_by_score(sort_by_score(s.drop_last()), s.last())
    }
}

fn insert_score(sorted: &mut Vec<IcpScore>, x: IcpScore)
    ensures
        final(sorted)@ == insert_by_score(old(sorted)@, x),
{
    let ghost s0 = sorted@;
    let mut k: usize = 0;
    proof {
        assert(s0.take(0) =~= Seq::<IcpScore>::empty());
        assert(s0.skip(0) =~= s0);
    }
    while k < sorted.len()
        invariant
            k <= sorted@.len(),
            s0 == sorted@,
            insert_by_score(s0, x) == s0.take(k as int) + insert_by_score(s0.skip(k as int), x),
        ensures
            k <= sorted@.len(),
            s0 == sorted@,
            insert_by_score(s0, x) == s0.take(k as int) + insert_by_score(s0.skip(k as int), x),
            k == sorted@.len() || sorted@[k as int].score_0_100 < x.score_0_100,
        decreases sorted@.len() - k,
    {
        proof {
            assert(s0.skip(k as int)[0] == s0[k as int]);
        }
        if sorted[k].score_0_100 < x.score_0_100 {
            break;
        }
        proof {
            assert(s0.skip(k as int).drop_first() =~= s0.skip(k + 1));
            assert(s0.take(k + 1) =~= s0.take(k as int).push(s0[k as int]));
            assert(s0.take(k as int) + (seq![s0[k as int]] + insert_by_score(s0.skip(k + 1), x)) =~= s0.take(k + 1) + insert_by_score(s0.skip(k + 1), x));
        }
        k = k + 1;
    }
    proof {
        if k == sorted@.len() {
            assert(s0.skip(k as int) =~= Seq::<IcpScore>::empty());
        } else {
            assert(s0.skip(k as int)[0] == s0[k as int]);
        }
    }
    sorted.insert(k, x);
    proof {
        assert(sorted@ =~= s0.take(k as int) + insert_by_score(s0.skip(k as int), x));
    }
}

/// Sorts entries by descending score, keeping the order of equal scores.
fn sort_scores(v: Vec<IcpScore>) -> (r: Vec<IcpScore>)
    ensures
        r@ == sort_by_score(v@),
{
    let ghost vs = v@;
    let mut rest = v;
    let mut rev: Vec<IcpScore> = Vec::new();
    while rest.len() > 0
        invariant
            rest@ + rev@.reverse() == vs,
        decreases rest@.len(),
    {
        let ghost br = rest@;
        let ghost bv = rev@;
        let x = rest.pop().unwrap();
        rev.push(x);
        proof {
            assert(br =~= rest@.push(x));
            assert(rev@.reverse() =~= seq![x] + bv.reverse());
            assert(rest@ + rev@.reverse() =~= vs);
        }
    }
    let total: usize = rev.len();
    proof {
        assert(rest@ =~= Seq::<IcpScore>::empty());
        assert(rev@.reverse() =~= vs);
        assert(vs.take(0) =~= Seq::<IcpScore>::empty());
        assert(vs.skip(0) =~= vs);
    }
    let mut sorted: Vec<IcpScore> = Vec::new();
    let mut i: usize = 0;
    while rev.len() > 0
        invariant
            i + rev@.len() == vs.len(),
            vs.len() == total,
            rev@.reverse() == vs.skip(i as int),
            sorted@ == sort_by_score(vs.take(i as int)),
        decreases rev@.len(),
    {
        let ghost bv = rev@;
        let x = rev.pop().unwrap();
        proof {
            assert(bv =~= rev@.push(x));
            assert(bv.reverse() =~= seq![x] + rev@.reverse());
            assert(vs.skip(i as int)[0] == x);
            assert(vs.skip(i + 1) =~= vs.skip(i as int).drop_first());
            assert((seq![x] + rev@.reverse()).drop_first() =~= rev@.reverse());
            assert(vs.take(i + 1).drop_last() =~= vs.take(i as int));
            assert(vs.take(i + 1).last() == x);
        }
        insert_score(&mut sorted, x);
        i = i + 1;
    }
    proof {
        assert(vs.take(vs.len() as int) =~= vs);
    }
    sorted
}

/// The account reaches tier A or B.
pub open spec fn high_fit(a: AccountSignal) -> bool {
    account_score(a) >= 65
}

/// Position of `key` among the counted industries, or their number.
pub open spec fn industry_pos(c: Seq<(Seq<char>, nat)>, key: Seq<char>) -> int
    decreases c.len(),
{
    if c.len() == 0 {
        0
    } else if c[0].0 == key {
        0
    } else {
        1 + industry_pos(c.drop_first(), key)
    }
}

/// High-fit accounts per industry (lower-cased), in order of first appearance.
pub open spec fn industry_counts(accounts: Seq<AccountSignal>) -> Seq<(Seq<char>, nat)>
    decreases accounts.len(),
{
    if accounts.len() == 0 {
        Seq::empty()
    } else {
        let r = industry_counts(accounts.drop_last());
        let a = accounts.last();
        if high_fit(a) {
            let key = lower_seq(a.industry@);
            let k = industry_pos(r, key);
            if k < r.len() {
                r.update(k, (key, r[k].1 + 1))
            } else {
                r.push((key, 1nat))
            }
        } else {
            r
        }
    }
}

/// Position of the first industry with the highest count.
pub open spec fn top_industry(c: Seq<(Seq<char>, nat)>) -> int
    decreases c.len(),
{
    if c.len() <= 1 {
        0
    } else {
        let b = top_industry(c.drop_last());
        if c.last().1 > c[b].1 {
            c.len() - 1
        } else {
            b
        }
    }
}

/// The top industry has the highest count.
pub proof fn lemma_top_industry(c: Seq<(Seq<char>, nat)>)
    requires
        c.len() > 0,
    ensures
        0 <= top_industry(c) < c.len(),
        forall|i: int| 0 <= i < c.len() ==> #[trigger] c[i].1 <= c[top_industry(c)].1,
    decreases c.len(),
{
    if c.len() > 1 {
        lemma_top_industry(c.drop_last());
        let b = top_industry(c.drop_last());
        assert forall|i: int| 0 <= i < c.len() implies #[trigger] c[i].1 <= c[top_industry(c)].1 by {
            if i < c.len() - 1 {
                assert(c[i] == c.drop_last()[i]);
            }
        }
    }
}

/// The segments the scout promotes.
pub open spec fn promoted_segments(accounts: Seq<AccountSignal>) -> Seq<(Seq<char>, Seq<char>)> {
    let c = industry_counts(accounts);
    let industry: Seq<(Seq<char>, Seq<char>)> = if c.len() > 0 {
        let ind = c[top_industry(c)].0;
        seq![("industry_"@ + slug(ind) + "_high_fit"@, "industry == '"@ + ind + "' AND icp_tier IN ('A','B')"@)]
    } else {
        Seq::empty()
    };
    seq![("tier_a_high_fit"@, "icp_tier == 'A'"@)] + industry + seq![
        ("fast_activation"@, "activation_days <= 7 AND support_tickets_30d <= 2"@),
    ]
}

pub open spec fn segment_views(v: Seq<SegmentDefinition>) -> Seq<(Seq<char>, Seq<char>)> {
    v.map_values(|s: SegmentDefinition| (s.segment_id@, s.rule_dsl@))
}

/// Drift: segments are in use and none of them is promoted any more.
pub open spec fn drift(current: Seq<Seq<char>>, promoted: Seq<(Seq<char>, Seq<char>)>) -> bool {
    current.len() > 0 && forall|i: int| 0 <= i < current.len() ==> !promoted.map_values(
        |p: (Seq<char>, Seq<char>)| p.0,
    ).contains(#[trigger] current[i])
}

/// Everything the scout's result states.
pub open spec fn icp_result(e: AgentTaskEnvelope, input: IcpScoutInput, r: AgentTaskResult<IcpScoutOutput>) -> bool {
    let o = r.output_payload;
    let segs = promoted_segments(input.accounts@);
    let drifted = drift(strs(input.current_segment_ids@), segs);
    let needs_human = input.accounts@.len() < input.min_sample_size;
    let n = input.accounts@.len();
    &&& r.task_id == e.task_id
    &&& r.schema_version@ == GTM_SCHEMA_VERSION@
    &&& (exists|u: Seq<IcpScore>| u.len() == n && (forall|i: int| 0 <= i < n ==> score_entry(#[trigger] u[i], input.accounts@[i])) && o.icp_scores@ == sort_by_score(u))
    &&& segment_views(o.segment_definitions@) == segs
    &&& strs(o.anti_icp_rules@) == seq!["churned == true"@, "support_tickets_30d > 8"@, "activation_days > 30"@]
    &&& o.drift_report.drift_detected == drifted
    &&& strs(o.drift_report.drift_dimensions@) == (if drifted { seq!["segment_membership"@, "conversion_signal_weight"@] } else { Seq::empty() })
    &&& o.drift_report.recommended_retrain_date is Some
    &&& r.emitted_events@.len() == 2 + segs.len() + (if drifted { 1int } else { 0 })
    &&& event_is(r.emitted_events@[0], e, AgentId::RachelIcpScout, "icp.score.updated"@, SubjectType::Objective, e.objective_id,
        EventPayload::IcpScoreSummary { score_count: n as usize, top_score: if n > 0 { Some(o.icp_scores@[0].score_0_100) } else { None } })
    &&& forall|i: int| 0 <= i < segs.len() ==> event_is(#[trigger] r.emitted_events@[1 + i], e, AgentId::RachelIcpScout, "icp.segment.promoted"@, SubjectType::Objective, e.objective_id, EventPayload::SegmentDefinition(i as usize))
    &&& event_is(r.emitted_events@[1 + segs.len() as int], e, AgentId::RachelIcpScout, "icp.anti_segment.updated"@, SubjectType::Objective, e.objective_id, EventPayload::AntiSegmentRules)
    &&& drifted ==> event_is(r.emitted_events@[2 + segs.len() as int], e, AgentId::RachelIcpScout, "icp.drift.detected"@, SubjectType::Objective, e.objective_id, EventPayload::DriftReport)
    &&& r.status == (if needs_human { TaskStatus::NeedsHuman } else { TaskStatus::Succeeded })
    &&& r.evidence_refs@ == e.input_refs@
    &&& r.next_action@ == (if needs_human {
        "Collect more won/lost and activation samples before promoting ICP tiers"@
    } else {
        "Publish promoted segments to outbound sequencing"@
    })
    &&& strs(r.errors@) == (if needs_human {
        seq!["insufficient sample size: "@ + decimal(n) + " < "@ + decimal(input.min_sample_size as nat)]
    } else {
        Seq::empty()
    })
}

fn find_industry(counts: &Vec<(String, u32)>, key: &str) -> (k: usize)
    ensures
        k == industry_pos(count_views(counts@), key@),
{
    let ghost cv = count_views(counts@);
    let mut i: usize = 0;
    proof {
        assert(cv.skip(0) =~= cv);
    }
    while i < counts.len()
        invariant
            i <= counts@.len(),
            cv == count_views(counts@),
            industry_pos(cv, key@) == i + industry_pos(cv.skip(i as int), key@),
        decreases counts@.len() - i,
    {
        proof {
            assert(cv.skip(i as int)[0] == cv[i as int]);
            assert(cv.skip(i as int).drop_first() =~= cv.skip(i + 1));
        }
        if crate::text::str_eq(counts[i].0.as_str(), key) {
            return i;
        }
        i = i + 1;
    }
    i
}

pub open spec fn count_views(v: Seq<(String, u32)>) -> Seq<(Seq<char>, nat)> {
    v.map_values(|p: (String, u32)| (p.0@, p.1 as nat))
}

proof fn lemma_industry_pos_bound(c: Seq<(Seq<char>, nat)>, key: Seq<char>)
    ensures
        0 <= industry_pos(c, key) <= c.len(),
        industry_pos(c, key) < c.len() ==> c[industry_pos(c, key)].0 == key,
    decreases c.len(),
{
    if c.len() > 0 && c[0].0 != key {
        lemma_industry_pos_bound(c.drop_first(), key);
    }
}

proof fn lemma_counts_bounded(accounts: Seq<AccountSignal>)
    ensures
        forall|i: int| 0 <= i < industry_counts(accounts).len() ==> #[trigger] industry_counts(accounts)[i].1 <= accounts.len(),
        industry_counts(accounts).len() <= accounts.len(),
    decreases accounts.len(),
{
    if accounts.len() > 0 {
        lemma_counts_bounded(accounts.drop_last());
        let r = industry_counts(accounts.drop_last());
        let a = accounts.last();
        if high_fit(a) {
            lemma_industry_pos_bound(r, lower_seq(a.industry@));
        }
    }
}

fn best_industry(counts: &Vec<(String, u32)>) -> (k: usize)
    requires
        counts@.len() > 0,
    ensures
        k == top_industry(count_views(counts@)),
{
    let ghost cv = count_views(counts@);
    let mut best: usize = 0;
    let mut i: usize = 1;
    proof {
        assert(cv.take(1).len() == 1);
    }
    while i < counts.len()
        invariant
            1 <= i <= counts@.len(),
            cv == count_views(counts@),
            best == top_industry(cv.take(i as int)),
            best < i,
        decreases counts@.len() - i,
    {
        proof {
            let t = cv.take(i + 1);
            assert(t.drop_last() =~= cv.take(i as int));
            assert(t.last() == cv[i as int]);
            assert(t[best as int] == cv[best as int]);
        }
        if counts[i].1 > counts[best].1 {
            best = i;
        }
        i = i + 1;
    }
    proof {
        assert(cv.take(counts@.len() as int) =~= cv);
    }
    best
}

fn segment(id: String, rule: String) -> (r: SegmentDefinition)
    ensures
        r.segment_id == id,
        r.rule_dsl == rule,
{
    SegmentDefinition { segment_id: id, rule_dsl: rule }
}

fn all_unpromoted(current: &Vec<String>, promoted: &Vec<SegmentDefinition>) -> (r: bool)
    ensures
        r == drift(strs(current@), segment_views(promoted@)),
{
    let ghost ids = segment_views(promoted@).map_values(|p: (Seq<char>, Seq<char>)| p.0);
    if current.len() == 0 {
        return false;
    }
    let mut i: usize = 0;
    while i < current.len()
        invariant
            i <= current@.len(),
            ids == segment_views(promoted@).map_values(|p: (Seq<char>, Seq<char>)| p.0),
            forall|k: int| 0 <= k < i ==> !ids.contains(#[trigger] strs(current@)[k]),
        decreases current@.len() - i,
    {
        let mut j: usize = 0;
        while j < promoted.len()
            invariant
                j <= promoted@.len(),
                i < current@.len(),
                ids == segment_views(promoted@).map_values(|p: (Seq<char>, Seq<char>)| p.0),
                forall|k: int| 0 <= k < j ==> ids[k] != current@[i as int]@,
            decreases promoted@.len() - j,
        {
            if crate::text::str_eq(promoted[j].segment_id.as_str(), current[i].as_str()) {
                proof {
                    assert(ids[j as int] == current@[i as int]@);
                    assert(strs(current@)[i as int] == current@[i as int]@);
                }
                return false;
            }
            j = j + 1;
        }
        proof {
            assert(!ids.contains(strs(current@)[i as int])) by {
                if ids.contains(strs(current@)[i as int]) {
                    let k = choose|k: int| 0 <= k < ids.len() && ids[k] == strs(current@)[i as int];
                    assert(ids[k] != current@[i as int]@);
                }
            }
        }
        i = i + 1;
    }
    true
}

impl Phase1AgentEngine {
    /// Scores each account, ranks them by score, promotes the high-fit
    /// segments (with the industry holding most tier A and B accounts), and
    /// reports drift of the segments in use.
    pub fn run_icp_scout(&self, envelope: AgentTaskEnvelope, input: IcpScoutInput) -> (r: Result<
        AgentTaskResult<IcpScoutOutput>,
        GtmAgentError,
    >)
        requires
            input.accounts@.len() < u32::MAX,
        ensures
            r matches Ok(res) && icp_result(envelope, input, res),
    {
        let n = input.accounts.len();
        let mut scores: Vec<IcpScore> = Vec::new();
        let mut counts: Vec<(String, u32)> = Vec::new();
        let mut i: usize = 0;
        proof {
            assert(input.accounts@.take(0) =~= Seq::<AccountSignal>::empty());
        }
        while i < n
            invariant
                i <= n,
                n == input.accounts@.len(),
                n < u32::MAX,
                scores@.len() == i,
                forall|k: int| 0 <= k < i ==> score_entry(#[trigger] scores@[k], input.accounts@[k]),
                count_views(counts@) == industry_counts(input.accounts@.take(i as int)),
            decreases n - i,
        {
            let account = &input.accounts[i];
            let (score, drivers) = score_account(account);
            let tier = tier_for_score(score);
            proof {
                let t = input.accounts@.take(i + 1);
                assert(t.drop_last() =~= input.accounts@.take(i as int));
                assert(t.last() == input.accounts@[i as int]);
                lemma_counts_bounded(input.accounts@.take(i as int));
            }
            if score >= 65 {
                let key = crate::text::lower_str(account.industry.as_str());
                let k = find_industry(&counts, key.as_str());
                proof {
                    lemma_industry_pos_bound(count_views(counts@), key@);
                }
                if k < counts.len() {
                    let c = counts[k].1;
                    proof {
                        assert(count_views(counts@)[k as int].1 <= i);
                    }
                    counts.set(k, (key, c + 1));
                } else {
                    counts.push((key, 1));
                }
                proof {
                    assert(count_views(counts@) =~= industry_counts(input.accounts@.take(i + 1)));
                }
            }
            scores.push(IcpScore {
                entity_id: account.entity_id,
                entity_type: EntityType::Account,
                score_0_100: score,
                tier,
                top_drivers: drivers,
            });
            i = i + 1;
        }
        proof {
            assert(input.accounts@.take(n as int) =~= input.accounts@);
        }
        let ghost unsorted = scores@;
        let icp_scores = sort_scores(scores);
        let mut segments: Vec<SegmentDefinition> = Vec::new();
        segments.push(segment(crate::text::owned("tier_a_high_fit"), crate::text::owned("icp_tier == 'A'")));
        if counts.len() > 0 {
            let b = best_industry(&counts);
            proof {
                lemma_top_industry(count_views(counts@));
            }
            let industry = counts[b].0.as_str();
            let slugged = crate::gtm::common::slugify(industry);
            let id = crate::text::concat3("industry_", slugged.as_str(), "_high_fit");
            let rule = crate::text::concat3("industry == '", industry, "' AND icp_tier IN ('A','B')");
            proof {
                assert(count_views(counts@)[b as int].0 == counts@[b as int].0@);
            }
            segments.push(segment(id, rule));
        }
        segments.push(
            segment(
                crate::text::owned("fast_activation"),
                crate::text::owned("activation_days <= 7 AND support_tickets_30d <= 2"),
            ),
        );
        proof {
            assert(segment_views(segments@) =~= promoted_segments(input.accounts@));
        }
        let anti = vec![
            crate::text::owned("churned == true"),
            crate::text::owned("support_tickets_30d > 8"),
            crate::text::owned("activation_days > 30"),
        ];
        proof {
            assert(strs(anti@) =~= seq!["churned == true"@, "support_tickets_30d > 8"@, "activation_days > 30"@]);
        }
        let drifted = all_unpromoted(&input.current_segment_ids, &segments);
        let dimensions = if drifted {
            vec![crate::text::owned("segment_membership"), crate::text::owned("conversion_signal_weight")]
        } else {
            Vec::new()
        };
        proof {
            assert(strs(dimensions@) =~= (if drifted { seq!["segment_membership"@, "conversion_signal_weight"@] } else { Seq::<Seq<char>>::empty() }));
        }
        let now = crate::gtm::ids::now_ms();
        let drift_report = DriftReport {
            drift_detected: drifted,
            drift_dimensions: dimensions,
            recommended_retrain_date: Some(now + 30 * DAY_MS),
        };
        let top = if icp_scores.len() > 0 {
            Some(icp_scores[0].score_0_100)
        } else {
            None
        };
        proof {
            lemma_sort_len(unsorted);
        }
        let mut events: Vec<EventEnvelope> = Vec::new();
        events.push(
            make_event(
                &envelope,
                AgentId::RachelIcpScout,
                "icp.score.updated",
                SubjectType::Objective,
                envelope.objective_id,
                EventPayload::IcpScoreSummary { score_count: icp_scores.len(), top_score: top },
            ),
        );
        let mut j: usize = 0;
        while j < segments.len()
            invariant
                j <= segments@.len(),
                events@.len() == 1 + j,
                event_is(events@[0], envelope, AgentId::RachelIcpScout, "icp.score.updated"@, SubjectType::Objective, envelope.objective_id,
                    EventPayload::IcpScoreSummary { score_count: n, top_score: top }),
                forall|k: int| 0 <= k < j ==> event_is(#[trigger] events@[1 + k], envelope, AgentId::RachelIcpScout, "icp.segment.promoted"@, SubjectType::Objective, envelope.objective_id, EventPayload::SegmentDefinition(k as usize)),
            decreases segments@.len() - j,
        {
            events.push(
                make_event(
                    &envelope,
                    AgentId::RachelIcpScout,
                    "icp.segment.promoted",
                    SubjectType::Objective,
                    envelope.objective_id,
                    EventPayload::SegmentDefinition(j),
                ),
            );
            j = j + 1;
        }
        events.push(
            make_event(
                &envelope,
                AgentId::RachelIcpScout,
                "icp.anti_segment.updated",
                SubjectType::Objective,
                envelope.objective_id,
                EventPayload::AntiSegmentRules,
            ),
        );
        if drifted {
            events.push(
                make_event(
                    &envelope,
                    AgentId::RachelIcpScout,
                    "icp.drift.detected",
                    SubjectType::Objective,
                    envelope.objective_id,
                    EventPayload::DriftReport,
                ),
            );
        }
        let needs_human = n < input.min_sample_size;
        let errors = if needs_human {
            let mut m = crate::text::owned("insufficient sample size: ");
            let a = crate::number::usize_to_string(n);
            let b = crate::number::usize_to_string(input.min_sample_size);
            m.append(a.as_str());
            m.append(" < ");
            m.append(b.as_str());
            vec![m]
        } else {
            Vec::new()
        };
        proof {
            assert(strs(errors@) =~= (if needs_human {
                seq!["insufficient sample size: "@ + decimal(n as nat) + " < "@ + decimal(input.min_sample_size as nat)]
            } else {
                Seq::<Seq<char>>::empty()
            }));
        }
        let output = IcpScoutOutput {
            icp_scores,
            segment_definitions: segments,
            anti_icp_rules: anti,
            drift_report,
        };
        Ok(AgentTaskResult {
            task_id: envelope.task_id,
            status: if needs_human {
                TaskStatus::NeedsHuman
            } else {
                TaskStatus::Succeeded
            },
            schema_version: crate::text::owned(GTM_SCHEMA_VERSION),
            output_payload: output,
            emitted_events: events,
            evidence_refs: crate::text::clone_strings(&envelope.input_refs),
            next_action: if needs_human {
                crate::text::owned("Collect more won/lost and activation samples before promoting ICP tiers")
            } else {
                crate::text::owned("Publish promoted segments to outbound sequencing")
            },
            errors,
        })
    }
}

proof fn lemma_insert_len(s: Seq<IcpScore>, x: IcpScore)
    ensures
        insert_by_score(s, x).len() == s.len() + 1,
    decreases s.len(),
{
    if s.len() > 0 && s[0].score_0_100 >= x.score_0_100 {
        lemma_insert_len(s.drop_first(), x);
    }
}

proof fn lemma_sort_len(s: Seq<IcpScore>)
    ensures
        sort_by_score(s).len() == s.len(),
    decreases s.len(),
{
    if s.len() > 0 {
        lemma_sort_len(s.drop_last());
        lemma_insert_len(sort_by_score(s.drop_last()), s.last());
    }
}


/// Entries are in non-increasing order of score.
pub open spec fn by_score_desc(s: Seq<IcpScore>) -> bool {
    forall|i: int, j: int| 0 <= i < j < s.len() ==> (#[trigger] s[i]).score_0_100 >= (#[trigger] s[j]).score_0_100
}

proof fn lemma_insert_by_score_bound(s: Seq<IcpScore>, x: IcpScore, y: u8)
    requires
        forall|j: int| 0 <= j < s.len() ==> y >= (#[trigger] s[j]).score_0_100,
        y >= x.score_0_100,
    ensures
        forall|k: int| 0 <= k < insert_by_score(s, x).len() ==> y >= (#[trigger] insert_by_score(s, x)[k]).score_0_100,
    decreases s.len(),
{
    let r = insert_by_score(s, x);
    if s.len() > 0 && s[0].score_0_100 >= x.score_0_100 {
        let t = s.drop_first();
        lemma_insert_by_score_bound(t, x, y);
        assert forall|k: int| 0 <= k < r.len() implies y >= (#[trigger] r[k]).score_0_100 by {
            if k > 0 {
                assert(r[k] == insert_by_score(t, x)[k - 1]);
            }
        }
    } else if s.len() > 0 {
        assert forall|k: int| 0 <= k < r.len() implies y >= (#[trigger] r[k]).score_0_100 by {
            if k > 0 {
                assert(r[k] == s[k - 1]);
            }
        }
    }
}

proof fn lemma_insert_by_score_sorted(s: Seq<IcpScore>, x: IcpScore)
    requires
        by_score_desc(s),
    ensures
        by_score_desc(insert_by_score(s, x)),
        insert_by_score(s, x).to_multiset() == s.to_multiset().insert(x),
    decreases s.len(),
{
    broadcast use vstd::seq_lib::to_multiset_build, vstd::seq_lib::lemma_multiset_commutative,
        vstd::seq_lib::group_to_multiset_ensures, vstd::multiset::group_multiset_axioms;
    assert(seq![x] =~= Seq::<IcpScore>::empty().push(x));
    assert(Seq::<IcpScore>::empty().to_multiset() =~= vstd::multiset::Multiset::<IcpScore>::empty());
    let r = insert_by_score(s, x);
    if s.len() > 0 {
        let t = s.drop_first();
        assert(s =~= seq![s[0]] + t);
        assert(seq![s[0]] =~= Seq::<IcpScore>::empty().push(s[0]));
        if s[0].score_0_100 < x.score_0_100 {
            assert forall|i: int, j: int| 0 <= i < j < r.len() implies (#[trigger] r[i]).score_0_100 >= (#[trigger] r[j]).score_0_100 by {
                assert(r[j] == s[j - 1]);
                if i > 0 {
                    assert(r[i] == s[i - 1]);
                }
            }
        } else {
            assert(by_score_desc(t)) by {
                assert forall|i: int, j: int| 0 <= i < j < t.len() implies (#[trigger] t[i]).score_0_100 >= (#[trigger] t[j]).score_0_100 by {
                    assert(t[i] == s[i + 1] && t[j] == s[j + 1]);
                }
            }
            lemma_insert_by_score_sorted(t, x);
            assert forall|j: int| 0 <= j < t.len() implies s[0].score_0_100 >= (#[trigger] t[j]).score_0_100 by {
                assert(t[j] == s[j + 1]);
            }
            lemma_insert_by_score_bound(t, x, s[0].score_0_100);
            let u = insert_by_score(t, x);
            assert forall|i: int, j: int| 0 <= i < j < r.len() implies (#[trigger] r[i]).score_0_100 >= (#[trigger] r[j]).score_0_100 by {
                assert(r[j] == u[j - 1]);
                if i > 0 {
                    assert(r[i] == u[i - 1]);
                }
            }
        }
    }
    assert(r.to_multiset() =~= s.to_multiset().insert(x));
}

/// The scored accounts come out with the best score first and keep every
/// entry: the order is non-increasing and nothing is added or lost.
pub proof fn lemma_sort_by_score_ordered(s: Seq<IcpScore>)
    ensures
        by_score_desc(sort_by_score(s)),
        sort_by_score(s).to_multiset() == s.to_multiset(),
    decreases s.len(),
{
    broadcast use vstd::seq_lib::to_multiset_build;
    if s.len() > 0 {
        lemma_sort_by_score_ordered(s.drop_last());
        lemma_insert_by_score_sorted(sort_by_score(s.drop_last()), s.last());
        assert(s =~= s.drop_last().push(s.last()));
    } else {
        assert(sort_by_score(s) =~= s);
    }
}

/// Rank of a claim risk: low before medium before high.
pub open spec fn risk_rank(r: ClaimRisk) -> int {
    match r {
        ClaimRisk::Low => 0,
        ClaimRisk::Medium => 1,
        ClaimRisk::High => 2,
    }
}

pub fn claim_risk_rank(risk: ClaimRisk) -> (r: u8)
    ensures
        r == risk_rank(risk),
{
    match risk {
        ClaimRisk::Low => 0,
        ClaimRisk::Medium => 1,
        ClaimRisk::High => 2,
    }
}

/// Position of the first variant of lowest risk (`min_by_key`).
pub open spec fn safest_variant(v: Seq<MessageVariant>) -> int
    decreases v.len(),
{
    if v.len() <= 1 {
        0
    } else {
        let b = safest_variant(v.drop_last());
        if risk_rank(v.last().claim_risk) < risk_rank(v[b].claim_risk) {
            v.len() - 1
        } else {
            b
        }
    }
}

/// The safest variant has the lowest claim risk, and is the first with it.
pub proof fn lemma_safest_variant(v: Seq<MessageVariant>)
    requires
        v.len() > 0,
    ensures
        0 <= safest_variant(v) < v.len(),
        forall|i: int| 0 <= i < v.len() ==> risk_rank(v[safest_variant(v)].claim_risk) <= risk_rank(#[trigger] v[i].claim_risk),
        forall|i: int| 0 <= i < safest_variant(v) ==> risk_rank(v[safest_variant(v)].claim_risk) < risk_rank(#[trigger] v[i].claim_risk),
    decreases v.len(),
{
    if v.len() > 1 {
        lemma_safest_variant(v.drop_last());
        assert forall|i: int| 0 <= i < v.len() - 1 implies #[trigger] v[i] == v.drop_last()[i] by {}
    }
}

/// Position of the variant the outbound agents use.
pub fn select_variant(variants: &Vec<MessageVariant>) -> (k: usize)
    requires
        variants@.len() > 0,
    ensures
        k == safest_variant(variants@),
{
    let ghost vs = variants@;
    let mut best: usize = 0;
    let mut i: usize = 1;
    while i < variants.len()
        invariant
            1 <= i <= variants@.len(),
            vs == variants@,
            best == safest_variant(vs.take(i as int)),
            best < i,
        decreases variants@.len() - i,
    {
        proof {
            let t = vs.take(i + 1);
            assert(t.drop_last() =~= vs.take(i as int));
            assert(t.last() == vs[i as int]);
            assert(t[best as int] == vs[best as int]);
        }
        if claim_risk_rank(variants[i].claim_risk) < claim_risk_rank(variants[best].claim_risk) {
            best = i;
        }
        i = i + 1;
    }
    proof {
        assert(vs.take(variants@.len() as int) =~= vs);
    }
    best
}

/// The outbound channel: the first enabled of email, LinkedIn ads and
/// LinkedIn DM, then HubSpot workflows, that the policy allows.
pub open spec fn channel_candidates(input: OutboundSdrInput) -> Seq<GtmChannel> {
    (if input.channel_policy.email_enabled { seq![GtmChannel::Email] } else { Seq::empty() })
        + (if input.channel_policy.linkedin_ads_enabled { seq![GtmChannel::LinkedinAds] } else { Seq::empty() })
        + (if input.channel_policy.linkedin_dm_enabled { seq![GtmChannel::LinkedinDm] } else { Seq::empty() })
        + seq![GtmChannel::HubspotWorkflow]
}

pub open spec fn first_allowed(c: Seq<GtmChannel>, allowed: Seq<GtmChannel>) -> Option<GtmChannel>
    decreases c.len(),
{
    if c.len() == 0 {
        None
    } else if allowed.contains(c[0]) {
        Some(c[0])
    } else {
        first_allowed(c.drop_first(), allowed)
    }
}

pub open spec fn outbound_channel(e: AgentTaskEnvelope, input: OutboundSdrInput) -> Option<GtmChannel> {
    first_allowed(channel_candidates(input), e.policy_pack.allowed_channels@)
}

fn allows(allowed: &Vec<GtmChannel>, c: GtmChannel) -> (r: bool)
    ensures
        r == allowed@.contains(c),
{
    let mut i: usize = 0;
    while i < allowed.len()
        invariant
            i <= allowed@.len(),
            forall|k: int| 0 <= k < i ==> allowed@[k] != c,
        decreases allowed@.len() - i,
    {
        if allowed[i] == c {
            return true;
        }
        i = i + 1;
    }
    false
}

/// The channel the outbound sequence uses, if any is allowed.
pub fn select_channel(envelope: &AgentTaskEnvelope, input: &OutboundSdrInput) -> (r: Option<GtmChannel>)
    ensures
        r == outbound_channel(*envelope, *input),
{
    let mut candidates: Vec<GtmChannel> = Vec::new();
    if input.channel_policy.email_enabled {
        candidates.push(GtmChannel::Email);
    }
    if input.channel_policy.linkedin_ads_enabled {
        candidates.push(GtmChannel::LinkedinAds);
    }
    if input.channel_policy.linkedin_dm_enabled {
        candidates.push(GtmChannel::LinkedinDm);
    }
    candidates.push(GtmChannel::HubspotWorkflow);
    let ghost cs = candidates@;
    proof {
        assert(cs =~= channel_candidates(*input));
        assert(cs.skip(0) =~= cs);
    }
    let mut i: usize = 0;
    while i < candidates.len()
        invariant
            i <= candidates@.len(),
            cs == candidates@,
            cs == channel_candidates(*input),
            first_allowed(cs, envelope.policy_pack.allowed_channels@) == first_allowed(cs.skip(i as int), envelope.policy_pack.allowed_channels@),
        decreases candidates@.len() - i,
    {
        proof {
            assert(cs.skip(i as int)[0] == cs[i as int]);
            assert(cs.skip(i as int).drop_first() =~= cs.skip(i + 1));
        }
        if allows(&envelope.policy_pack.allowed_channels, candidates[i]) {
            proof {
                assert(cs.skip(i as int).len() > 0);
                assert(first_allowed(cs.skip(i as int), envelope.policy_pack.allowed_channels@) == Some(cs[i as int]));
            }
            return Some(candidates[i]);
        }
        i = i + 1;
    }
    proof {
        assert(cs.skip(i as int) =~= Seq::<GtmChannel>::empty());
    }
    None
}

/// Number of touches in a sequence: the policy's maximum, between 1 and 6.
pub open spec fn touch_count(max_touches: u8) -> int {
    if max_touches < 1 {
        1
    } else if max_touches > 6 {
        6
    } else {
        max_touches as int
    }
}

/// Whether a sequence is drafted as it should be.
pub open spec fn sequence_is(d: SequenceDraft, e: AgentTaskEnvelope, input: OutboundSdrInput, channel: GtmChannel, template: Seq<char>) -> bool {
    &&& d.sequence_id@ == "seq-"@ + uuid_simple_text(e.task_id)
    &&& d.channel == channel
    &&& d.touches@.len() == touch_count(input.sequence_policy.max_touches)
    &&& forall|i: int| 0 <= i < d.touches@.len() ==> {
        let t = #[trigger] d.touches@[i];
        &&& t.touch_number == i + 1
        &&& t.offset_days == i * input.sequence_policy.cadence_days
        &&& t.channel == channel
        &&& t.template_id@ == template
    }
}

/// Everything the outbound agent's result states (send times are the
/// clock's, five minutes apart).
pub open spec fn outbound_result(e: AgentTaskEnvelope, input: OutboundSdrInput, r: AgentTaskResult<OutboundSdrOutput>) -> bool {
    let o = r.output_payload;
    let channel = outbound_channel(e, input);
    let vs = input.message_bundle.variants@;
    let missing = channel is None || vs.len() == 0;
    let variant = vs[safest_variant(vs)];
    let approval = e.policy_pack.human_approval_required || variant.claim_risk == ClaimRisk::High;
    &&& r.task_id == e.task_id
    &&& r.schema_version@ == GTM_SCHEMA_VERSION@
    &&& strs(r.errors@) == (if channel is None { seq!["no outbound channel available after applying policy and channel settings"@] } else { Seq::empty() })
        + (if vs.len() == 0 { seq!["message bundle has no variants"@] } else { Seq::empty() })
    &&& strs(r.evidence_refs@) == seq!["segment:"@ + input.message_bundle.segment_id@]
    &&& o.reply_classifications@.len() == 0
    &&& o.handoffs@.len() == 0
    &&& missing ==> {
        &&& o.sequence_draft is None
        &&& o.personalization_fields_used@.len() == 0
        &&& o.send_requests@.len() == 0
        &&& r.emitted_events@.len() == 0
        &&& r.status == TaskStatus::Failed
        &&& r.next_action@ == "Fix channel policy and message variant configuration"@
    }
    &&& !missing ==> {
        &&& o.sequence_draft matches Some(d) && sequence_is(d, e, input, channel.unwrap(), variant.template_id@)
        &&& strs(o.personalization_fields_used@) == seq!["first_name"@, "company_name"@, "job_title"@]
        &&& (approval ==> o.send_requests@.len() == 0)
        &&& (!approval ==> o.send_requests@.len() == input.segment_manifest@.len() && forall|i: int| 0 <= i < o.send_requests@.len() ==> {
            &&& (#[trigger] o.send_requests@[i]).recipient_id == input.segment_manifest@[i].recipient_id
            &&& o.send_requests@[i].template_id@ == variant.template_id@
        })
        &&& r.emitted_events@.len() == 2
        &&& event_is(r.emitted_events@[0], e, AgentId::RachelOutboundSdr, "outbound.sequence.drafted"@, SubjectType::Campaign, e.objective_id, EventPayload::SequenceDraft)
        &&& (approval ==> (r.emitted_events@[1].payload matches EventPayload::Approval(a) && event_is(r.emitted_events@[1], e, AgentId::RachelOutboundSdr, "approval.requested"@, SubjectType::Campaign, e.objective_id, EventPayload::Approval(a))
            && approval_view(a) == (if variant.claim_risk == ClaimRisk::High {
                "Selected copy variant has high claim risk"@
            } else {
                "Policy pack requires human approval before send"@
            }, "high"@, "gtm_ops"@)))
        &&& (!approval ==> event_is(r.emitted_events@[1], e, AgentId::RachelOutboundSdr, "outbound.send.requested"@, SubjectType::Campaign, e.objective_id,
            EventPayload::SendSummary { segment_size: input.segment_manifest@.len() as usize, send_request_count: input.segment_manifest@.len() as usize, channel: channel.unwrap() }))
        &&& r.status == (if approval { TaskStatus::NeedsHuman } else { TaskStatus::Succeeded })
        &&& r.next_action@ == (if approval {
            "Wait for human approval, then enqueue outbound send requests"@
        } else {
            "Dispatch send requests and start reply classification loop"@
        })
    }
}

/// What the outbound agent's arithmetic needs: offsets of the touches fit
/// in 16 bits, and every send time, five minutes apart from the clock
/// reading, stays in `i64` milliseconds.
pub open spec fn outbound_in_range(input: OutboundSdrInput) -> bool {
    &&& (touch_count(input.sequence_policy.max_touches) - 1) * input.sequence_policy.cadence_days <= u16::MAX
    &&& input.segment_manifest@.len() <= crate::gtm::ids::MAX_FIVE_MINUTE_STEPS
}

fn build_touches(count: u8, cadence: u16, channel: GtmChannel, template: &String) -> (r: Vec<SequenceTouch>)
    requires
        1 <= count <= 6,
        (count - 1) * cadence <= u16::MAX,
    ensures
        r@.len() == count,
        forall|i: int| 0 <= i < r@.len() ==> {
            let t = #[trigger] r@[i];
            &&& t.touch_number == i + 1
            &&& t.offset_days == i * cadence
            &&& t.channel == channel
            &&& t.template_id@ == template@
        },
{
    let mut touches: Vec<SequenceTouch> = Vec::new();
    let mut idx: u8 = 0;
    while idx < count
        invariant
            idx <= count <= 6,
            (count - 1) * cadence <= u16::MAX,
            touches@.len() == idx,
            forall|i: int| 0 <= i < idx ==> {
                let t = #[trigger] touches@[i];
                &&& t.touch_number == i + 1
                &&& t.offset_days == i * cadence
                &&& t.channel == channel
                &&& t.template_id@ == template@
            },
        decreases count - idx,
    {
        proof {
            assert(idx * cadence <= (count - 1) * cadence) by (nonlinear_arith)
                requires
                    idx <= count - 1,
            ;
        }
        touches.push(SequenceTouch {
            touch_number: idx + 1,
            offset_days: (idx as u16) * cadence,
            channel,
            template_id: template.clone(),
        });
        idx = idx + 1;
    }
    touches
}

impl Phase1AgentEngine {
    /// Drafts the outbound sequence on the first allowed channel with the
    /// safest copy variant, and requests sends unless the policy or a
    /// high-risk claim calls for approval first.
    pub fn run_outbound_sdr(&self, envelope: AgentTaskEnvelope, input: OutboundSdrInput) -> (r: Result<
        AgentTaskResult<OutboundSdrOutput>,
        GtmAgentError,
    >)
        requires
            outbound_in_range(input),
        ensures
            r matches Ok(res) && outbound_result(envelope, input, res),
    {
        let selected_channel = select_channel(&envelope, &input);
        let has_variant = input.message_bundle.variants.len() > 0;
        let mut errors: Vec<String> = Vec::new();
        if selected_channel.is_none() {
            errors.push(crate::text::owned("no outbound channel available after applying policy and channel settings"));
        }
        if !has_variant {
            errors.push(crate::text::owned("message bundle has no variants"));
        }
        proof {
            assert(strs(errors@) =~= (if selected_channel is None { seq!["no outbound channel available after applying policy and channel settings"@] } else { Seq::<Seq<char>>::empty() })
                + (if !has_variant { seq!["message bundle has no variants"@] } else { Seq::<Seq<char>>::empty() }));
        }
        let evidence = vec![crate::text::concat2("segment:", input.message_bundle.segment_id.as_str())];
        proof {
            assert(strs(evidence@) =~= seq!["segment:"@ + input.message_bundle.segment_id@]);
        }
        if selected_channel.is_none() || !has_variant {
            return Ok(AgentTaskResult {
                task_id: envelope.task_id,
                status: TaskStatus::Failed,
                schema_version: crate::text::owned(GTM_SCHEMA_VERSION),
                output_payload: OutboundSdrOutput {
                    sequence_draft: None,
                    personalization_fields_used: Vec::new(),
                    send_requests: Vec::new(),
                    reply_classifications: Vec::new(),
                    handoffs: Vec::new(),
                },
                emitted_events: Vec::new(),
                evidence_refs: evidence,
                next_action: crate::text::owned("Fix channel policy and message variant configuration"),
                errors,
            });
        }
        let channel = selected_channel.unwrap();
        let k = select_variant(&input.message_bundle.variants);
        proof {
            lemma_safest_variant(input.message_bundle.variants@);
        }
        let variant = &input.message_bundle.variants[k];
        let max_touches = input.sequence_policy.max_touches;
        let count: u8 = if max_touches < 1 {
            1
        } else if max_touches > 6 {
            6
        } else {
            max_touches
        };
        let touches = build_touches(count, input.sequence_policy.cadence_days, channel, &variant.template_id);
        let simple = crate::gtm::ids::uuid_simple(envelope.task_id);
        let draft = SequenceDraft { sequence_id: crate::text::concat2("seq-", simple.as_str()), touches, channel };
        let high_risk = variant.claim_risk == ClaimRisk::High;
        let needs_approval = envelope.policy_pack.human_approval_required || high_risk;
        let mut sends: Vec<SendRequest> = Vec::new();
        if !needs_approval {
            let mut i: usize = 0;
            while i < input.segment_manifest.len()
                invariant
                    i <= input.segment_manifest@.len(),
                    input.segment_manifest@.len() <= crate::gtm::ids::MAX_FIVE_MINUTE_STEPS,
                    sends@.len() == i,
                    forall|j: int| 0 <= j < i ==> {
                        &&& (#[trigger] sends@[j]).recipient_id == input.segment_manifest@[j].recipient_id
                        &&& sends@[j].template_id@ == variant.template_id@
                    },
                decreases input.segment_manifest@.len() - i,
            {
                let now = crate::gtm::ids::now_ms();
                let offset: i64 = (i as i64) * 5 * MINUTE_MS;
                sends.push(SendRequest {
                    recipient_id: input.segment_manifest[i].recipient_id,
                    template_id: variant.template_id.clone(),
                    send_at: now + offset,
                });
                i = i + 1;
            }
        }
        let mut events: Vec<EventEnvelope> = Vec::new();
        events.push(
            make_event(
                &envelope,
                AgentId::RachelOutboundSdr,
                "outbound.sequence.drafted",
                SubjectType::Campaign,
                envelope.objective_id,
                EventPayload::SequenceDraft,
            ),
        );
        if needs_approval {
            let reason = if high_risk {
                "Selected copy variant has high claim risk"
            } else {
                "Policy pack requires human approval before send"
            };
            events.push(
                make_event(
                    &envelope,
                    AgentId::RachelOutboundSdr,
                    "approval.requested",
                    SubjectType::Campaign,
                    envelope.objective_id,
                    EventPayload::Approval(approval(reason, "high", "gtm_ops")),
                ),
            );
        } else {
            events.push(
                make_event(
                    &envelope,
                    AgentId::RachelOutboundSdr,
                    "outbound.send.requested",
                    SubjectType::Campaign,
                    envelope.objective_id,
                    EventPayload::SendSummary {
                        segment_size: input.segment_manifest.len(),
                        send_request_count: sends.len(),
                        channel,
                    },
                ),
            );
        }
        let fields = vec![
            crate::text::owned("first_name"),
            crate::text::owned("company_name"),
            crate::text::owned("job_title"),
        ];
        proof {
            assert(strs(fields@) =~= seq!["first_name"@, "company_name"@, "job_title"@]);
        }
        let output = OutboundSdrOutput {
            sequence_draft: Some(draft),
            personalization_fields_used: fields,
            send_requests: sends,
            reply_classifications: Vec::new(),
            handoffs: Vec::new(),
        };
        Ok(AgentTaskResult {
            task_id: envelope.task_id,
            status: if needs_approval {
                TaskStatus::NeedsHuman
            } else {
                TaskStatus::Succeeded
            },
            schema_version: crate::text::owned(GTM_SCHEMA_VERSION),
            output_payload: output,
            emitted_events: events,
            evidence_refs: evidence,
            next_action: if needs_approval {
                crate::text::owned("Wait for human approval, then enqueue outbound send requests")
            } else {
                crate::text::owned("Dispatch send requests and start reply classification loop")
            },
            errors,
        })
    }
}


/// The theme a piece of feedback is about, by the words it holds (ASCII
/// case ignored).
pub open spec fn theme_of(text: Seq<char>) -> Seq<char> {
    let n = lower_seq(text);
    if contains(n, "onboard"@) || contains(n, "activation"@) || contains(n, "setup"@) {
        "onboarding friction"@
    } else if contains(n, "integrat"@) || contains(n, "api"@) || contains(n, "webhook"@) || contains(n, "hubspot"@) {
        "integration gap"@
    } else if contains(n, "price"@) || contains(n, "pricing"@) || contains(n, "budget"@) {
        "pricing objection"@
    } else if contains(n, "deliverability"@) || contains(n, "spam"@) || contains(n, "unsubscribe"@) {
        "outbound quality"@
    } else {
        "feature discoverability"@
    }
}

/// The theme of a piece of feedback.
pub fn classify_feedback_theme(text: &str) -> (r: &'static str)
    ensures
        r@ == theme_of(text@),
{
    let n = crate::text::lower_str(text);
    let n = n.as_str();
    if crate::text::str_contains(n, "onboard") || crate::text::str_contains(n, "activation") || crate::text::str_contains(n, "setup") {
        "onboarding friction"
    } else if crate::text::str_contains(n, "integrat") || crate::text::str_contains(n, "api") || crate::text::str_contains(n, "webhook")
        || crate::text::str_contains(n, "hubspot") {
        "integration gap"
    } else if crate::text::str_contains(n, "price") || crate::text::str_contains(n, "pricing") || crate::text::str_contains(n, "budget") {
        "pricing objection"
    } else if crate::text::str_contains(n, "deliverability") || crate::text::str_contains(n, "spam") || crate::text::str_contains(n, "unsubscribe") {
        "outbound quality"
    } else {
        "feature discoverability"
    }
}

/// The persona a theme speaks for.
pub open spec fn persona_of(theme: Seq<char>) -> Seq<char> {
    if theme == "integration gap"@ {
        "operations lead"@
    } else if theme == "pricing objection"@ {
        "budget owner"@
    } else if theme == "onboarding friction"@ {
        "new champion"@
    } else if theme == "outbound quality"@ {
        "demand generation manager"@
    } else {
        "growth manager"@
    }
}

pub fn persona_for_theme(theme: &str) -> (r: &'static str)
    ensures
        r@ == persona_of(theme@),
{
    if crate::text::str_eq(theme, "integration gap") {
        "operations lead"
    } else if crate::text::str_eq(theme, "pricing objection") {
        "budget owner"
    } else if crate::text::str_eq(theme, "onboarding friction") {
        "new champion"
    } else if crate::text::str_eq(theme, "outbound quality") {
        "demand generation manager"
    } else {
        "growth manager"
    }
}

/// The effort a theme's fix takes, in hundredths of the full scale.
pub open spec fn effort_percent_of(theme: Seq<char>) -> u32 {
    if theme == "integration gap"@ {
        80
    } else if theme == "onboarding friction"@ {
        55
    } else if theme == "pricing objection"@ {
        45
    } else if theme == "outbound quality"@ {
        50
    } else {
        60
    }
}

pub fn effort_percent_for_theme(theme: &str) -> (r: u32)
    ensures
        r == effort_percent_of(theme@),
{
    if crate::text::str_eq(theme, "integration gap") {
        80
    } else if crate::text::str_eq(theme, "onboarding friction") {
        55
    } else if crate::text::str_eq(theme, "pricing objection") {
        45
    } else if crate::text::str_eq(theme, "outbound quality") {
        50
    } else {
        60
    }
}

/// What the priority score of one PRD is computed from: the effort of its
/// theme, how often the theme occurred, and how many user groups it reaches
/// (at least one).
#[derive(Debug, Clone)]
pub struct PriorityBasis {
    pub prd_id: String,
    pub effort_percent: u32,
    pub frequency: u32,
    pub reach_users: usize,
}

/// The basis of the `i`-th PRD's score, from the cluster it was drafted for.
pub open spec fn basis_for(b: PriorityBasis, c: InsightCluster, d: PrdDraft) -> bool {
    &&& b.prd_id@ == d.prd_id@
    &&& b.effort_percent == effort_percent_of(c.theme@)
    &&& b.frequency == c.frequency
    &&& b.reach_users == (if d.users@.len() == 0 { 1 } else { d.users@.len() })
}

/// The score bases of the PRDs of a feedback synthesis, one per PRD, each
/// from the cluster at the same position.
pub fn priority_bases(output: &FeedbackPrdOutput) -> (r: Vec<PriorityBasis>)
    ensures
        r@.len() == (if output.insight_clusters@.len() < output.prd_drafts@.len() {
            output.insight_clusters@.len()
        } else {
            output.prd_drafts@.len()
        }),
        forall|i: int| 0 <= i < r@.len() ==> basis_for(#[trigger] r@[i], output.insight_clusters@[i], output.prd_drafts@[i]),
{
    let n: usize = if output.insight_clusters.len() < output.prd_drafts.len() {
        output.insight_clusters.len()
    } else {
        output.prd_drafts.len()
    };
    let mut r: Vec<PriorityBasis> = Vec::new();
    let mut i: usize = 0;
    while i < n
        invariant
            i <= n,
            n <= output.insight_clusters@.len(),
            n <= output.prd_drafts@.len(),
            r@.len() == i,
            forall|k: int| 0 <= k < i ==> basis_for(#[trigger] r@[k], output.insight_clusters@[k], output.prd_drafts@[k]),
        decreases n - i,
    {
        let c = &output.insight_clusters[i];
        let d = &output.prd_drafts[i];
        let users = d.users.len();
        r.push(PriorityBasis {
            prd_id: d.prd_id.clone(),
            effort_percent: effort_percent_for_theme(c.theme.as_str()),
            frequency: c.frequency,
            reach_users: if users == 0 { 1 } else { users },
        });
        i = i + 1;
    }
    r
}

/// The themes in the order clusters are first listed (alphabetical).
pub open spec fn themes() -> Seq<Seq<char>> {
    seq!["feature discoverability"@, "integration gap"@, "onboarding friction"@, "outbound quality"@, "pricing objection"@]
}

/// Where a piece of feedback can be looked up.
pub open spec fn evidence_of(item: FeedbackItem) -> Seq<char> {
    match item.evidence_ref {
        Some(e) => e@,
        None => "feedback:"@ + uuid_text(item.feedback_id),
    }
}

/// How many pieces of feedback are about `t`.
pub open spec fn theme_count(items: Seq<FeedbackItem>, t: Seq<char>) -> nat
    decreases items.len(),
{
    if items.len() == 0 {
        0
    } else {
        theme_count(items.drop_last(), t) + (if theme_of(items.last().text@) == t { 1nat } else { 0 })
    }
}

/// The segments feedback about `t` comes from, each once, in order of first mention.
pub open spec fn theme_segments(items: Seq<FeedbackItem>, t: Seq<char>) -> Seq<Seq<char>>
    decreases items.len(),
{
    if items.len() == 0 {
        Seq::empty()
    } else {
        let r = theme_segments(items.drop_last(), t);
        let it = items.last();
        if theme_of(it.text@) == t && it.segment_id is Some && !r.contains(it.segment_id.unwrap()@) {
            r.push(it.segment_id.unwrap()@)
        } else {
            r
        }
    }
}

/// The evidence of the feedback about `t`, in order.
pub open spec fn theme_evidence(items: Seq<FeedbackItem>, t: Seq<char>) -> Seq<Seq<char>>
    decreases items.len(),
{
    if items.len() == 0 {
        Seq::empty()
    } else {
        let r = theme_evidence(items.drop_last(), t);
        if theme_of(items.last().text@) == t {
            r.push(evidence_of(items.last()))
        } else {
            r
        }
    }
}

pub type ClusterView = (Seq<char>, Seq<char>, u32, Seq<Seq<char>>, Seq<Seq<char>>);

pub open spec fn cluster_view(c: InsightCluster) -> ClusterView {
    (c.cluster_id@, c.theme@, c.frequency, strs(c.affected_segments@), strs(c.evidence_refs@))
}

/// The cluster of theme `t`, when it has feedback and reaches the minimum size.
pub open spec fn theme_cluster(items: Seq<FeedbackItem>, t: Seq<char>, min: usize) -> Seq<ClusterView> {
    let n = theme_count(items, t);
    if n >= 1 && n >= min {
        seq![("cluster_"@ + slug(t), t, n as u32, sort_seq(theme_segments(items, t)), theme_evidence(items, t))]
    } else {
        Seq::empty()
    }
}

/// The clusters in theme order, before ranking.
pub open spec fn theme_clusters(items: Seq<FeedbackItem>, min: usize) -> Seq<ClusterView> {
    let ts = themes();
    theme_cluster(items, ts[0], min) + theme_cluster(items, ts[1], min) + theme_cluster(items, ts[2], min)
        + theme_cluster(items, ts[3], min) + theme_cluster(items, ts[4], min)
}

/// The clusters of the first `t` themes.
pub open spec fn clusters_upto(items: Seq<FeedbackItem>, min: usize, t: int) -> Seq<ClusterView>
    decreases t,
{
    if t <= 0 {
        Seq::empty()
    } else {
        clusters_upto(items, min, t - 1) + theme_cluster(items, themes()[t - 1], min)
    }
}

/// `x` placed after every cluster at least as frequent.
pub open spec fn insert_by_frequency(s: Seq<InsightCluster>, x: InsightCluster) -> Seq<InsightCluster>
    decreases s.len(),
{
    if s.len() == 0 {
        seq![x]
    } else if s[0].frequency < x.frequency {
        seq![x] + s
    } else {
        seq![s[0]] + insert_by_frequency(s.drop_first(), x)
    }
}

/// Clusters by descending frequency; equal frequencies keep their order.
pub open spec fn sort_by_frequency(s: Seq<InsightCluster>) -> Seq<InsightCluster>
    decreases s.len(),
{
    if s.len() == 0 {
        Seq::empty()
    } else {
        insert_by_frequency(sort_by_frequency(s.drop_last()), s.last())
    }
}

/// The risks of a PRD: up to two product constraints, then fixed risks.
pub open spec fn prd_risks(constraints: Seq<Seq<char>>, theme: Seq<char>) -> Seq<Seq<char>> {
    constraints.take(if constraints.len() < 2 { constraints.len() as int } else { 2 }).map_values(|c: Seq<char>| "constraint: "@ + c)
        + seq!["insufficient telemetry for "@ + theme, "cross-team dependency misalignment"@]
}

/// The job story and PRD drafted for a cluster.
pub open spec fn story_for(j: JobStory, c: InsightCluster) -> bool {
    &&& j.as_persona@ == persona_of(c.theme@)
    &&& j.when_context@ == "when "@ + c.theme@ + " keeps appearing in customer signals"@
    &&& j.i_want@ == "a clear fix plan for "@ + c.theme@
    &&& j.so_i_can@ == "improve activation and pipeline quality"@
}

pub open spec fn prd_for(p: PrdDraft, c: InsightCluster, constraints: Seq<Seq<char>>) -> bool {
    &&& p.prd_id@ == "prd_"@ + c.cluster_id@
    &&& p.problem@ == c.theme@ + " occurred "@ + decimal(c.frequency as nat) + " times across active segments"@
    &&& strs(p.users@) == (if c.affected_segments@.len() == 0 { seq!["core_gtm_segment"@] } else { strs(c.affected_segments@) })
    &&& strs(p.success_metrics@) == seq!["activation_rate_day_14"@, "meeting_to_sql_conversion"@, "support_ticket_volume"@]
    &&& strs(p.scope@) == seq!["deliver solution for "@ + c.theme@, "instrument KPI tracking"@, "publish rollout plan"@]
    &&& strs(p.risks@) == prd_risks(constraints, c.theme@)
}

/// Everything the synthesizer's result states.
pub open spec fn feedback_result(e: AgentTaskEnvelope, input: FeedbackPrdInput, r: AgentTaskResult<FeedbackPrdOutput>) -> bool {
    let o = r.output_payload;
    let items = input.feedback_items@;
    let n = o.insight_clusters@.len();
    let partial = n == 0;
    &&& r.task_id == e.task_id
    &&& r.schema_version@ == GTM_SCHEMA_VERSION@
    &&& (exists|u: Seq<InsightCluster>| u.map_values(|c: InsightCluster| cluster_view(c)) == theme_clusters(items, input.cluster_policy.min_cluster_size) && o.insight_clusters@ == sort_by_frequency(u))
    &&& o.job_stories@.len() == n
    &&& o.prd_drafts@.len() == n
    &&& forall|i: int| 0 <= i < n ==> story_for(#[trigger] o.job_stories@[i], o.insight_clusters@[i])
    &&& forall|i: int| 0 <= i < n ==> prd_for(#[trigger] o.prd_drafts@[i], o.insight_clusters@[i], strs(input.product_context.constraints@))
    &&& r.emitted_events@.len() == 1 + 2 * n
    &&& event_is(r.emitted_events@[0], e, AgentId::RachelFeedbackPrdSynthesizer, "feedback.cluster.updated"@, SubjectType::Feature, e.objective_id,
        EventPayload::FeedbackSummary { cluster_count: n as usize, feedback_count: items.len() as usize })
    &&& forall|i: int| 0 <= i < n ==> event_is(#[trigger] r.emitted_events@[1 + i], e, AgentId::RachelFeedbackPrdSynthesizer, "feedback.insight.published"@, SubjectType::Feature, e.objective_id, EventPayload::InsightCluster(i as usize))
    &&& forall|i: int| 0 <= i < n ==> event_is(#[trigger] r.emitted_events@[1 + n + i], e, AgentId::RachelFeedbackPrdSynthesizer, "prd.draft.generated"@, SubjectType::Feature, e.objective_id, EventPayload::PrdDraft(i as usize))
    &&& r.status == (if partial { TaskStatus::Partial } else { TaskStatus::Succeeded })
    &&& r.evidence_refs@ == e.input_refs@
    &&& r.next_action@ == (if partial {
        "Collect more feedback data or lower min_cluster_size to generate PRDs"@
    } else {
        "Prioritize generated PRDs and hand off to product planning"@
    })
    &&& strs(r.errors@) == (if partial { seq!["no clusters met the minimum cluster size"@] } else { Seq::empty() })
}

fn evidence_text(item: &FeedbackItem) -> (r: String)
    ensures
        r@ == evidence_of(*item),
{
    match &item.evidence_ref {
        Some(e) => e.clone(),
        None => {
            let id = crate::gtm::ids::uuid_hyphenated(item.feedback_id);
            crate::text::concat2("feedback:", id.as_str())
        },
    }
}

/// The cluster of theme `t`, if it qualifies.
fn cluster_for(items: &Vec<FeedbackItem>, t: &str, min: usize) -> (r: Option<InsightCluster>)
    requires
        items@.len() < u32::MAX,
    ensures
        match r {
            Some(c) => theme_cluster(items@, t@, min) == seq![cluster_view(c)],
            None => theme_cluster(items@, t@, min) == Seq::<ClusterView>::empty(),
        },
{
    let mut count: u32 = 0;
    let mut segments: Vec<String> = Vec::new();
    let mut evidence: Vec<String> = Vec::new();
    let mut i: usize = 0;
    proof {
        assert(items@.take(0) =~= Seq::<FeedbackItem>::empty());
    }
    while i < items.len()
        invariant
            i <= items@.len(),
            items@.len() < u32::MAX,
            count == theme_count(items@.take(i as int), t@),
            count <= i,
            strs(segments@) == theme_segments(items@.take(i as int), t@),
            strs(evidence@) == theme_evidence(items@.take(i as int), t@),
        decreases items@.len() - i,
    {
        let item = &items[i];
        proof {
            let tk = items@.take(i + 1);
            assert(tk.drop_last() =~= items@.take(i as int));
            assert(tk.last() == items@[i as int]);
        }
        let theme = classify_feedback_theme(item.text.as_str());
        if crate::text::str_eq(theme, t) {
            count = count + 1;
            if let Some(seg) = &item.segment_id {
                if !crate::text::contains_string(&segments, seg.as_str()) {
                    segments.push(seg.clone());
                    proof {
                        assert(strs(segments@) =~= theme_segments(items@.take(i as int), t@).push(seg@));
                    }
                }
            }
            evidence.push(evidence_text(item));
            proof {
                assert(strs(evidence@) =~= theme_evidence(items@.take(i as int), t@).push(evidence_of(items@[i as int])));
            }
        }
        i = i + 1;
    }
    proof {
        assert(items@.take(items@.len() as int) =~= items@);
    }
    if count >= 1 && (count as usize) >= min {
        let slugged = crate::gtm::common::slugify(t);
        let sorted = crate::order::sort_strings(segments);
        Some(InsightCluster {
            cluster_id: crate::text::concat2("cluster_", slugged.as_str()),
            theme: crate::text::owned(t),
            frequency: count,
            affected_segments: sorted,
            evidence_refs: evidence,
        })
    } else {
        None
    }
}

fn insert_cluster(sorted: &mut Vec<InsightCluster>, x: InsightCluster)
    ensures
        final(sorted)@ == insert_by_frequency(old(sorted)@, x),
{
    let ghost s0 = sorted@;
    let mut k: usize = 0;
    proof {
        assert(s0.take(0) =~= Seq::<InsightCluster>::empty());
        assert(s0.skip(0) =~= s0);
    }
    while k < sorted.len()
        invariant
            k <= sorted@.len(),
            s0 == sorted@,
            insert_by_frequency(s0, x) == s0.take(k as int) + insert_by_frequency(s0.skip(k as int), x),
        ensures
            k <= sorted@.len(),
            s0 == sorted@,
            insert_by_frequency(s0, x) == s0.take(k as int) + insert_by_frequency(s0.skip(k as int), x),
            k == sorted@.len() || sorted@[k as int].frequency < x.frequency,
        decreases sorted@.len() - k,
    {
        proof {
            assert(s0.skip(k as int)[0] == s0[k as int]);
        }
        if sorted[k].frequency < x.frequency {
            break;
        }
        proof {
            assert(s0.skip(k as int).drop_first() =~= s0.skip(k + 1));
            assert(s0.take(k + 1) =~= s0.take(k as int).push(s0[k as int]));
            assert(s0.take(k as int) + (seq![s0[k as int]] + insert_by_frequency(s0.skip(k + 1), x)) =~= s0.take(k + 1) + insert_by_frequency(s0.skip(k + 1), x));
        }
        k = k + 1;
    }
    proof {
        if k == sorted@.len() {
            assert(s0.skip(k as int) =~= Seq::<InsightCluster>::empty());
        } else {
            assert(s0.skip(k as int)[0] == s0[k as int]);
        }
    }
    sorted.insert(k, x);
    proof {
        assert(sorted@ =~= s0.take(k as int) + insert_by_frequency(s0.skip(k as int), x));
    }
}

fn job_story(c: &InsightCluster) -> (j: JobStory)
    ensures
        story_for(j, *c),
{
    JobStory {
        as_persona: crate::text::owned(persona_for_theme(c.theme.as_str())),
        when_context: crate::text::concat3("when ", c.theme.as_str(), " keeps appearing in customer signals"),
        i_want: crate::text::concat2("a clear fix plan for ", c.theme.as_str()),
        so_i_can: crate::text::owned("improve activation and pipeline quality"),
    }
}

fn derive_risks(constraints: &Vec<String>, theme: &str) -> (r: Vec<String>)
    ensures
        strs(r@) == prd_risks(strs(constraints@), theme@),
{
    let mut risks: Vec<String> = Vec::new();
    let limit: usize = if constraints.len() < 2 { constraints.len() } else { 2 };
    let ghost cs = strs(constraints@);
    let mut i: usize = 0;
    while i < limit
        invariant
            i <= limit <= constraints@.len(),
            limit == (if constraints@.len() < 2 { constraints@.len() as int } else { 2 }),
            cs == strs(constraints@),
            strs(risks@) == cs.take(i as int).map_values(|c: Seq<char>| "constraint: "@ + c),
        decreases limit - i,
    {
        risks.push(crate::text::concat2("constraint: ", constraints[i].as_str()));
        i = i + 1;
        proof {
            assert(cs.take(i as int) =~= cs.take(i - 1).push(cs[i - 1]));
            assert(cs.take(i as int).map_values(|c: Seq<char>| "constraint: "@ + c) =~= cs.take(i - 1).map_values(|c: Seq<char>| "constraint: "@ + c).push("constraint: "@ + cs[i - 1]));
            assert(strs(risks@) =~= cs.take(i as int).map_values(|c: Seq<char>| "constraint: "@ + c));
        }
    }
    risks.push(crate::text::concat2("insufficient telemetry for ", theme));
    risks.push(crate::text::owned("cross-team dependency misalignment"));
    proof {
        assert(strs(risks@) =~= prd_risks(cs, theme@));
    }
    risks
}

fn prd_draft(c: &InsightCluster, constraints: &Vec<String>) -> (p: PrdDraft)
    ensures
        prd_for(p, *c, strs(constraints@)),
{
    let users = if c.affected_segments.len() == 0 {
        vec![crate::text::owned("core_gtm_segment")]
    } else {
        crate::text::clone_strings(&c.affected_segments)
    };
    proof {
        assert(strs(users@) =~= (if c.affected_segments@.len() == 0 { seq!["core_gtm_segment"@] } else { strs(c.affected_segments@) }));
    }
    let freq = crate::number::usize_to_string(c.frequency as usize);
    let mut problem = crate::text::concat3(c.theme.as_str(), " occurred ", freq.as_str());
    problem.append(" times across active segments");
    let metrics = vec![
        crate::text::owned("activation_rate_day_14"),
        crate::text::owned("meeting_to_sql_conversion"),
        crate::text::owned("support_ticket_volume"),
    ];
    let scope = vec![
        crate::text::concat2("deliver solution for ", c.theme.as_str()),
        crate::text::owned("instrument KPI tracking"),
        crate::text::owned("publish rollout plan"),
    ];
    proof {
        assert(strs(metrics@) =~= seq!["activation_rate_day_14"@, "meeting_to_sql_conversion"@, "support_ticket_volume"@]);
        assert(strs(scope@) =~= seq!["deliver solution for "@ + c.theme@, "instrument KPI tracking"@, "publish rollout plan"@]);
    }
    PrdDraft {
        prd_id: crate::text::concat2("prd_", c.cluster_id.as_str()),
        problem,
        users,
        success_metrics: metrics,
        scope,
        risks: derive_risks(constraints, c.theme.as_str()),
    }
}

impl Phase1AgentEngine {
    /// Clusters feedback by theme, keeps the clusters that reach the minimum
    /// size, ranks them by frequency, and drafts a job story and a PRD for each.
    pub fn run_feedback_prd(&self, envelope: AgentTaskEnvelope, input: FeedbackPrdInput) -> (r: Result<
        AgentTaskResult<FeedbackPrdOutput>,
        GtmAgentError,
    >)
        requires
            input.feedback_items@.len() < u32::MAX,
        ensures
            r matches Ok(res) && feedback_result(envelope, input, res),
    {
        let min = input.cluster_policy.min_cluster_size;
        let names = ["feature discoverability", "integration gap", "onboarding friction", "outbound quality", "pricing objection"];
        let mut pre: Vec<InsightCluster> = Vec::new();
        let mut t: usize = 0;
        let ghost ts = themes();
        proof {
            reveal_strlit("feature discoverability");
        }
        while t < 5
            invariant
                t <= 5,
                input.feedback_items@.len() < u32::MAX,
                ts == themes(),
                forall|k: int| 0 <= k < 5 ==> (#[trigger] names@[k])@ == ts[k],
                pre@.map_values(|c: InsightCluster| cluster_view(c)) == clusters_upto(input.feedback_items@, min, t as int),
            decreases 5 - t,
        {
            let ghost before = pre@;
            let found = cluster_for(&input.feedback_items, names[t], min);
            if let Some(c) = found {
                pre.push(c);
            }
            proof {
                assert(pre@.map_values(|c: InsightCluster| cluster_view(c)) =~= before.map_values(|c: InsightCluster| cluster_view(c)) + theme_cluster(input.feedback_items@, ts[t as int], min));
            }
            t = t + 1;
        }
        proof {
            reveal_with_fuel(clusters_upto, 6);
            assert(pre@.map_values(|c: InsightCluster| cluster_view(c)) =~= theme_clusters(input.feedback_items@, min));
        }
        let ghost unsorted = pre@;
        let mut clusters: Vec<InsightCluster> = Vec::new();
        let mut rest = pre;
        let mut rev: Vec<InsightCluster> = Vec::new();
        while rest.len() > 0
            invariant
                rest@ + rev@.reverse() == unsorted,
            decreases rest@.len(),
        {
            let ghost br = rest@;
            let ghost bv = rev@;
            let x = rest.pop().unwrap();
            rev.push(x);
            proof {
                assert(br =~= rest@.push(x));
                assert(rev@.reverse() =~= seq![x] + bv.reverse());
                assert(rest@ + rev@.reverse() =~= unsorted);
            }
        }
        proof {
            assert(rest@ =~= Seq::<InsightCluster>::empty());
            assert(rev@.reverse() =~= unsorted);
            assert(unsorted.take(0) =~= Seq::<InsightCluster>::empty());
        }
        let total = rev.len();
        let mut i: usize = 0;
        while rev.len() > 0
            invariant
                i + rev@.len() == unsorted.len(),
                unsorted.len() == total,
                rev@.reverse() == unsorted.skip(i as int),
                clusters@ == sort_by_frequency(unsorted.take(i as int)),
            decreases rev@.len(),
        {
            let ghost bv = rev@;
            let x = rev.pop().unwrap();
            proof {
                assert(bv =~= rev@.push(x));
                assert(bv.reverse() =~= seq![x] + rev@.reverse());
                assert(unsorted.skip(i as int)[0] == x);
                assert(unsorted.skip(i + 1) =~= unsorted.skip(i as int).drop_first());
                assert((seq![x] + rev@.reverse()).drop_first() =~= rev@.reverse());
                assert(unsorted.take(i + 1).drop_last() =~= unsorted.take(i as int));
                assert(unsorted.take(i + 1).last() == x);
            }
            insert_cluster(&mut clusters, x);
            i = i + 1;
        }
        proof {
            assert(unsorted.take(unsorted.len() as int) =~= unsorted);
        }
        let n = clusters.len();
        let mut stories: Vec<JobStory> = Vec::new();
        let mut drafts: Vec<PrdDraft> = Vec::new();
        let mut k: usize = 0;
        while k < n
            invariant
                k <= n,
                n == clusters@.len(),
                stories@.len() == k,
                drafts@.len() == k,
                forall|j: int| 0 <= j < k ==> story_for(#[trigger] stories@[j], clusters@[j]),
                forall|j: int| 0 <= j < k ==> prd_for(#[trigger] drafts@[j], clusters@[j], strs(input.product_context.constraints@)),
            decreases n - k,
        {
            stories.push(job_story(&clusters[k]));
            drafts.push(prd_draft(&clusters[k], &input.product_context.constraints));
            k = k + 1;
        }
        let mut events: Vec<EventEnvelope> = Vec::new();
        events.push(
            make_event(
                &envelope,
                AgentId::RachelFeedbackPrdSynthesizer,
                "feedback.cluster.updated",
                SubjectType::Feature,
                envelope.objective_id,
                EventPayload::FeedbackSummary { cluster_count: n, feedback_count: input.feedback_items.len() },
            ),
        );
        let mut j: usize = 0;
        while j < n
            invariant
                j <= n,
                events@.len() == 1 + j,
                event_is(events@[0], envelope, AgentId::RachelFeedbackPrdSynthesizer, "feedback.cluster.updated"@, SubjectType::Feature, envelope.objective_id,
                    EventPayload::FeedbackSummary { cluster_count: n, feedback_count: input.feedback_items.len() }),
                forall|q: int| 0 <= q < j ==> event_is(#[trigger] events@[1 + q], envelope, AgentId::RachelFeedbackPrdSynthesizer, "feedback.insight.published"@, SubjectType::Feature, envelope.objective_id, EventPayload::InsightCluster(q as usize)),
            decreases n - j,
        {
            events.push(
                make_event(
                    &envelope,
                    AgentId::RachelFeedbackPrdSynthesizer,
                    "feedback.insight.published",
                    SubjectType::Feature,
                    envelope.objective_id,
                    EventPayload::InsightCluster(j),
                ),
            );
            j = j + 1;
        }
        let mut m: usize = 0;
        while m < n
            invariant
                m <= n,
                events@.len() == 1 + n + m,
                event_is(events@[0], envelope, AgentId::RachelFeedbackPrdSynthesizer, "feedback.cluster.updated"@, SubjectType::Feature, envelope.objective_id,
                    EventPayload::FeedbackSummary { cluster_count: n, feedback_count: input.feedback_items.len() }),
                forall|q: int| 0 <= q < n ==> event_is(#[trigger] events@[1 + q], envelope, AgentId::RachelFeedbackPrdSynthesizer, "feedback.insight.published"@, SubjectType::Feature, envelope.objective_id, EventPayload::InsightCluster(q as usize)),
                forall|q: int| 0 <= q < m ==> event_is(#[trigger] events@[1 + n + q], envelope, AgentId::RachelFeedbackPrdSynthesizer, "prd.draft.generated"@, SubjectType::Feature, envelope.objective_id, EventPayload::PrdDraft(q as usize)),
            decreases n - m,
        {
            events.push(
                make_event(
                    &envelope,
                    AgentId::RachelFeedbackPrdSynthesizer,
                    "prd.draft.generated",
                    SubjectType::Feature,
                    envelope.objective_id,
                    EventPayload::PrdDraft(m),
                ),
            );
            m = m + 1;
        }
        let partial = n == 0;
        let errors = if partial {
            vec![crate::text::owned("no clusters met the minimum cluster size")]
        } else {
            Vec::new()
        };
        proof {
            assert(strs(errors@) =~= (if partial { seq!["no clusters met the minimum cluster size"@] } else { Seq::<Seq<char>>::empty() }));
        }
        let output = FeedbackPrdOutput { insight_clusters: clusters, job_stories: stories, prd_drafts: drafts };
        Ok(AgentTaskResult {
            task_id: envelope.task_id,
            status: if partial {
                TaskStatus::Partial
            } else {
                TaskStatus::Succeeded
            },
            schema_version: crate::text::owned(GTM_SCHEMA_VERSION),
            output_payload: output,
            emitted_events: events,
            evidence_refs: crate::text::clone_strings(&envelope.input_refs),
            next_action: if partial {
                crate::text::owned("Collect more feedback data or lower min_cluster_size to generate PRDs")
            } else {
                crate::text::owned("Prioritize generated PRDs and hand off to product planning")
            },
            errors,
        })
    }
}


/// Inputs of a phase 1 run.
#[derive(Debug, Clone)]
pub struct Phase1WorkflowInput {
    pub base_envelope: AgentTaskEnvelope,
    pub orchestrator: OrchestratorInput,
    pub icp_scout: IcpScoutInput,
    pub outbound_sdr: OutboundSdrInput,
    pub feedback_prd: FeedbackPrdInput,
}

/// Results of a phase 1 run, with all events in order.
#[derive(Debug, Clone)]
pub struct Phase1WorkflowResult {
    pub orchestrator: AgentTaskResult<OrchestratorOutput>,
    pub icp_scout: AgentTaskResult<IcpScoutOutput>,
    pub outbound_sdr: AgentTaskResult<OutboundSdrOutput>,
    pub feedback_prd: AgentTaskResult<FeedbackPrdOutput>,
    pub events: Vec<EventEnvelope>,
}

/// Inputs a phase 1 run can take.
pub open spec fn phase1_in_range(input: Phase1WorkflowInput) -> bool {
    &&& orchestrator_in_range(input.base_envelope, input.orchestrator)
    &&& input.icp_scout.accounts@.len() < u32::MAX
    &&& outbound_in_range(input.outbound_sdr)
    &&& input.feedback_prd.feedback_items@.len() < u32::MAX
}

impl Phase1AgentEngine {
    /// Runs the four agents, each on the base request handed to it, and
    /// gathers their events.
    pub fn run_workflow(&self, input: Phase1WorkflowInput) -> (r: Result<Phase1WorkflowResult, GtmAgentError>)
        requires
            phase1_in_range(input),
        ensures
            r matches Ok(res) && {
                &&& exists|e: AgentTaskEnvelope| handed_to(e, input.base_envelope, AgentId::RachelOrchestrator) && orchestrator_result(e, input.orchestrator, res.orchestrator)
                &&& exists|e: AgentTaskEnvelope| handed_to(e, input.base_envelope, AgentId::RachelIcpScout) && icp_result(e, input.icp_scout, res.icp_scout)
                &&& exists|e: AgentTaskEnvelope| handed_to(e, input.base_envelope, AgentId::RachelOutboundSdr) && outbound_result(e, input.outbound_sdr, res.outbound_sdr)
                &&& exists|e: AgentTaskEnvelope| handed_to(e, input.base_envelope, AgentId::RachelFeedbackPrdSynthesizer) && feedback_result(e, input.feedback_prd, res.feedback_prd)
                &&& res.events@ == res.orchestrator.emitted_events@ + res.icp_scout.emitted_events@ + res.outbound_sdr.emitted_events@ + res.feedback_prd.emitted_events@
            },
    {
        let e1 = input.base_envelope.with_agent(AgentId::RachelOrchestrator);
        let orchestrator = match self.run_orchestrator(e1, input.orchestrator) {
            Ok(v) => v,
            Err(e) => {
                return Err(e);
            },
        };
        let e2 = input.base_envelope.with_agent(AgentId::RachelIcpScout);
        let icp_scout = match self.run_icp_scout(e2, input.icp_scout) {
            Ok(v) => v,
            Err(e) => {
                return Err(e);
            },
        };
        let e3 = input.base_envelope.with_agent(AgentId::RachelOutboundSdr);
        let outbound_sdr = match self.run_outbound_sdr(e3, input.outbound_sdr) {
            Ok(v) => v,
            Err(e) => {
                return Err(e);
            },
        };
        let e4 = input.base_envelope.with_agent(AgentId::RachelFeedbackPrdSynthesizer);
        let feedback_prd = match self.run_feedback_prd(e4, input.feedback_prd) {
            Ok(v) => v,
            Err(e) => {
                return Err(e);
            },
        };
        let mut events: Vec<EventEnvelope> = Vec::new();
        extend_events(&mut events, &orchestrator.emitted_events);
        extend_events(&mut events, &icp_scout.emitted_events);
        extend_events(&mut events, &outbound_sdr.emitted_events);
        extend_events(&mut events, &feedback_prd.emitted_events);
        proof {
            assert(events@ =~= orchestrator.emitted_events@ + icp_scout.emitted_events@ + outbound_sdr.emitted_events@ + feedback_prd.emitted_events@);
            assert(handed_to(e1, input.base_envelope, AgentId::RachelOrchestrator) && orchestrator_result(e1, input.orchestrator, orchestrator));
            assert(handed_to(e2, input.base_envelope, AgentId::RachelIcpScout) && icp_result(e2, input.icp_scout, icp_scout));
            assert(handed_to(e3, input.base_envelope, AgentId::RachelOutboundSdr) && outbound_result(e3, input.outbound_sdr, outbound_sdr));
            assert(handed_to(e4, input.base_envelope, AgentId::RachelFeedbackPrdSynthesizer) && feedback_result(e4, input.feedback_prd, feedback_prd));
        }
        Ok(Phase1WorkflowResult { orchestrator, icp_scout, outbound_sdr, feedback_prd, events })
    }
}

} // verus!
