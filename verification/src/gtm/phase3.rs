//! Phase 3 agents: onboarding and experiment analysis.

use vstd::prelude::*;
use crate::gtm::contracts::{
    ActivationGap, AgentId, AgentTaskEnvelope, AgentTaskResult, ApprovalRequest, EventEnvelope,
    EventPayload, ExperimentDesign, ExperimentInput, ExperimentOutput, ExperimentRecommendation,
    ExperimentResultSummary, FeedbackItem, FeedbackSource, OnboardingInput, OnboardingMilestone,
    OnboardingOutput, OnboardingRiskFlag, RiskSeverity, SubjectType, TaskStatus, UpliftTrend,
    GTM_SCHEMA_VERSION, event_is, make_event, extend_events, handed_to,
};
use crate::gtm::ids::uuid_simple_text;
use crate::gtm::common::slug;
use crate::gtm::phase1::approval_view;
use crate::text::{strs, join, opt_str};

verus! {

/// Why phase 3 does not run.
#[derive(Debug, Clone)]
pub enum Phase3AgentError {
    EventSerialization(String),
    MetricsNotReliable,
}

/// The phase 3 engine.
#[derive(Debug, Clone, Copy)]
pub struct Phase3AgentEngine;

impl Default for Phase3AgentEngine {
    fn default() -> (r: Self)
        ensures
            r == Phase3AgentEngine,
    {
        Phase3AgentEngine
    }
}

pub open spec fn milestone_is(m: OnboardingMilestone, id: Seq<char>, name: Seq<char>, due: u16, owner: Seq<char>, criteria: Seq<char>) -> bool {
    &&& m.milestone_id@ == id
    &&& m.name@ == name
    &&& m.due_in_days == due
    &&& m.owner_role@ == owner
    &&& m.success_criteria@ == criteria
}

pub open spec fn flag_is(f: OnboardingRiskFlag, code: Seq<char>, severity: RiskSeverity, summary: Seq<char>, mitigation: Seq<char>) -> bool {
    &&& f.code@ == code
    &&& f.severity == severity
    &&& f.summary@ == summary
    &&& f.mitigation@ == mitigation
}

/// How many risk flags the activation gap raises.
pub open spec fn gap_flags(g: ActivationGap) -> int {
    match g {
        ActivationGap::Small => 0,
        _ => 1,
    }
}

/// The risk flags: the activation gap's, then one per known blocker.
pub open spec fn flags_ok(input: OnboardingInput, flags: Seq<OnboardingRiskFlag>) -> bool {
    let g = gap_flags(input.activation_gap);
    let blockers = strs(input.known_blockers@);
    &&& flags.len() == g + blockers.len()
    &&& input.activation_gap == ActivationGap::High ==> flag_is(flags[0], "activation_gap_high"@, RiskSeverity::High,
        "Activation rate ("@ + input.current_activation_text@ + ") is far below target ("@ + input.target_activation_text@ + ")"@,
        "Run weekly unblock review and fast-track implementation specialist support"@)
    &&& input.activation_gap == ActivationGap::Moderate ==> flag_is(flags[0], "activation_gap_moderate"@, RiskSeverity::Medium,
        "Activation rate ("@ + input.current_activation_text@ + ") is below target ("@ + input.target_activation_text@ + ")"@,
        "Prioritize setup checklist and tighten onboarding cadence"@)
    &&& forall|i: int| 0 <= i < blockers.len() ==> flag_is(#[trigger] flags[g + i], "blocker_"@ + slug(blockers[i]), RiskSeverity::Medium, blockers[i],
        "Assign owner and due date in weekly onboarding stand-up"@)
}

/// The feedback captured: the first five blockers, then the hand-off
/// summary (their ids and times are fresh).
pub open spec fn feedback_ok(input: OnboardingInput, items: Seq<FeedbackItem>) -> bool {
    let blockers = strs(input.known_blockers@);
    let nb = if blockers.len() < 5 { blockers.len() as int } else { 5 };
    &&& items.len() == nb + (if input.handoff_summary is Some { 1int } else { 0 })
    &&& forall|i: int| 0 <= i < items.len() ==> (#[trigger] items[i]).source == FeedbackSource::Onboarding && opt_str(items[i].segment_id) == Some(input.segment_id@)
    &&& forall|i: int| 0 <= i < nb ==> (#[trigger] items[i]).text@ == blockers[i] && opt_str(items[i].evidence_ref) == Some("onboarding://"@ + slug(blockers[i]))
    &&& input.handoff_summary matches Some(h) ==> items[nb].text@ == "handoff context: "@ + h@ && opt_str(items[nb].evidence_ref) == Some("handoff://outbound_or_sales"@)
}

/// The summary for the first value review.
pub open spec fn qbr_text(input: OnboardingInput, flagged: bool) -> Seq<char> {
    let goals = strs(input.customer_goals@);
    "Account "@ + input.account_name@ + " onboarding focus: "@
        + (if flagged { "close activation gap and remove blockers"@ } else { "stabilize and expand usage"@ })
        + ". Goals: "@ + (if goals.len() == 0 { "no explicit goals captured"@ } else { join(goals, "; "@) }) + "."@
}

/// Everything the onboarding agent's result states.
pub open spec fn onboarding_result(e: AgentTaskEnvelope, input: OnboardingInput, r: AgentTaskResult<OnboardingOutput>) -> bool {
    let o = r.output_payload;
    let id = uuid_simple_text(input.customer_id);
    let nf = o.activation_risk_flags@.len();
    let nc = o.captured_feedback@.len();
    let high = input.activation_gap == ActivationGap::High;
    &&& r.task_id == e.task_id
    &&& r.schema_version@ == GTM_SCHEMA_VERSION@
    &&& o.onboarding_plan@.len() == 3
    &&& milestone_is(o.onboarding_plan@[0], id + "-kickoff"@, "Kickoff and success criteria alignment"@, 2, "csm"@, "Mutual action plan approved with target KPI and stakeholders"@)
    &&& milestone_is(o.onboarding_plan@[1], id + "-activation"@, "Activation workflow completion"@, 7, "implementation_specialist"@, "Primary workflow active and first business outcome observed"@)
    &&& milestone_is(o.onboarding_plan@[2], id + "-qbr"@, "First value review"@, 21, "csm"@, "QBR completed with next-quarter expansion hypothesis"@)
    &&& flags_ok(input, o.activation_risk_flags@)
    &&& feedback_ok(input, o.captured_feedback@)
    &&& o.qbr_summary@ == qbr_text(input, nf > 0)
    &&& r.emitted_events@.len() == 1 + nf + nc
    &&& (r.emitted_events@[0].payload matches EventPayload::OnboardingStarted { milestone_count, segment_id } && milestone_count == 3 && segment_id@ == input.segment_id@
        && event_is(r.emitted_events@[0], e, AgentId::RachelOnboardingCsm, "onboarding.plan.started"@, SubjectType::Account, input.customer_id, r.emitted_events@[0].payload))
    &&& forall|i: int| 0 <= i < nf ==> event_is(#[trigger] r.emitted_events@[1 + i], e, AgentId::RachelOnboardingCsm, "onboarding.risk.flagged"@, SubjectType::Account, input.customer_id, EventPayload::RiskFlag(i as usize))
    &&& forall|i: int| 0 <= i < nc ==> event_is(#[trigger] r.emitted_events@[1 + nf + i], e, AgentId::RachelOnboardingCsm, "onboarding.feedback.captured"@, SubjectType::Account, input.customer_id, EventPayload::CapturedFeedback(i as usize))
    &&& r.status == (if high { TaskStatus::NeedsHuman } else { TaskStatus::Succeeded })
    &&& r.evidence_refs@ == e.input_refs@
    &&& r.next_action@ == (if high {
        "Escalate high-risk onboarding account for manual intervention"@
    } else {
        "Execute onboarding milestones and monitor activation weekly"@
    })
    &&& r.errors@.len() == 0
}

fn milestone(id: &String, suffix: &str, name: &str, due: u16, owner: &str, criteria: &str) -> (m: OnboardingMilestone)
    ensures
        milestone_is(m, id@ + suffix@, name@, due, owner@, criteria@),
{
    OnboardingMilestone {
        milestone_id: crate::text::concat2(id.as_str(), suffix),
        name: crate::text::owned(name),
        due_in_days: due,
        owner_role: crate::text::owned(owner),
        success_criteria: crate::text::owned(criteria),
    }
}

fn flag(code: String, severity: RiskSeverity, summary: String, mitigation: &str) -> (f: OnboardingRiskFlag)
    ensures
        f.code == code,
        f.severity == severity,
        f.summary == summary,
        f.mitigation@ == mitigation@,
{
    OnboardingRiskFlag { code, severity, summary, mitigation: crate::text::owned(mitigation) }
}

impl Phase3AgentEngine {
    /// Plans onboarding in three milestones, flags activation risks and
    /// blockers, captures them as feedback, and escalates a large activation gap.
    pub fn run_onboarding_csm(&self, envelope: AgentTaskEnvelope, input: OnboardingInput) -> (r: Result<
        AgentTaskResult<OnboardingOutput>,
        Phase3AgentError,
    >)
        requires
            input.known_blockers@.len() < usize::MAX - 8,
        ensures
            r matches Ok(res) && onboarding_result(envelope, input, res),
    {
        let id = crate::gtm::ids::uuid_simple(input.customer_id);
        let plan = vec![
            milestone(&id, "-kickoff", "Kickoff and success criteria alignment", 2, "csm", "Mutual action plan approved with target KPI and stakeholders"),
            milestone(&id, "-activation", "Activation workflow completion", 7, "implementation_specialist", "Primary workflow active and first business outcome observed"),
            milestone(&id, "-qbr", "First value review", 21, "csm", "QBR completed with next-quarter expansion hypothesis"),
        ];
        let mut flags: Vec<OnboardingRiskFlag> = Vec::new();
        match input.activation_gap {
            ActivationGap::High => {
                let mut summary = crate::text::concat3("Activation rate (", input.current_activation_text.as_str(), ") is far below target (");
                summary.append(input.target_activation_text.as_str());
                summary.append(")");
                flags.push(flag(crate::text::owned("activation_gap_high"), RiskSeverity::High, summary, "Run weekly unblock review and fast-track implementation specialist support"));
            },
            ActivationGap::Moderate => {
                let mut summary = crate::text::concat3("Activation rate (", input.current_activation_text.as_str(), ") is below target (");
                summary.append(input.target_activation_text.as_str());
                summary.append(")");
                flags.push(flag(crate::text::owned("activation_gap_moderate"), RiskSeverity::Medium, summary, "Prioritize setup checklist and tighten onboarding cadence"));
            },
            ActivationGap::Small => {},
        }
        let ghost g = gap_flags(input.activation_gap);
        let ghost first = flags@;
        proof {
            assert(input.activation_gap == ActivationGap::High ==> flag_is(first[0], "activation_gap_high"@, RiskSeverity::High,
                "Activation rate ("@ + input.current_activation_text@ + ") is far below target ("@ + input.target_activation_text@ + ")"@,
                "Run weekly unblock review and fast-track implementation specialist support"@));
            assert(input.activation_gap == ActivationGap::Moderate ==> flag_is(first[0], "activation_gap_moderate"@, RiskSeverity::Medium,
                "Activation rate ("@ + input.current_activation_text@ + ") is below target ("@ + input.target_activation_text@ + ")"@,
                "Prioritize setup checklist and tighten onboarding cadence"@));
        }
        let ghost blockers = strs(input.known_blockers@);
        let mut b: usize = 0;
        while b < input.known_blockers.len()
            invariant
                b <= input.known_blockers@.len(),
                blockers == strs(input.known_blockers@),
                g == gap_flags(input.activation_gap),
                first.len() == g,
                flags@.len() == g + b,
                forall|k: int| 0 <= k < g ==> flags@[k] == first[k],
                forall|k: int| 0 <= k < b ==> flag_is(#[trigger] flags@[g + k], "blocker_"@ + slug(blockers[k]), RiskSeverity::Medium, blockers[k],
                    "Assign owner and due date in weekly onboarding stand-up"@),
            decreases input.known_blockers@.len() - b,
        {
            let slugged = crate::gtm::common::slugify(input.known_blockers[b].as_str());
            flags.push(flag(crate::text::concat2("blocker_", slugged.as_str()), RiskSeverity::Medium, input.known_blockers[b].clone(), "Assign owner and due date in weekly onboarding stand-up"));
            b = b + 1;
        }
        proof {
            assert(g > 0 ==> flags@[0] == first[0]);
            assert(flags_ok(input, flags@));
        }
        let mut feedback: Vec<FeedbackItem> = Vec::new();
        let nb: usize = if input.known_blockers.len() < 5 { input.known_blockers.len() } else { 5 };
        let mut k: usize = 0;
        while k < nb
            invariant
                k <= nb <= input.known_blockers@.len(),
                nb == (if blockers.len() < 5 { blockers.len() as int } else { 5 }),
                blockers == strs(input.known_blockers@),
                feedback@.len() == k,
                forall|i: int| 0 <= i < k ==> (#[trigger] feedback@[i]).source == FeedbackSource::Onboarding && opt_str(feedback@[i].segment_id) == Some(input.segment_id@),
                forall|i: int| 0 <= i < k ==> (#[trigger] feedback@[i]).text@ == blockers[i] && opt_str(feedback@[i].evidence_ref) == Some("onboarding://"@ + slug(blockers[i])),
            decreases nb - k,
        {
            let slugged = crate::gtm::common::slugify(input.known_blockers[k].as_str());
            feedback.push(FeedbackItem {
                feedback_id: crate::gtm::ids::new_uuid(),
                source: FeedbackSource::Onboarding,
                segment_id: Some(input.segment_id.clone()),
                text: input.known_blockers[k].clone(),
                created_at: crate::gtm::ids::now_ms(),
                evidence_ref: Some(crate::text::concat2("onboarding://", slugged.as_str())),
            });
            k = k + 1;
        }
        if let Some(h) = &input.handoff_summary {
            feedback.push(FeedbackItem {
                feedback_id: crate::gtm::ids::new_uuid(),
                source: FeedbackSource::Onboarding,
                segment_id: Some(input.segment_id.clone()),
                text: crate::text::concat2("handoff context: ", h.as_str()),
                created_at: crate::gtm::ids::now_ms(),
                evidence_ref: Some(crate::text::owned("handoff://outbound_or_sales")),
            });
        }
        let flagged = flags.len() > 0;
        let mut qbr = crate::text::concat3("Account ", input.account_name.as_str(), " onboarding focus: ");
        qbr.append(if flagged { "close activation gap and remove blockers" } else { "stabilize and expand usage" });
        qbr.append(". Goals: ");
        if input.customer_goals.len() == 0 {
            qbr.append("no explicit goals captured");
        } else {
            let goals = crate::message_router::join_strings(&input.customer_goals, "; ");
            qbr.append(goals.as_str());
        }
        qbr.append(".");
        let nf = flags.len();
        let nc = feedback.len();
        assert(nf <= input.known_blockers@.len() + 1);
        assert(nc <= 6);
        let mut events: Vec<EventEnvelope> = Vec::new();
        events.push(make_event(&envelope, AgentId::RachelOnboardingCsm, "onboarding.plan.started", SubjectType::Account, input.customer_id,
            EventPayload::OnboardingStarted { milestone_count: plan.len(), segment_id: input.segment_id.clone() }));
        let mut i: usize = 0;
        while i < nf
            invariant
                i <= nf,
                events@.len() == 1 + i,
                events@[0].payload matches EventPayload::OnboardingStarted { milestone_count, segment_id } && milestone_count == 3 && segment_id@ == input.segment_id@,
                event_is(events@[0], envelope, AgentId::RachelOnboardingCsm, "onboarding.plan.started"@, SubjectType::Account, input.customer_id, events@[0].payload),
                forall|q: int| 0 <= q < i ==> event_is(#[trigger] events@[1 + q], envelope, AgentId::RachelOnboardingCsm, "onboarding.risk.flagged"@, SubjectType::Account, input.customer_id, EventPayload::RiskFlag(q as usize)),
            decreases nf - i,
        {
            events.push(make_event(&envelope, AgentId::RachelOnboardingCsm, "onboarding.risk.flagged", SubjectType::Account, input.customer_id, EventPayload::RiskFlag(i)));
            i = i + 1;
        }
        let mut j: usize = 0;
        while j < nc
            invariant
                j <= nc,
                nf <= input.known_blockers@.len() + 1,
                nc <= 6,
                input.known_blockers@.len() < usize::MAX - 8,
                events@.len() == 1 + nf + j,
                events@[0].payload matches EventPayload::OnboardingStarted { milestone_count, segment_id } && milestone_count == 3 && segment_id@ == input.segment_id@,
                event_is(events@[0], envelope, AgentId::RachelOnboardingCsm, "onboarding.plan.started"@, SubjectType::Account, input.customer_id, events@[0].payload),
                forall|q: int| 0 <= q < nf ==> event_is(#[trigger] events@[1 + q], envelope, AgentId::RachelOnboardingCsm, "onboarding.risk.flagged"@, SubjectType::Account, input.customer_id, EventPayload::RiskFlag(q as usize)),
                forall|q: int| 0 <= q < j ==> event_is(#[trigger] events@[1 + nf + q], envelope, AgentId::RachelOnboardingCsm, "onboarding.feedback.captured"@, SubjectType::Account, input.customer_id, EventPayload::CapturedFeedback(q as usize)),
            decreases nc - j,
        {
            events.push(make_event(&envelope, AgentId::RachelOnboardingCsm, "onboarding.feedback.captured", SubjectType::Account, input.customer_id, EventPayload::CapturedFeedback(j)));
            j = j + 1;
        }
        let high = match input.activation_gap {
            ActivationGap::High => true,
            _ => false,
        };
        proof {
            assert(strs(input.customer_goals@).len() == input.customer_goals@.len());
        }
        Ok(AgentTaskResult {
            task_id: envelope.task_id,
            status: if high {
                TaskStatus::NeedsHuman
            } else {
                TaskStatus::Succeeded
            },
            schema_version: crate::text::owned(GTM_SCHEMA_VERSION),
            output_payload: OnboardingOutput { onboarding_plan: plan, activation_risk_flags: flags, captured_feedback: feedback, qbr_summary: qbr },
            emitted_events: events,
            evidence_refs: crate::text::clone_strings(&envelope.input_refs),
            next_action: if high {
                crate::text::owned("Escalate high-risk onboarding account for manual intervention")
            } else {
                crate::text::owned("Execute onboarding milestones and monitor activation weekly")
            },
            errors: Vec::new(),
        })
    }
}

pub open spec fn recommendation_is(r: ExperimentRecommendation, action: Seq<char>, owner: Seq<char>, rationale: Seq<char>, impact: Seq<char>) -> bool {
    &&& r.action@ == action
    &&& r.owner@ == owner
    &&& r.rationale@ == rationale
    &&& r.expected_impact@ == impact
}

/// The results are reliable: enough samples and enough confidence.
pub open spec fn reliable(input: ExperimentInput) -> bool {
    input.sample_size >= input.min_sample_size && input.confidence_sufficient
}

/// The recommendations: scale, roll back or keep collecting by the uplift,
/// then a follow-up on adoption when there are adoption signals.
pub open spec fn recommendations_ok(input: ExperimentInput, recs: Seq<ExperimentRecommendation>) -> bool {
    let ok = reliable(input);
    &&& recs.len() == 1 + (if input.adoption_delta_percent_text is Some { 1int } else { 0 })
    &&& (ok && input.uplift == UpliftTrend::Positive) ==> recommendation_is(recs[0], "scale_winning_variant"@, "growth_ops"@,
        "Reliable positive uplift observed with sufficient sample"@, input.uplift_percent_text@ + "% primary metric uplift"@)
    &&& (ok && input.uplift == UpliftTrend::Negative) ==> recommendation_is(recs[0], "rollback_and_retest"@, "pmm"@,
        "Reliable negative movement against baseline"@, "Recover baseline conversion performance"@)
    &&& !(ok && (input.uplift == UpliftTrend::Positive || input.uplift == UpliftTrend::Negative)) ==> recommendation_is(recs[0],
        "continue_data_collection"@, "experiment_analyst"@, "Need stronger statistical signal or larger sample"@,
        "Increase confidence for next decision cycle"@)
    &&& input.adoption_delta_percent_text matches Some(t) ==> recommendation_is(recs[1], "feature_adoption_followup"@, "product_growth"@,
        "Adoption deltas provide additional context for GTM impact"@, t@ + "% mean adoption delta"@)
}

/// Everything the experiment agent's result states.
pub open spec fn experiment_result(e: AgentTaskEnvelope, input: ExperimentInput, r: AgentTaskResult<ExperimentOutput>) -> bool {
    let o = r.output_payload;
    let ok = reliable(input);
    let nr = o.recommendations@.len();
    let id = "exp-"@ + uuid_simple_text(e.task_id);
    &&& r.task_id == e.task_id
    &&& r.schema_version@ == GTM_SCHEMA_VERSION@
    &&& o.experiment_design.experiment_id@ == id
    &&& o.experiment_design.hypothesis@ == "Improving "@ + input.experiment_name@ + " should increase "@ + input.primary_metric@
    &&& o.experiment_design.success_metric@ == input.primary_metric@
    &&& strs(o.experiment_design.guardrails@) == seq!["do not increase unsubscribe_rate"@, "hold support_ticket_volume within baseline tolerance"@, "keep CAC within approved budget band"@]
    &&& o.experiment_design.segments@ == input.segment_ids@
    &&& o.result_summary.experiment_id@ == id
    &&& o.result_summary.statistically_reliable == ok
    &&& o.result_summary.sample_size == input.sample_size
    &&& recommendations_ok(input, o.recommendations@)
    &&& r.emitted_events@.len() == 2 + nr + (if ok { 0int } else { 1 })
    &&& event_is(r.emitted_events@[0], e, AgentId::RachelExperimentAnalyst, "experiment.started"@, SubjectType::Campaign, e.objective_id, EventPayload::ExperimentDesign)
    &&& event_is(r.emitted_events@[1], e, AgentId::RachelExperimentAnalyst, "experiment.result.published"@, SubjectType::Campaign, e.objective_id, EventPayload::ResultSummary)
    &&& forall|i: int| 0 <= i < nr ==> event_is(#[trigger] r.emitted_events@[2 + i], e, AgentId::RachelExperimentAnalyst, "experiment.recommendation.issued"@, SubjectType::Campaign, e.objective_id, EventPayload::Recommendation(i as usize))
    &&& !ok ==> (r.emitted_events@[2 + nr as int].payload matches EventPayload::Approval(a)
        && approval_view(a) == ("Metrics reliability below threshold for autonomous scaling"@, "medium"@, "revops"@)
        && event_is(r.emitted_events@[2 + nr as int], e, AgentId::RachelExperimentAnalyst, "approval.requested"@, SubjectType::Campaign, e.objective_id, r.emitted_events@[2 + nr as int].payload))
    &&& r.status == (if ok { TaskStatus::Succeeded } else { TaskStatus::NeedsHuman })
    &&& r.evidence_refs@ == e.input_refs@
    &&& r.next_action@ == (if ok {
        "Apply experiment recommendation and schedule next validation cycle"@
    } else {
        "Review experiment reliability and decide whether to extend sample window"@
    })
    &&& r.errors@.len() == 0
}

fn recommendation(action: &str, owner: &str, rationale: &str, impact: String) -> (r: ExperimentRecommendation)
    ensures
        recommendation_is(r, action@, owner@, rationale@, impact@),
{
    ExperimentRecommendation {
        action: crate::text::owned(action),
        owner: crate::text::owned(owner),
        rationale: crate::text::owned(rationale),
        expected_impact: impact,
    }
}

impl Phase3AgentEngine {
    /// Designs the experiment, summarises whether its result is reliable, and
    /// recommends scaling, rolling back or collecting more data.
    pub fn run_experiment_analyst(&self, envelope: AgentTaskEnvelope, input: ExperimentInput) -> (r: Result<
        AgentTaskResult<ExperimentOutput>,
        Phase3AgentError,
    >)
        ensures
            r matches Ok(res) && experiment_result(envelope, input, res),
    {
        let simple = crate::gtm::ids::uuid_simple(envelope.task_id);
        let id = crate::text::concat2("exp-", simple.as_str());
        let mut hypothesis = crate::text::concat3("Improving ", input.experiment_name.as_str(), " should increase ");
        hypothesis.append(input.primary_metric.as_str());
        let guardrails = vec![
            crate::text::owned("do not increase unsubscribe_rate"),
            crate::text::owned("hold support_ticket_volume within baseline tolerance"),
            crate::text::owned("keep CAC within approved budget band"),
        ];
        proof {
            assert(strs(guardrails@) =~= seq!["do not increase unsubscribe_rate"@, "hold support_ticket_volume within baseline tolerance"@, "keep CAC within approved budget band"@]);
        }
        let ok = input.sample_size >= input.min_sample_size && input.confidence_sufficient;
        let design = ExperimentDesign {
            experiment_id: id.clone(),
            hypothesis,
            success_metric: input.primary_metric.clone(),
            guardrails,
            segments: crate::text::clone_strings(&input.segment_ids),
        };
        let summary = ExperimentResultSummary { experiment_id: id, statistically_reliable: ok, sample_size: input.sample_size };
        let mut recs: Vec<ExperimentRecommendation> = Vec::new();
        if ok && input.uplift == UpliftTrend::Positive {
            recs.push(recommendation("scale_winning_variant", "growth_ops", "Reliable positive uplift observed with sufficient sample",
                crate::text::concat2(input.uplift_percent_text.as_str(), "% primary metric uplift")));
        } else if ok && input.uplift == UpliftTrend::Negative {
            recs.push(recommendation("rollback_and_retest", "pmm", "Reliable negative movement against baseline",
                crate::text::owned("Recover baseline conversion performance")));
        } else {
            recs.push(recommendation("continue_data_collection", "experiment_analyst", "Need stronger statistical signal or larger sample",
                crate::text::owned("Increase confidence for next decision cycle")));
        }
        if let Some(t) = &input.adoption_delta_percent_text {
            recs.push(recommendation("feature_adoption_followup", "product_growth", "Adoption deltas provide additional context for GTM impact",
                crate::text::concat2(t.as_str(), "% mean adoption delta")));
        }
        let nr = recs.len();
        let mut events: Vec<EventEnvelope> = Vec::new();
        events.push(make_event(&envelope, AgentId::RachelExperimentAnalyst, "experiment.started", SubjectType::Campaign, envelope.objective_id, EventPayload::ExperimentDesign));
        events.push(make_event(&envelope, AgentId::RachelExperimentAnalyst, "experiment.result.published", SubjectType::Campaign, envelope.objective_id, EventPayload::ResultSummary));
        let mut i: usize = 0;
        while i < nr
            invariant
                i <= nr <= 2,
                events@.len() == 2 + i,
                event_is(events@[0], envelope, AgentId::RachelExperimentAnalyst, "experiment.started"@, SubjectType::Campaign, envelope.objective_id, EventPayload::ExperimentDesign),
                event_is(events@[1], envelope, AgentId::RachelExperimentAnalyst, "experiment.result.published"@, SubjectType::Campaign, envelope.objective_id, EventPayload::ResultSummary),
                forall|q: int| 0 <= q < i ==> event_is(#[trigger] events@[2 + q], envelope, AgentId::RachelExperimentAnalyst, "experiment.recommendation.issued"@, SubjectType::Campaign, envelope.objective_id, EventPayload::Recommendation(q as usize)),
            decreases nr - i,
        {
            events.push(make_event(&envelope, AgentId::RachelExperimentAnalyst, "experiment.recommendation.issued", SubjectType::Campaign, envelope.objective_id, EventPayload::Recommendation(i)));
            i = i + 1;
        }
        if !ok {
            let approval = ApprovalRequest {
                reason: crate::text::owned("Metrics reliability below threshold for autonomous scaling"),
                risk_level: crate::text::owned("medium"),
                reviewer_group: crate::text::owned("revops"),
            };
            events.push(make_event(&envelope, AgentId::RachelExperimentAnalyst, "approval.requested", SubjectType::Campaign, envelope.objective_id, EventPayload::Approval(approval)));
        }
        Ok(AgentTaskResult {
            task_id: envelope.task_id,
            status: if ok {
                TaskStatus::Succeeded
            } else {
                TaskStatus::NeedsHuman
            },
            schema_version: crate::text::owned(GTM_SCHEMA_VERSION),
            output_payload: ExperimentOutput { experiment_design: design, result_summary: summary, recommendations: recs },
            emitted_events: events,
            evidence_refs: crate::text::clone_strings(&envelope.input_refs),
            next_action: if ok {
                crate::text::owned("Apply experiment recommendation and schedule next validation cycle")
            } else {
                crate::text::owned("Review experiment reliability and decide whether to extend sample window")
            },
            errors: Vec::new(),
        })
    }
}

/// Inputs of a phase 3 run.
#[derive(Debug, Clone)]
pub struct Phase3WorkflowInput {
    pub base_envelope: AgentTaskEnvelope,
    pub metrics_reliable: bool,
    pub onboarding: OnboardingInput,
    pub experiment: ExperimentInput,
}

/// Results of a phase 3 run, with all events in order.
#[derive(Debug, Clone)]
pub struct Phase3WorkflowResult {
    pub onboarding: AgentTaskResult<OnboardingOutput>,
    pub experiment: AgentTaskResult<ExperimentOutput>,
    pub events: Vec<EventEnvelope>,
}

impl Phase3AgentEngine {
    /// Runs onboarding and the experiment analysis; it refuses to run without
    /// reliable metrics.
    pub fn run_workflow(&self, input: Phase3WorkflowInput) -> (r: Result<Phase3WorkflowResult, Phase3AgentError>)
        requires
            input.onboarding.known_blockers@.len() < usize::MAX - 8,
        ensures
            !input.metrics_reliable ==> r matches Err(Phase3AgentError::MetricsNotReliable),
            input.metrics_reliable ==> (r matches Ok(res) && {
                &&& exists|e: AgentTaskEnvelope| handed_to(e, input.base_envelope, AgentId::RachelOnboardingCsm) && onboarding_result(e, input.onboarding, res.onboarding)
                &&& exists|e: AgentTaskEnvelope| handed_to(e, input.base_envelope, AgentId::RachelExperimentAnalyst) && experiment_result(e, input.experiment, res.experiment)
                &&& res.events@ == res.onboarding.emitted_events@ + res.experiment.emitted_events@
            }),
    {
        if !input.metrics_reliable {
            return Err(Phase3AgentError::MetricsNotReliable);
        }
        let e1 = input.base_envelope.with_agent(AgentId::RachelOnboardingCsm);
        let onboarding = match self.run_onboarding_csm(e1, input.onboarding) {
            Ok(v) => v,
            Err(x) => {
                return Err(x);
            },
        };
        let e2 = input.base_envelope.with_agent(AgentId::RachelExperimentAnalyst);
        let experiment = match self.run_experiment_analyst(e2, input.experiment) {
            Ok(v) => v,
            Err(x) => {
                return Err(x);
            },
        };
        let mut events: Vec<EventEnvelope> = Vec::new();
        extend_events(&mut events, &onboarding.emitted_events);
        extend_events(&mut events, &experiment.emitted_events);
        proof {
            assert(events@ =~= onboarding.emitted_events@ + experiment.emitted_events@);
            assert(handed_to(e1, input.base_envelope, AgentId::RachelOnboardingCsm) && onboarding_result(e1, input.onboarding, onboarding));
            assert(handed_to(e2, input.base_envelope, AgentId::RachelExperimentAnalyst) && experiment_result(e2, input.experiment, experiment));
        }
        Ok(Phase3WorkflowResult { onboarding, experiment, events })
    }
}

} // verus!
