//! Data contracts of the go-to-market agents.
//!
//! Identifiers are UUID values (`u128`), timestamps milliseconds since the
//! epoch. Scores and confidences that the agents express as fractions are
//! not part of these contracts.

use vstd::prelude::*;
use crate::gtm::ids::{uuid_text, new_uuid, now_ms, uuid_hyphenated};

verus! {

/// Version of the contracts.
pub const GTM_SCHEMA_VERSION: &'static str = "1.0";

/// The agents.
#[derive(Debug, Clone, Copy, PartialEq, Eq, Structural)]
pub enum AgentId {
    RachelOrchestrator,
    RachelIcpScout,
    RachelOutboundSdr,
    RachelFeedbackPrdSynthesizer,
    RachelPositioningPmm,
    RachelContentStudio,
    RachelOnboardingCsm,
    RachelExperimentAnalyst,
}

pub open spec fn agent_name(a: AgentId) -> Seq<char> {
    match a {
        AgentId::RachelOrchestrator => "rachel_orchestrator"@,
        AgentId::RachelIcpScout => "rachel_icp_scout"@,
        AgentId::RachelOutboundSdr => "rachel_outbound_sdr"@,
        AgentId::RachelFeedbackPrdSynthesizer => "rachel_feedback_prd_synthesizer"@,
        AgentId::RachelPositioningPmm => "rachel_positioning_pmm"@,
        AgentId::RachelContentStudio => "rachel_content_studio"@,
        AgentId::RachelOnboardingCsm => "rachel_onboarding_csm"@,
        AgentId::RachelExperimentAnalyst => "rachel_experiment_analyst"@,
    }
}

impl AgentId {
    /// The agent's name.
    pub fn as_str(self) -> (r: &'static str)
        ensures
            r@ == agent_name(self),
    {
        match self {
            AgentId::RachelOrchestrator => "rachel_orchestrator",
            AgentId::RachelIcpScout => "rachel_icp_scout",
            AgentId::RachelOutboundSdr => "rachel_outbound_sdr",
            AgentId::RachelFeedbackPrdSynthesizer => "rachel_feedback_prd_synthesizer",
            AgentId::RachelPositioningPmm => "rachel_positioning_pmm",
            AgentId::RachelContentStudio => "rachel_content_studio",
            AgentId::RachelOnboardingCsm => "rachel_onboarding_csm",
            AgentId::RachelExperimentAnalyst => "rachel_experiment_analyst",
        }
    }
}

#[derive(Debug, Clone, Copy, PartialEq, Eq, Structural)]
pub enum TaskPriority {
    Low,
    Normal,
    High,
    Urgent,
}

#[derive(Debug, Clone, Copy, PartialEq, Eq, Structural)]
pub enum TaskStatus {
    Succeeded,
    NeedsHuman,
    Failed,
    Partial,
}

#[derive(Debug, Clone, Copy, PartialEq, Eq, Structural)]
pub enum GtmChannel {
    Email,
    LinkedinAds,
    HubspotWorkflow,
    LinkedinDm,
}

#[derive(Debug, Clone, Copy, PartialEq, Eq, Structural)]
pub enum SubjectType {
    Objective,
    Account,
    Contact,
    Campaign,
    Feature,
}

/// Policies a task runs under.
#[derive(Debug, Clone)]
pub struct PolicyPack {
    pub human_approval_required: bool,
    pub allowed_channels: Vec<GtmChannel>,
    pub blocked_actions: Vec<String>,
    pub pii_policy: String,
    pub compliance_region: Vec<String>,
}

impl Default for PolicyPack {
    fn default() -> (r: Self)
        ensures
            !r.human_approval_required,
            r.allowed_channels@ == seq![GtmChannel::Email, GtmChannel::LinkedinAds, GtmChannel::HubspotWorkflow],
            r.blocked_actions@.len() == 0,
            r.pii_policy@ == "mask"@,
            crate::text::strs(r.compliance_region@) == seq!["US"@],
    {
        let region = vec![crate::text::owned("US")];
        proof {
            assert(crate::text::strs(region@) =~= seq!["US"@]);
        }
        PolicyPack {
            human_approval_required: false,
            allowed_channels: vec![GtmChannel::Email, GtmChannel::LinkedinAds, GtmChannel::HubspotWorkflow],
            blocked_actions: Vec::new(),
            pii_policy: crate::text::owned("mask"),
            compliance_region: region,
        }
    }
}

/// A copy of a channel list.
pub fn copy_channels(v: &Vec<GtmChannel>) -> (r: Vec<GtmChannel>)
    ensures
        r@ == v@,
{
    let mut r: Vec<GtmChannel> = Vec::new();
    let mut i: usize = 0;
    while i < v.len()
        invariant
            i <= v@.len(),
            r@ == v@.take(i as int),
        decreases v@.len() - i,
    {
        r.push(v[i]);
        i = i + 1;
        proof {
            assert(r@ =~= v@.take(i as int));
        }
    }
    proof {
        assert(v@.take(v@.len() as int) =~= v@);
    }
    r
}

/// A copy of a policy pack.
pub fn copy_policy(p: &PolicyPack) -> (r: PolicyPack)
    ensures
        r.human_approval_required == p.human_approval_required,
        r.allowed_channels@ == p.allowed_channels@,
        r.blocked_actions@ == p.blocked_actions@,
        r.pii_policy@ == p.pii_policy@,
        r.compliance_region@ == p.compliance_region@,
{
    PolicyPack {
        human_approval_required: p.human_approval_required,
        allowed_channels: copy_channels(&p.allowed_channels),
        blocked_actions: crate::text::clone_strings(&p.blocked_actions),
        pii_policy: p.pii_policy.clone(),
        compliance_region: crate::text::clone_strings(&p.compliance_region),
    }
}

/// The request an agent works on.
#[derive(Debug, Clone)]
pub struct AgentTaskEnvelope {
    pub task_id: u128,
    pub tenant_id: u128,
    pub objective_id: u128,
    pub agent_id: AgentId,
    pub schema_version: String,
    pub requested_at: i64,
    pub deadline_at: Option<i64>,
    pub priority: TaskPriority,
    pub policy_pack: PolicyPack,
    pub input_refs: Vec<String>,
    pub trace_id: u128,
    pub idempotency_key: String,
}

/// The idempotency key of a task: the agent's name and the task id.
pub open spec fn task_key(agent: AgentId, task_id: u128) -> Seq<char> {
    agent_name(agent) + ":"@ + uuid_text(task_id)
}

fn make_task_key(agent: AgentId, task_id: u128) -> (r: String)
    ensures
        r@ == task_key(agent, task_id),
{
    let id = uuid_hyphenated(task_id);
    crate::text::concat3(agent.as_str(), ":", id.as_str())
}

impl AgentTaskEnvelope {
    /// A fresh request for an agent: new identifiers, requested now, normal
    /// priority, default policies, no inputs.
    pub fn new(agent_id: AgentId) -> (r: Self)
        ensures
            r.agent_id == agent_id,
            r.schema_version@ == GTM_SCHEMA_VERSION@,
            r.deadline_at is None,
            r.priority == TaskPriority::Normal,
            !r.policy_pack.human_approval_required,
            r.policy_pack.allowed_channels@ == seq![GtmChannel::Email, GtmChannel::LinkedinAds, GtmChannel::HubspotWorkflow],
            r.input_refs@.len() == 0,
            r.idempotency_key@ == task_key(agent_id, r.task_id),
    {
        let now = now_ms();
        let task_id = new_uuid();
        let tenant_id = new_uuid();
        let objective_id = new_uuid();
        let trace_id = new_uuid();
        AgentTaskEnvelope {
            task_id,
            tenant_id,
            objective_id,
            agent_id,
            schema_version: crate::text::owned(GTM_SCHEMA_VERSION),
            requested_at: now,
            deadline_at: None,
            priority: TaskPriority::Normal,
            policy_pack: PolicyPack::default(),
            input_refs: Vec::new(),
            trace_id,
            idempotency_key: make_task_key(agent_id, task_id),
        }
    }

    /// The same request handed to another agent under a new task id.
    pub fn with_agent(&self, agent_id: AgentId) -> (r: Self)
        ensures
            r.tenant_id == self.tenant_id,
            r.objective_id == self.objective_id,
            r.agent_id == agent_id,
            r.schema_version@ == self.schema_version@,
            r.requested_at == self.requested_at,
            r.deadline_at == self.deadline_at,
            r.priority == self.priority,
            r.policy_pack.human_approval_required == self.policy_pack.human_approval_required,
            r.policy_pack.allowed_channels@ == self.policy_pack.allowed_channels@,
            r.policy_pack.blocked_actions@ == self.policy_pack.blocked_actions@,
            r.policy_pack.pii_policy@ == self.policy_pack.pii_policy@,
            r.policy_pack.compliance_region@ == self.policy_pack.compliance_region@,
            r.input_refs@ == self.input_refs@,
            r.trace_id == self.trace_id,
            r.idempotency_key@ == task_key(agent_id, r.task_id),
    {
        let task_id = new_uuid();
        AgentTaskEnvelope {
            task_id,
            tenant_id: self.tenant_id,
            objective_id: self.objective_id,
            agent_id,
            schema_version: self.schema_version.clone(),
            requested_at: self.requested_at,
            deadline_at: self.deadline_at,
            priority: self.priority,
            policy_pack: copy_policy(&self.policy_pack),
            input_refs: crate::text::clone_strings(&self.input_refs),
            trace_id: self.trace_id,
            idempotency_key: make_task_key(agent_id, task_id),
        }
    }
}

/// What an event carries. Items of the result it belongs to are named by
/// their position there; the rest is carried as it stands.
#[derive(Debug, Clone)]
pub enum EventPayload {
    WorkflowState,
    TaskAssignment(usize),
    ApprovalRequest(usize),
    Approval(ApprovalRequest),
    IcpScoreSummary { score_count: usize, top_score: Option<u8> },
    SegmentDefinition(usize),
    AntiSegmentRules,
    DriftReport,
    SequenceDraft,
    SendSummary { segment_size: usize, send_request_count: usize, channel: GtmChannel },
    FeedbackSummary { cluster_count: usize, feedback_count: usize },
    InsightCluster(usize),
    PrdDraft(usize),
    MessageMap(usize),
    PositioningBundle,
    ContentAsset(usize),
    AssetsPublished { asset_count: usize, bundle_id: String },
    OnboardingStarted { milestone_count: usize, segment_id: String },
    RiskFlag(usize),
    CapturedFeedback(usize),
    ExperimentDesign,
    ResultSummary,
    Recommendation(usize),
    ManualSendTask(usize),
    HubspotTask(usize),
    HubspotCommunication(usize),
}

/// An event an agent emits.
#[derive(Debug, Clone)]
pub struct EventEnvelope {
    pub event_id: u128,
    pub event_type: String,
    pub occurred_at: i64,
    pub producer: AgentId,
    pub tenant_id: u128,
    pub subject_type: SubjectType,
    pub subject_id: u128,
    pub schema_version: String,
    pub trace_id: u128,
    pub idempotency_key: String,
    pub payload: EventPayload,
}

/// The event `e` is the one emitted for `envelope` with these parts (its id
/// and time are its own).
pub open spec fn event_is(
    e: EventEnvelope,
    envelope: AgentTaskEnvelope,
    producer: AgentId,
    event_type: Seq<char>,
    subject_type: SubjectType,
    subject_id: u128,
    payload: EventPayload,
) -> bool {
    &&& e.event_type@ == event_type
    &&& e.producer == producer
    &&& e.tenant_id == envelope.tenant_id
    &&& e.subject_type == subject_type
    &&& e.subject_id == subject_id
    &&& e.schema_version@ == GTM_SCHEMA_VERSION@
    &&& e.trace_id == envelope.trace_id
    &&& e.idempotency_key@ == envelope.idempotency_key@ + ":"@ + agent_name(producer) + ":"@ + event_type
    &&& e.payload == payload
}

/// Builds the event emitted for `envelope`.
pub fn make_event(
    envelope: &AgentTaskEnvelope,
    producer: AgentId,
    event_type: &str,
    subject_type: SubjectType,
    subject_id: u128,
    payload: EventPayload,
) -> (e: EventEnvelope)
    ensures
        event_is(e, *envelope, producer, event_type@, subject_type, subject_id, payload),
{
    let mut key = crate::text::concat3(envelope.idempotency_key.as_str(), ":", producer.as_str());
    key.append(":");
    key.append(event_type);
    EventEnvelope {
        event_id: new_uuid(),
        event_type: crate::text::owned(event_type),
        occurred_at: now_ms(),
        producer,
        tenant_id: envelope.tenant_id,
        subject_type,
        subject_id,
        schema_version: crate::text::owned(GTM_SCHEMA_VERSION),
        trace_id: envelope.trace_id,
        idempotency_key: key,
        payload,
    }
}

/// The outcome of an agent's task.
#[derive(Debug, Clone)]
pub struct AgentTaskResult<T> {
    pub task_id: u128,
    pub status: TaskStatus,
    pub schema_version: String,
    pub output_payload: T,
    pub emitted_events: Vec<EventEnvelope>,
    pub evidence_refs: Vec<String>,
    pub next_action: String,
    pub errors: Vec<String>,
}

/// A business objective.
#[derive(Debug, Clone)]
pub struct Objective {
    pub name: String,
    pub target_metric: String,
    pub target_value: String,
    pub due_date: Option<i64>,
    pub owner: String,
}

#[derive(Debug, Clone)]
pub struct CurrentState {
    pub open_tasks: u32,
    pub blockers: Vec<String>,
    pub active_campaigns: u32,
}

impl Default for CurrentState {
    fn default() -> (r: Self)
        ensures
            r.open_tasks == 0,
            r.blockers@.len() == 0,
            r.active_campaigns == 0,
    {
        CurrentState { open_tasks: 0, blockers: Vec::new(), active_campaigns: 0 }
    }
}

#[derive(Debug, Clone)]
pub struct ResourceLimits {
    pub daily_email_cap: u32,
    pub budget_cap_usd: u32,
    pub human_review_capacity: u32,
}

#[derive(Debug, Clone)]
pub struct OrchestratorInput {
    pub objective: Objective,
    pub current_state: CurrentState,
    pub resource_limits: ResourceLimits,
}

#[derive(Debug, Clone)]
pub struct ExecutionStep {
    pub step_id: String,
    pub description: String,
    pub depends_on: Vec<String>,
}

#[derive(Debug, Clone)]
pub struct TaskAssignment {
    pub task_type: String,
    pub agent_id: AgentId,
    pub deadline_at: Option<i64>,
    pub input_refs: Vec<String>,
}

#[derive(Debug, Clone)]
pub struct ApprovalRequest {
    pub reason: String,
    pub risk_level: String,
    pub reviewer_group: String,
}

#[derive(Debug, Clone)]
pub struct WorkflowState {
    pub stage: String,
    pub progress_pct: u8,
    pub eta_minutes: u32,
}

#[derive(Debug, Clone)]
pub struct OrchestratorOutput {
    pub execution_plan: Vec<ExecutionStep>,
    pub task_assignments: Vec<TaskAssignment>,
    pub approval_requests: Vec<ApprovalRequest>,
    pub workflow_state: WorkflowState,
}

/// Signals about an account. `ltv_usd` is the lifetime value in whole dollars.
#[derive(Debug, Clone)]
pub struct AccountSignal {
    pub entity_id: u128,
    pub company_size: u32,
    pub industry: String,
    pub region: String,
    pub product_events_14d: u32,
    pub support_tickets_30d: u32,
    pub won_deals_12m: u32,
    pub lost_deals_12m: u32,
    pub churned: bool,
    pub activation_days: u32,
    pub ltv_usd: u64,
}

#[derive(Debug, Clone)]
pub struct IcpScoutInput {
    pub accounts: Vec<AccountSignal>,
    pub current_segment_ids: Vec<String>,
    pub min_sample_size: usize,
}

#[derive(Debug, Clone, Copy, PartialEq, Eq, Structural)]
pub enum EntityType {
    Account,
    Contact,
}

#[derive(Debug, Clone, Copy, PartialEq, Eq, Structural)]
pub enum IcpTier {
    A,
    B,
    C,
    D,
}

#[derive(Debug, Clone)]
pub struct IcpScore {
    pub entity_id: u128,
    pub entity_type: EntityType,
    pub score_0_100: u8,
    pub tier: IcpTier,
    pub top_drivers: Vec<String>,
}

/// A promoted segment (its expected lift and confidence are fractions kept
/// outside these contracts).
#[derive(Debug, Clone)]
pub struct SegmentDefinition {
    pub segment_id: String,
    pub rule_dsl: String,
}

#[derive(Debug, Clone)]
pub struct DriftReport {
    pub drift_detected: bool,
    pub drift_dimensions: Vec<String>,
    pub recommended_retrain_date: Option<i64>,
}

#[derive(Debug, Clone)]
pub struct IcpScoutOutput {
    pub icp_scores: Vec<IcpScore>,
    pub segment_definitions: Vec<SegmentDefinition>,
    pub anti_icp_rules: Vec<String>,
    pub drift_report: DriftReport,
}

#[derive(Debug, Clone)]
pub struct SegmentContact {
    pub recipient_id: u128,
    pub account_id: u128,
    pub email: String,
    pub first_name: Option<String>,
    pub job_title: Option<String>,
    pub company_name: Option<String>,
    pub timezone: Option<String>,
}

#[derive(Debug, Clone, Copy, PartialEq, Eq, Structural)]
pub enum ClaimRisk {
    Low,
    Medium,
    High,
}

#[derive(Debug, Clone)]
pub struct MessageVariant {
    pub template_id: String,
    pub subject: String,
    pub body: String,
    pub claim_risk: ClaimRisk,
}

#[derive(Debug, Clone)]
pub struct MessageBundle {
    pub segment_id: String,
    pub variants: Vec<MessageVariant>,
}

#[derive(Debug, Clone)]
pub struct SequencePolicy {
    pub max_touches: u8,
    pub cadence_days: u16,
    pub stop_conditions: Vec<String>,
}

#[derive(Debug, Clone)]
pub struct ChannelPolicy {
    pub email_enabled: bool,
    pub linkedin_ads_enabled: bool,
    pub linkedin_dm_enabled: bool,
}

#[derive(Debug, Clone)]
pub struct OutboundSdrInput {
    pub segment_manifest: Vec<SegmentContact>,
    pub message_bundle: MessageBundle,
    pub sequence_policy: SequencePolicy,
    pub channel_policy: ChannelPolicy,
}

#[derive(Debug, Clone)]
pub struct SequenceTouch {
    pub touch_number: u8,
    pub offset_days: u16,
    pub channel: GtmChannel,
    pub template_id: String,
}

#[derive(Debug, Clone)]
pub struct SequenceDraft {
    pub sequence_id: String,
    pub touches: Vec<SequenceTouch>,
    pub channel: GtmChannel,
}

#[derive(Debug, Clone)]
pub struct SendRequest {
    pub recipient_id: u128,
    pub template_id: String,
    pub send_at: i64,
}

#[derive(Debug, Clone, Copy, PartialEq, Eq, Structural)]
pub enum ReplyClass {
    Positive,
    Neutral,
    Negative,
    Unsubscribe,
}

#[derive(Debug, Clone)]
pub struct ReplyClassification {
    pub reply_id: String,
    pub class: ReplyClass,
    pub sentiment: String,
    pub intent: String,
}

#[derive(Debug, Clone)]
pub struct Handoff {
    pub to_team: String,
    pub reason: String,
}

#[derive(Debug, Clone)]
pub struct OutboundSdrOutput {
    pub sequence_draft: Option<SequenceDraft>,
    pub personalization_fields_used: Vec<String>,
    pub send_requests: Vec<SendRequest>,
    pub reply_classifications: Vec<ReplyClassification>,
    pub handoffs: Vec<Handoff>,
}

#[derive(Debug, Clone, Copy, PartialEq, Eq, Structural)]
pub enum ManualDispatchStatus {
    PendingApproval,
    ReadyForRep,
    Completed,
}

#[derive(Debug, Clone)]
pub struct LinkedinManualSendTask {
    pub manual_task_id: String,
    pub recipient_id: u128,
    pub account_id: u128,
    pub recipient_email: String,
    pub recipient_name: Option<String>,
    pub company_name: Option<String>,
    pub channel: GtmChannel,
    pub template_id: String,
    pub send_at: i64,
    pub assignee_team: String,
    pub status: ManualDispatchStatus,
    pub instructions: String,
}

#[derive(Debug, Clone)]
pub struct HubspotTaskDraft {
    pub external_id: String,
    pub subject: String,
    pub body: String,
    pub due_at: i64,
    pub contact_email: String,
    pub owner_team: String,
}

#[derive(Debug, Clone)]
pub struct HubspotCommunicationDraft {
    pub external_id: String,
    pub channel: GtmChannel,
    pub contact_email: String,
    pub scheduled_at: i64,
    pub summary: String,
}

#[derive(Debug, Clone)]
pub struct ModeAOutboundDispatchInput {
    pub outbound_input: OutboundSdrInput,
    pub outbound_output: OutboundSdrOutput,
    pub assignee_team: String,
    pub reviewer_group: String,
    pub approval_required: bool,
}

#[derive(Debug, Clone)]
pub struct ModeAOutboundDispatchOutput {
    pub approval_queue: Vec<ApprovalRequest>,
    pub manual_send_tasks: Vec<LinkedinManualSendTask>,
    pub hubspot_task_drafts: Vec<HubspotTaskDraft>,
    pub hubspot_communication_drafts: Vec<HubspotCommunicationDraft>,
}

/// Counts of what a HubSpot dispatch attempted and achieved.
#[derive(Debug, Clone)]
pub struct HubspotDispatchReport {
    pub tasks_attempted: usize,
    pub tasks_created: usize,
    pub notes_attempted: usize,
    pub notes_created: usize,
    pub associations_attempted: usize,
    pub associations_created: usize,
    pub errors: Vec<String>,
}

impl Default for HubspotDispatchReport {
    fn default() -> (r: Self)
        ensures
            r.tasks_attempted == 0 && r.tasks_created == 0 && r.notes_attempted == 0 && r.notes_created == 0
                && r.associations_attempted == 0 && r.associations_created == 0 && r.errors@.len() == 0,
    {
        HubspotDispatchReport {
            tasks_attempted: 0,
            tasks_created: 0,
            notes_attempted: 0,
            notes_created: 0,
            associations_attempted: 0,
            associations_created: 0,
            errors: Vec::new(),
        }
    }
}

#[derive(Debug, Clone, Copy, PartialEq, Eq, Structural)]
pub enum FeedbackSource {
    Onboarding,
    OutboundReply,
    SupportTicket,
    SalesCall,
    ProductUsage,
}

#[derive(Debug, Clone)]
pub struct FeedbackItem {
    pub feedback_id: u128,
    pub source: FeedbackSource,
    pub segment_id: Option<String>,
    pub text: String,
    pub created_at: i64,
    pub evidence_ref: Option<String>,
}

#[derive(Debug, Clone)]
pub struct ProductContext {
    pub roadmap_refs: Vec<String>,
    pub constraints: Vec<String>,
    pub architecture_notes: Vec<String>,
}

#[derive(Debug, Clone)]
pub struct BusinessContext {
    pub revenue_goal: String,
    pub strategic_themes: Vec<String>,
}

/// How feedback is clustered (the recency weight, a fraction used only for
/// priority scores, is kept outside these contracts).
#[derive(Debug, Clone)]
pub struct ClusterPolicy {
    pub min_cluster_size: usize,
}

#[derive(Debug, Clone)]
pub struct FeedbackPrdInput {
    pub feedback_items: Vec<FeedbackItem>,
    pub product_context: ProductContext,
    pub business_context: BusinessContext,
    pub cluster_policy: ClusterPolicy,
}

#[derive(Debug, Clone)]
pub struct InsightCluster {
    pub cluster_id: String,
    pub theme: String,
    pub frequency: u32,
    pub affected_segments: Vec<String>,
    pub evidence_refs: Vec<String>,
}

#[derive(Debug, Clone)]
pub struct JobStory {
    pub as_persona: String,
    pub when_context: String,
    pub i_want: String,
    pub so_i_can: String,
}

#[derive(Debug, Clone)]
pub struct PrdDraft {
    pub prd_id: String,
    pub problem: String,
    pub users: Vec<String>,
    pub success_metrics: Vec<String>,
    pub scope: Vec<String>,
    pub risks: Vec<String>,
}

#[derive(Debug, Clone)]
pub struct FeedbackPrdOutput {
    pub insight_clusters: Vec<InsightCluster>,
    pub job_stories: Vec<JobStory>,
    pub prd_drafts: Vec<PrdDraft>,
}

#[derive(Debug, Clone, Copy, PartialEq, Eq, Structural)]
pub enum FunnelStage {
    Awareness,
    Consideration,
    Decision,
    Expansion,
}

#[derive(Debug, Clone)]
pub struct PositioningInput {
    pub segment_definitions: Vec<SegmentDefinition>,
    pub insight_clusters: Vec<InsightCluster>,
    pub prd_drafts: Vec<PrdDraft>,
    pub strategic_themes: Vec<String>,
    pub data_contract_version: String,
}

#[derive(Debug, Clone)]
pub struct MessageMap {
    pub segment_id: String,
    pub value_proposition: String,
    pub pains: Vec<String>,
    pub proof_points: Vec<String>,
    pub objection_handling: Vec<String>,
    pub funnel_stage: FunnelStage,
}

#[derive(Debug, Clone)]
pub struct PositioningBundle {
    pub bundle_id: String,
    pub message_maps: Vec<MessageMap>,
    pub claim_safe_list: Vec<String>,
    pub generated_at: i64,
}

#[derive(Debug, Clone)]
pub struct PositioningOutput {
    pub positioning_bundle: PositioningBundle,
}

#[derive(Debug, Clone, Copy, PartialEq, Eq, Structural)]
pub enum AssetChannel {
    Email,
    LandingPage,
    LinkedinAd,
    SalesOnePager,
}

#[derive(Debug, Clone)]
pub struct ContentInput {
    pub positioning_bundle: PositioningBundle,
    pub channels: Vec<AssetChannel>,
    pub max_assets_per_channel: u8,
    pub requires_human_review: bool,
}

#[derive(Debug, Clone)]
pub struct ContentAsset {
    pub asset_id: String,
    pub channel: AssetChannel,
    pub segment_id: String,
    pub title: String,
    pub body: String,
    pub cta: String,
}

#[derive(Debug, Clone)]
pub struct ContentOutput {
    pub assets: Vec<ContentAsset>,
    pub publish_ready: bool,
}

#[derive(Debug, Clone, Copy, PartialEq, Eq, Structural)]
pub enum RiskSeverity {
    Low,
    Medium,
    High,
}

/// How far activation trails its target: more than 0.2, more than 0.1, or less.
#[derive(Debug, Clone, Copy, PartialEq, Eq, Structural)]
pub enum ActivationGap {
    High,
    Moderate,
    Small,
}

/// Onboarding inputs. The activation rates are given as the gap class and
/// the two rates already written with two decimals.
#[derive(Debug, Clone)]
pub struct OnboardingInput {
    pub customer_id: u128,
    pub account_name: String,
    pub segment_id: String,
    pub customer_goals: Vec<String>,
    pub known_blockers: Vec<String>,
    pub activation_gap: ActivationGap,
    pub current_activation_text: String,
    pub target_activation_text: String,
    pub handoff_summary: Option<String>,
}

#[derive(Debug, Clone)]
pub struct OnboardingMilestone {
    pub milestone_id: String,
    pub name: String,
    pub due_in_days: u16,
    pub owner_role: String,
    pub success_criteria: String,
}

#[derive(Debug, Clone)]
pub struct OnboardingRiskFlag {
    pub code: String,
    pub severity: RiskSeverity,
    pub summary: String,
    pub mitigation: String,
}

#[derive(Debug, Clone)]
pub struct OnboardingOutput {
    pub onboarding_plan: Vec<OnboardingMilestone>,
    pub activation_risk_flags: Vec<OnboardingRiskFlag>,
    pub captured_feedback: Vec<FeedbackItem>,
    pub qbr_summary: String,
}

/// Direction of the observed uplift: above 5 %, below -3 %, or between.
#[derive(Debug, Clone, Copy, PartialEq, Eq, Structural)]
pub enum UpliftTrend {
    Positive,
    Negative,
    Flat,
}

/// Experiment inputs. The measured values are given as what the analysis
/// reads from them: the uplift's direction and text, whether the confidence
/// estimate reaches 0.7, and the mean adoption delta's text when there are
/// adoption signals.
#[derive(Debug, Clone)]
pub struct ExperimentInput {
    pub experiment_name: String,
    pub primary_metric: String,
    pub sample_size: usize,
    pub min_sample_size: usize,
    pub confidence_sufficient: bool,
    pub uplift: UpliftTrend,
    pub uplift_percent_text: String,
    pub adoption_delta_percent_text: Option<String>,
    pub segment_ids: Vec<String>,
}

#[derive(Debug, Clone)]
pub struct ExperimentDesign {
    pub experiment_id: String,
    pub hypothesis: String,
    pub success_metric: String,
    pub guardrails: Vec<String>,
    pub segments: Vec<String>,
}

/// The summary of an experiment (uplift ratio and confidence are fractions
/// kept outside these contracts).
#[derive(Debug, Clone)]
pub struct ExperimentResultSummary {
    pub experiment_id: String,
    pub statistically_reliable: bool,
    pub sample_size: usize,
}

#[derive(Debug, Clone)]
pub struct ExperimentRecommendation {
    pub action: String,
    pub owner: String,
    pub rationale: String,
    pub expected_impact: String,
}

#[derive(Debug, Clone)]
pub struct ExperimentOutput {
    pub experiment_design: ExperimentDesign,
    pub result_summary: ExperimentResultSummary,
    pub recommendations: Vec<ExperimentRecommendation>,
}


fn copy_approval(a: &ApprovalRequest) -> (r: ApprovalRequest)
    ensures
        r == *a,
{
    ApprovalRequest {
        reason: a.reason.clone(),
        risk_level: a.risk_level.clone(),
        reviewer_group: a.reviewer_group.clone(),
    }
}

fn copy_payload(p: &EventPayload) -> (r: EventPayload)
    ensures
        r == *p,
{
    match p {
        EventPayload::WorkflowState => EventPayload::WorkflowState,
        EventPayload::TaskAssignment(i) => EventPayload::TaskAssignment(*i),
        EventPayload::ApprovalRequest(i) => EventPayload::ApprovalRequest(*i),
        EventPayload::Approval(a) => EventPayload::Approval(copy_approval(a)),
        EventPayload::IcpScoreSummary { score_count, top_score } => EventPayload::IcpScoreSummary {
            score_count: *score_count,
            top_score: *top_score,
        },
        EventPayload::SegmentDefinition(i) => EventPayload::SegmentDefinition(*i),
        EventPayload::AntiSegmentRules => EventPayload::AntiSegmentRules,
        EventPayload::DriftReport => EventPayload::DriftReport,
        EventPayload::SequenceDraft => EventPayload::SequenceDraft,
        EventPayload::SendSummary { segment_size, send_request_count, channel } => EventPayload::SendSummary {
            segment_size: *segment_size,
            send_request_count: *send_request_count,
            channel: *channel,
        },
        EventPayload::FeedbackSummary { cluster_count, feedback_count } => EventPayload::FeedbackSummary {
            cluster_count: *cluster_count,
            feedback_count: *feedback_count,
        },
        EventPayload::InsightCluster(i) => EventPayload::InsightCluster(*i),
        EventPayload::PrdDraft(i) => EventPayload::PrdDraft(*i),
        EventPayload::MessageMap(i) => EventPayload::MessageMap(*i),
        EventPayload::PositioningBundle => EventPayload::PositioningBundle,
        EventPayload::ContentAsset(i) => EventPayload::ContentAsset(*i),
        EventPayload::AssetsPublished { asset_count, bundle_id } => EventPayload::AssetsPublished {
            asset_count: *asset_count,
            bundle_id: bundle_id.clone(),
        },
        EventPayload::OnboardingStarted { milestone_count, segment_id } => EventPayload::OnboardingStarted {
            milestone_count: *milestone_count,
            segment_id: segment_id.clone(),
        },
        EventPayload::RiskFlag(i) => EventPayload::RiskFlag(*i),
        EventPayload::CapturedFeedback(i) => EventPayload::CapturedFeedback(*i),
        EventPayload::ExperimentDesign => EventPayload::ExperimentDesign,
        EventPayload::ResultSummary => EventPayload::ResultSummary,
        EventPayload::Recommendation(i) => EventPayload::Recommendation(*i),
        EventPayload::ManualSendTask(i) => EventPayload::ManualSendTask(*i),
        EventPayload::HubspotTask(i) => EventPayload::HubspotTask(*i),
        EventPayload::HubspotCommunication(i) => EventPayload::HubspotCommunication(*i),
    }
}

/// A copy of an event.
pub fn copy_event(e: &EventEnvelope) -> (r: EventEnvelope)
    ensures
        r == *e,
{
    EventEnvelope {
        event_id: e.event_id,
        event_type: e.event_type.clone(),
        occurred_at: e.occurred_at,
        producer: e.producer,
        tenant_id: e.tenant_id,
        subject_type: e.subject_type,
        subject_id: e.subject_id,
        schema_version: e.schema_version.clone(),
        trace_id: e.trace_id,
        idempotency_key: e.idempotency_key.clone(),
        payload: copy_payload(&e.payload),
    }
}

/// Appends copies of `more` to `events`.
pub fn extend_events(events: &mut Vec<EventEnvelope>, more: &Vec<EventEnvelope>)
    ensures
        final(events)@ == old(events)@ + more@,
{
    let ghost start = events@;
    let mut i: usize = 0;
    while i < more.len()
        invariant
            i <= more@.len(),
            events@ == start + more@.take(i as int),
        decreases more@.len() - i,
    {
        events.push(copy_event(&more[i]));
        i = i + 1;
        proof {
            assert(events@ =~= start + more@.take(i as int));
        }
    }
    proof {
        assert(more@.take(more@.len() as int) =~= more@);
    }
}

/// `d` is `base` handed to `agent` (see `AgentTaskEnvelope::with_agent`).
pub open spec fn handed_to(d: AgentTaskEnvelope, base: AgentTaskEnvelope, agent: AgentId) -> bool {
    &&& d.tenant_id == base.tenant_id
    &&& d.objective_id == base.objective_id
    &&& d.agent_id == agent
    &&& d.schema_version@ == base.schema_version@
    &&& d.requested_at == base.requested_at
    &&& d.deadline_at == base.deadline_at
    &&& d.priority == base.priority
    &&& d.policy_pack.human_approval_required == base.policy_pack.human_approval_required
    &&& d.policy_pack.allowed_channels@ == base.policy_pack.allowed_channels@
    &&& d.policy_pack.blocked_actions@ == base.policy_pack.blocked_actions@
    &&& d.policy_pack.pii_policy@ == base.policy_pack.pii_policy@
    &&& d.policy_pack.compliance_region@ == base.policy_pack.compliance_region@
    &&& d.input_refs@ == base.input_refs@
    &&& d.trace_id == base.trace_id
    &&& d.idempotency_key@ == task_key(agent, d.task_id)
}

} // verus!
