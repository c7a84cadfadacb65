//! Mode A outbound dispatch: LinkedIn messages sent by hand, tracked as
//! manual tasks with HubSpot drafts.

use vstd::prelude::*;
use crate::gtm::contracts::{
    MessageVariant, AgentId, AgentTaskEnvelope, AgentTaskResult, ApprovalRequest, ClaimRisk, EventEnvelope,
    EventPayload, GtmChannel, HubspotCommunicationDraft, HubspotTaskDraft, LinkedinManualSendTask,
    ManualDispatchStatus, ModeAOutboundDispatchInput, ModeAOutboundDispatchOutput, SegmentContact,
    SendRequest, SubjectType, TaskStatus, GTM_SCHEMA_VERSION, event_is, make_event, extend_events,
    handed_to,
};
use crate::gtm::ids::{uuid_simple_text, uuid_text, MINUTE_MS};
use crate::gtm::phase1::{safest_variant, approval_view};
use crate::text::{strs, trim, opt_str};
use crate::number::decimal;

verus! {

/// Why a dispatch cannot be prepared.
#[derive(Debug, Clone)]
pub enum ModeAAgentError {
    EventSerialization(String),
    MissingSequenceDraft,
    MissingMessageVariant,
    UnsupportedChannel(String),
}

/// The mode A engine.
#[derive(Debug, Clone, Copy)]
pub struct ModeAAgentEngine;

impl Default for ModeAAgentEngine {
    fn default() -> (r: Self)
        ensures
            r == ModeAAgentEngine,
    {
        ModeAAgentEngine
    }
}

pub open spec fn channel_name(c: GtmChannel) -> Seq<char> {
    match c {
        GtmChannel::Email => "email"@,
        GtmChannel::LinkedinAds => "linkedin_ads"@,
        GtmChannel::HubspotWorkflow => "hubspot_workflow"@,
        GtmChannel::LinkedinDm => "linkedin_dm"@,
    }
}

/// The wire name of a channel.
pub fn channel_label(channel: GtmChannel) -> (r: &'static str)
    ensures
        r@ == channel_name(channel),
{
    match channel {
        GtmChannel::Email => "email",
        GtmChannel::LinkedinAds => "linkedin_ads",
        GtmChannel::HubspotWorkflow => "hubspot_workflow",
        GtmChannel::LinkedinDm => "linkedin_dm",
    }
}

/// A team name: the value trimmed, or the fallback when blank.
pub open spec fn team_or(value: Seq<char>, fallback: Seq<char>) -> Seq<char> {
    if trim(value).len() == 0 {
        fallback
    } else {
        trim(value)
    }
}

pub fn normalize_non_empty(value: String, fallback: &str) -> (r: String)
    ensures
        r@ == team_or(value@, fallback@),
{
    if crate::text::is_blank(value.as_str()) {
        crate::text::owned(fallback)
    } else {
        crate::text::trim_string(&value)
    }
}

/// The instructions a rep follows for one contact.
pub open spec fn instructions_for(c: SegmentContact, template: Seq<char>) -> Seq<char> {
    let recipient = match c.first_name {
        Some(n) => n@,
        None => c.email@,
    };
    let company = match c.company_name {
        Some(n) => n@,
        None => "target account"@,
    };
    "Find "@ + recipient + " at "@ + company + " on LinkedIn, send DM using template `"@ + template
        + "`, then log outcome in HubSpot."@
}

pub fn build_linkedin_instructions(contact: &SegmentContact, template_id: &str) -> (r: String)
    ensures
        r@ == instructions_for(*contact, template_id@),
{
    let recipient = match &contact.first_name {
        Some(n) => n.as_str(),
        None => contact.email.as_str(),
    };
    let company = match &contact.company_name {
        Some(n) => n.as_str(),
        None => "target account",
    };
    let mut r = crate::text::concat3("Find ", recipient, " at ");
    r.append(company);
    r.append(" on LinkedIn, send DM using template `");
    r.append(template_id);
    r.append("`, then log outcome in HubSpot.");
    r
}

/// Position of the last contact with this recipient id (a map keeps the
/// last insert), or -1.
pub open spec fn last_contact(m: Seq<SegmentContact>, id: u128) -> int
    decreases m.len(),
{
    if m.len() == 0 {
        -1
    } else if m.last().recipient_id == id {
        m.len() - 1
    } else {
        last_contact(m.drop_last(), id)
    }
}

/// `last_contact` is the position of the last contact with the id, or -1.
pub proof fn lemma_last_contact(m: Seq<SegmentContact>, id: u128)
    ensures
        -1 <= last_contact(m, id) < m.len(),
        last_contact(m, id) >= 0 ==> m[last_contact(m, id)].recipient_id == id,
    decreases m.len(),
{
    if m.len() > 0 && m.last().recipient_id != id {
        lemma_last_contact(m.drop_last(), id);
    }
}

fn find_contact(m: &Vec<SegmentContact>, id: u128) -> (r: Option<usize>)
    ensures
        match r {
            Some(k) => last_contact(m@, id) == k,
            None => last_contact(m@, id) == -1,
        },
{
    let mut i: usize = m.len();
    proof {
        assert(m@.take(m@.len() as int) =~= m@);
    }
    while i > 0
        invariant
            i <= m@.len(),
            last_contact(m@, id) == last_contact(m@.take(i as int), id),
        decreases i,
    {
        proof {
            let t = m@.take(i as int);
            assert(t.drop_last() =~= m@.take(i - 1));
            assert(t.last() == m@[i - 1]);
        }
        if m[i - 1].recipient_id == id {
            return Some(i - 1);
        }
        i = i - 1;
    }
    None
}

/// The send requests that find their contact, by position.
pub open spec fn matched(reqs: Seq<SendRequest>, m: Seq<SegmentContact>) -> Seq<int>
    decreases reqs.len(),
{
    if reqs.len() == 0 {
        Seq::empty()
    } else {
        let r = matched(reqs.drop_last(), m);
        if last_contact(m, reqs.last().recipient_id) >= 0 {
            r.push(reqs.len() - 1)
        } else {
            r
        }
    }
}

/// One error per send request whose contact is missing.
pub open spec fn missing_errors(reqs: Seq<SendRequest>, m: Seq<SegmentContact>) -> Seq<Seq<char>>
    decreases reqs.len(),
{
    if reqs.len() == 0 {
        Seq::empty()
    } else {
        let r = missing_errors(reqs.drop_last(), m);
        if last_contact(m, reqs.last().recipient_id) >= 0 {
            r
        } else {
            r.push("recipient "@ + uuid_text(reqs.last().recipient_id) + " not found in segment manifest"@)
        }
    }
}

/// Every send request becomes either a manual task or an error: the two
/// together are as many as the requests.
pub proof fn lemma_requests_accounted(reqs: Seq<SendRequest>, m: Seq<SegmentContact>)
    ensures
        matched(reqs, m).len() + missing_errors(reqs, m).len() == reqs.len(),
    decreases reqs.len(),
{
    if reqs.len() > 0 {
        lemma_requests_accounted(reqs.drop_last(), m);
    }
}

/// The dispatch items made for a send request (the `i`-th) to a contact
/// with a copy variant.
pub open spec fn items_with(
    e: AgentTaskEnvelope,
    input: ModeAOutboundDispatchInput,
    req: SendRequest,
    i: int,
    c: SegmentContact,
    v: MessageVariant,
    task: LinkedinManualSendTask,
    hs_task: HubspotTaskDraft,
    hs_comm: HubspotCommunicationDraft,
    approval: bool,
) -> bool {
    let id = "mode_a:"@ + uuid_simple_text(e.task_id) + ":"@ + decimal((i + 1) as nat);
    let team = team_or(input.assignee_team@, "sdr_team"@);
    &&& task.manual_task_id@ == id
    &&& task.recipient_id == c.recipient_id
    &&& task.account_id == c.account_id
    &&& task.recipient_email@ == c.email@
    &&& opt_str(task.recipient_name) == opt_str(c.first_name)
    &&& opt_str(task.company_name) == opt_str(c.company_name)
    &&& task.channel == GtmChannel::LinkedinDm
    &&& task.template_id@ == v.template_id@
    &&& task.send_at == req.send_at
    &&& task.assignee_team@ == team
    &&& task.status == (if approval { ManualDispatchStatus::PendingApproval } else { ManualDispatchStatus::ReadyForRep })
    &&& task.instructions@ == instructions_for(c, v.template_id@)
    &&& hs_task.external_id@ == id + ":hubspot_task"@
    &&& hs_task.subject@ == "[LinkedIn Manual Send] "@ + (match c.company_name { Some(n) => n@, None => c.email@ })
    &&& hs_task.body@ == "Use template `"@ + v.template_id@ + "` and send a LinkedIn DM manually.\nRecipient: "@ + c.email@
        + "\nSegment: "@ + input.outbound_input.message_bundle.segment_id@ + "\nMessage preview subject: "@ + v.subject@
    &&& hs_task.due_at == req.send_at
    &&& hs_task.contact_email@ == c.email@
    &&& hs_task.owner_team@ == team
    &&& hs_comm.external_id@ == id + ":hubspot_comm"@
    &&& hs_comm.channel == GtmChannel::LinkedinDm
    &&& hs_comm.contact_email@ == c.email@
    &&& hs_comm.scheduled_at == req.send_at
    &&& hs_comm.summary@ == "Planned manual LinkedIn outreach using template "@ + v.template_id@
}

/// The dispatch items made for the send request at `i` and its contact.
pub open spec fn items_for(
    e: AgentTaskEnvelope,
    input: ModeAOutboundDispatchInput,
    reqs: Seq<SendRequest>,
    i: int,
    task: LinkedinManualSendTask,
    hs_task: HubspotTaskDraft,
    hs_comm: HubspotCommunicationDraft,
    approval: bool,
) -> bool {
    let m = input.outbound_input.message_bundle.variants@;
    let ms = input.outbound_input.segment_manifest@;
    items_with(e, input, reqs[i], i, ms[last_contact(ms, reqs[i].recipient_id)], m[safest_variant(m)], task, hs_task, hs_comm, approval)
}

/// The approval is due: asked for, required by policy, or the copy is not low risk.
pub open spec fn dispatch_needs_approval(e: AgentTaskEnvelope, input: ModeAOutboundDispatchInput) -> bool {
    let m = input.outbound_input.message_bundle.variants@;
    input.approval_required || e.policy_pack.human_approval_required || m[safest_variant(m)].claim_risk != ClaimRisk::Low
}

/// The send requests worked from: those of the outbound output, or when it
/// has none, one per contact with the chosen template (timed by the clock).
pub open spec fn dispatch_requests(input: ModeAOutboundDispatchInput, reqs: Seq<SendRequest>) -> bool {
    let m = input.outbound_input.message_bundle.variants@;
    let given = input.outbound_output.send_requests@;
    if given.len() > 0 {
        reqs == given
    } else {
        &&& reqs.len() == input.outbound_input.segment_manifest@.len()
        &&& forall|i: int| 0 <= i < reqs.len() ==> {
            &&& (#[trigger] reqs[i]).recipient_id == input.outbound_input.segment_manifest@[i].recipient_id
            &&& reqs[i].template_id@ == m[safest_variant(m)].template_id@
        }
    }
}

/// Everything a successful dispatch states.
pub open spec fn dispatch_result(e: AgentTaskEnvelope, input: ModeAOutboundDispatchInput, reqs: Seq<SendRequest>, r: AgentTaskResult<ModeAOutboundDispatchOutput>) -> bool {
    let o = r.output_payload;
    let m = input.outbound_input.message_bundle.variants@;
    let v = m[safest_variant(m)];
    let approval = dispatch_needs_approval(e, input);
    let plan = matched(reqs, input.outbound_input.segment_manifest@);
    let n = plan.len();
    let queued = approval && n > 0;
    let missing = missing_errors(reqs, input.outbound_input.segment_manifest@);
    &&& dispatch_requests(input, reqs)
    &&& r.task_id == e.task_id
    &&& r.schema_version@ == GTM_SCHEMA_VERSION@
    &&& o.manual_send_tasks@.len() == n
    &&& o.hubspot_task_drafts@.len() == n
    &&& o.hubspot_communication_drafts@.len() == n
    &&& forall|k: int| 0 <= k < n ==> items_for(e, input, reqs, plan[k], #[trigger] o.manual_send_tasks@[k], o.hubspot_task_drafts@[k], o.hubspot_communication_drafts@[k], approval)
    &&& o.approval_queue@.len() == (if queued { 1int } else { 0 })
    &&& queued ==> approval_view(o.approval_queue@[0]) == (
        "Manual LinkedIn send tasks are queued and require manager approval before reps execute"@,
        if v.claim_risk == ClaimRisk::High { "high"@ } else { "medium"@ },
        team_or(input.reviewer_group@, "gtm_ops"@))
    &&& r.emitted_events@.len() == 3 * n + (if queued { 1int } else { 0 })
    &&& forall|k: int| 0 <= k < n ==> {
        let c = input.outbound_input.segment_manifest@[last_contact(input.outbound_input.segment_manifest@, reqs[plan[k]].recipient_id)];
        &&& event_is(#[trigger] r.emitted_events@[3 * k], e, AgentId::RachelOutboundSdr, "mode_a.manual_send.task_created"@, SubjectType::Contact, c.recipient_id, EventPayload::ManualSendTask(k as usize))
        &&& event_is(r.emitted_events@[3 * k + 1], e, AgentId::RachelOutboundSdr, "mode_a.hubspot.task.drafted"@, SubjectType::Contact, c.recipient_id, EventPayload::HubspotTask(k as usize))
        &&& event_is(r.emitted_events@[3 * k + 2], e, AgentId::RachelOutboundSdr, "mode_a.hubspot.communication.drafted"@, SubjectType::Contact, c.recipient_id, EventPayload::HubspotCommunication(k as usize))
    }
    &&& queued ==> event_is(r.emitted_events@[3 * n as int], e, AgentId::RachelOutboundSdr, "mode_a.approval.queued"@, SubjectType::Campaign, e.objective_id, EventPayload::ApprovalRequest(0))
    &&& strs(r.errors@) == missing + (if n == 0 && missing.len() == 0 { seq!["no manual LinkedIn tasks could be generated"@] } else { Seq::empty() })
    &&& r.status == (if n == 0 { TaskStatus::Failed } else if queued { TaskStatus::NeedsHuman } else { TaskStatus::Succeeded })
    &&& strs(r.evidence_refs@) == seq!["segment:"@ + input.outbound_input.message_bundle.segment_id@]
    &&& r.next_action@ == (if n == 0 {
        "Fix segment manifest and outbound sequence before creating manual tasks"@
    } else if queued {
        "Complete manager approval, then reps execute LinkedIn sends and mark completion"@
    } else {
        "Create HubSpot tasks and start manual LinkedIn execution"@
    })
}

/// What the dispatch answers: the refusals, or a result.
pub open spec fn dispatch_answer(e: AgentTaskEnvelope, input: ModeAOutboundDispatchInput, r: Result<AgentTaskResult<ModeAOutboundDispatchOutput>, ModeAAgentError>) -> bool {
    match input.outbound_output.sequence_draft {
        None => r matches Err(ModeAAgentError::MissingSequenceDraft),
        Some(seq) => if seq.channel != GtmChannel::LinkedinDm {
            r matches Err(ModeAAgentError::UnsupportedChannel(c)) && c@ == channel_name(seq.channel)
        } else if input.outbound_input.message_bundle.variants@.len() == 0 {
            r matches Err(ModeAAgentError::MissingMessageVariant)
        } else {
            r matches Ok(res) && exists|reqs: Seq<SendRequest>| dispatch_result(e, input, reqs, res)
        },
    }
}

/// Send requests for every contact, five minutes apart from now.
fn synthesize_send_requests(m: &Vec<SegmentContact>, template_id: &String) -> (r: Vec<SendRequest>)
    requires
        m@.len() <= crate::gtm::ids::MAX_FIVE_MINUTE_STEPS,
    ensures
        r@.len() == m@.len(),
        forall|i: int| 0 <= i < r@.len() ==> {
            &&& (#[trigger] r@[i]).recipient_id == m@[i].recipient_id
            &&& r@[i].template_id@ == template_id@
        },
{
    let mut r: Vec<SendRequest> = Vec::new();
    let mut i: usize = 0;
    while i < m.len()
        invariant
            i <= m@.len(),
            m@.len() <= crate::gtm::ids::MAX_FIVE_MINUTE_STEPS,
            r@.len() == i,
            forall|j: int| 0 <= j < i ==> {
                &&& (#[trigger] r@[j]).recipient_id == m@[j].recipient_id
                &&& r@[j].template_id@ == template_id@
            },
        decreases m@.len() - i,
    {
        let now = crate::gtm::ids::now_ms();
        let offset: i64 = (i as i64) * 5 * MINUTE_MS;
        r.push(SendRequest { recipient_id: m[i].recipient_id, template_id: template_id.clone(), send_at: now + offset });
        i = i + 1;
    }
    r
}

fn dispatch_items(
    e: &AgentTaskEnvelope,
    input: &ModeAOutboundDispatchInput,
    req: &SendRequest,
    i: usize,
    c: &SegmentContact,
    v: &MessageVariant,
    simple: &String,
    assignee_team: &String,
    approval: bool,
) -> (r: (LinkedinManualSendTask, HubspotTaskDraft, HubspotCommunicationDraft))
    requires
        i < usize::MAX,
        simple@ == uuid_simple_text(e.task_id),
        assignee_team@ == team_or(input.assignee_team@, "sdr_team"@),
    ensures
        items_with(*e, *input, *req, i as int, *c, *v, r.0, r.1, r.2, approval),
{
    let ordinal = crate::number::usize_to_string(i + 1);
    let mut task_id = crate::text::concat3("mode_a:", simple.as_str(), ":");
    task_id.append(ordinal.as_str());
    let status = if approval {
        ManualDispatchStatus::PendingApproval
    } else {
        ManualDispatchStatus::ReadyForRep
    };
    let shown = match &c.company_name {
        Some(n) => n.as_str(),
        None => c.email.as_str(),
    };
    let subject = crate::text::concat2("[LinkedIn Manual Send] ", shown);
    let mut body = crate::text::concat3("Use template `", v.template_id.as_str(), "` and send a LinkedIn DM manually.\nRecipient: ");
    body.append(c.email.as_str());
    body.append("\nSegment: ");
    body.append(input.outbound_input.message_bundle.segment_id.as_str());
    body.append("\nMessage preview subject: ");
    body.append(v.subject.as_str());
    let hs_task = HubspotTaskDraft {
        external_id: crate::text::concat2(task_id.as_str(), ":hubspot_task"),
        subject,
        body,
        due_at: req.send_at,
        contact_email: c.email.clone(),
        owner_team: assignee_team.clone(),
    };
    let hs_comm = HubspotCommunicationDraft {
        external_id: crate::text::concat2(task_id.as_str(), ":hubspot_comm"),
        channel: GtmChannel::LinkedinDm,
        contact_email: c.email.clone(),
        scheduled_at: req.send_at,
        summary: crate::text::concat2("Planned manual LinkedIn outreach using template ", v.template_id.as_str()),
    };
    let task = LinkedinManualSendTask {
        manual_task_id: task_id,
        recipient_id: c.recipient_id,
        account_id: c.account_id,
        recipient_email: c.email.clone(),
        recipient_name: crate::text::clone_opt(&c.first_name),
        company_name: crate::text::clone_opt(&c.company_name),
        channel: GtmChannel::LinkedinDm,
        template_id: v.template_id.clone(),
        send_at: req.send_at,
        assignee_team: assignee_team.clone(),
        status,
        instructions: build_linkedin_instructions(c, v.template_id.as_str()),
    };
    (task, hs_task, hs_comm)
}

fn copy_requests(v: &Vec<SendRequest>) -> (r: Vec<SendRequest>)
    ensures
        r@ == v@,
{
    let mut r: Vec<SendRequest> = Vec::new();
    let mut i: usize = 0;
    while i < v.len()
        invariant
            i <= v@.len(),
            r@ == v@.take(i as int),
        decreases v@.len() - i,
    {
        r.push(SendRequest { recipient_id: v[i].recipient_id, template_id: v[i].template_id.clone(), send_at: v[i].send_at });
        i = i + 1;
        proof {
            assert(r@ =~= v@.take(i as int));
        }
    }
    proof {
        assert(v@.take(v@.len() as int) =~= v@);
    }
    r
}

impl ModeAAgentEngine {
    /// Turns a LinkedIn DM sequence into manual send tasks for reps, with a
    /// HubSpot task and communication draft each, queued for approval when
    /// asked for, required by policy, or the copy is not low risk.
    #[verifier::spinoff_prover]
    #[verifier::rlimit(40)]
    pub fn run_linkedin_dispatch(&self, envelope: AgentTaskEnvelope, input: ModeAOutboundDispatchInput) -> (r: Result<
        AgentTaskResult<ModeAOutboundDispatchOutput>,
        ModeAAgentError,
    >)
        requires
            input.outbound_input.segment_manifest@.len() <= crate::gtm::ids::MAX_FIVE_MINUTE_STEPS,
            input.outbound_input.segment_manifest@.len() < usize::MAX,
            input.outbound_output.send_requests@.len() < usize::MAX,
        ensures
            dispatch_answer(envelope, input, r),
    {
        let channel = match &input.outbound_output.sequence_draft {
            Some(s) => s.channel,
            None => {
                return Err(ModeAAgentError::MissingSequenceDraft);
            },
        };
        if channel != GtmChannel::LinkedinDm {
            return Err(ModeAAgentError::UnsupportedChannel(crate::text::owned(channel_label(channel))));
        }
        if input.outbound_input.message_bundle.variants.len() == 0 {
            return Err(ModeAAgentError::MissingMessageVariant);
        }
        let vi = crate::gtm::phase1::select_variant(&input.outbound_input.message_bundle.variants);
        proof {
            crate::gtm::phase1::lemma_safest_variant(input.outbound_input.message_bundle.variants@);
        }
        let variant = &input.outbound_input.message_bundle.variants[vi];
        let reviewer_group = normalize_non_empty(input.reviewer_group.clone(), "gtm_ops");
        let assignee_team = normalize_non_empty(input.assignee_team.clone(), "sdr_team");
        let approval = input.approval_required || envelope.policy_pack.human_approval_required || variant.claim_risk
            != ClaimRisk::Low;
        let reqs = if input.outbound_output.send_requests.len() == 0 {
            synthesize_send_requests(&input.outbound_input.segment_manifest, &variant.template_id)
        } else {
            copy_requests(&input.outbound_output.send_requests)
        };
        let ghost m = input.outbound_input.segment_manifest@;
        let ghost mut plan: Seq<int> = Seq::empty();
        let mut tasks: Vec<LinkedinManualSendTask> = Vec::new();
        let mut hs_tasks: Vec<HubspotTaskDraft> = Vec::new();
        let mut hs_comms: Vec<HubspotCommunicationDraft> = Vec::new();
        let mut errors: Vec<String> = Vec::new();
        let mut events: Vec<EventEnvelope> = Vec::new();
        let simple = crate::gtm::ids::uuid_simple(envelope.task_id);
        let mut i: usize = 0;
        proof {
            assert(reqs@.take(0) =~= Seq::<SendRequest>::empty());
        }
        while i < reqs.len()
            invariant
                i <= reqs@.len(),
                reqs@.len() < usize::MAX,
                m == input.outbound_input.segment_manifest@,
                simple@ == uuid_simple_text(envelope.task_id),
                assignee_team@ == team_or(input.assignee_team@, "sdr_team"@),
                vi == safest_variant(input.outbound_input.message_bundle.variants@),
                vi < input.outbound_input.message_bundle.variants@.len(),
                *variant == input.outbound_input.message_bundle.variants@[vi as int],
                approval == dispatch_needs_approval(envelope, input),
                plan == matched(reqs@.take(i as int), m),
                tasks@.len() == plan.len(),
                hs_tasks@.len() == plan.len(),
                hs_comms@.len() == plan.len(),
                forall|k: int| 0 <= k < plan.len() ==> 0 <= #[trigger] plan[k] < i,
                forall|k: int| 0 <= k < plan.len() ==> items_for(envelope, input, reqs@, plan[k], #[trigger] tasks@[k], hs_tasks@[k], hs_comms@[k], approval),
                strs(errors@) == missing_errors(reqs@.take(i as int), m),
                events@.len() == 3 * plan.len(),
                forall|k: int| 0 <= k < plan.len() ==> {
                    let c = m[last_contact(m, reqs@[plan[k]].recipient_id)];
                    &&& event_is(#[trigger] events@[3 * k], envelope, AgentId::RachelOutboundSdr, "mode_a.manual_send.task_created"@, SubjectType::Contact, c.recipient_id, EventPayload::ManualSendTask(k as usize))
                    &&& event_is(events@[3 * k + 1], envelope, AgentId::RachelOutboundSdr, "mode_a.hubspot.task.drafted"@, SubjectType::Contact, c.recipient_id, EventPayload::HubspotTask(k as usize))
                    &&& event_is(events@[3 * k + 2], envelope, AgentId::RachelOutboundSdr, "mode_a.hubspot.communication.drafted"@, SubjectType::Contact, c.recipient_id, EventPayload::HubspotCommunication(k as usize))
                },
            decreases reqs@.len() - i,
        {
            let ghost before = reqs@.take(i as int);
            let ghost after = reqs@.take(i + 1);
            proof {
                assert(after.drop_last() =~= before);
                assert(after.last() == reqs@[i as int]);
            }
            let req = &reqs[i];
            match find_contact(&input.outbound_input.segment_manifest, req.recipient_id) {
                None => {
                    let id = crate::gtm::ids::uuid_hyphenated(req.recipient_id);
                    errors.push(crate::text::concat3("recipient ", id.as_str(), " not found in segment manifest"));
                    proof {
                        assert(strs(errors@) =~= missing_errors(after, m));
                    }
                },
                Some(ci) => {
                    proof {
                        lemma_last_contact(m, req.recipient_id);
                    }
                    let contact = &input.outbound_input.segment_manifest[ci];
                    let k = tasks.len();
                    let (task, hs_task, hs_comm) = dispatch_items(&envelope, &input, req, i, contact, variant, &simple, &assignee_team, approval);
                    events.push(make_event(&envelope, AgentId::RachelOutboundSdr, "mode_a.manual_send.task_created", SubjectType::Contact, contact.recipient_id, EventPayload::ManualSendTask(k)));
                    events.push(make_event(&envelope, AgentId::RachelOutboundSdr, "mode_a.hubspot.task.drafted", SubjectType::Contact, contact.recipient_id, EventPayload::HubspotTask(k)));
                    events.push(make_event(&envelope, AgentId::RachelOutboundSdr, "mode_a.hubspot.communication.drafted", SubjectType::Contact, contact.recipient_id, EventPayload::HubspotCommunication(k)));
                    tasks.push(task);
                    hs_tasks.push(hs_task);
                    hs_comms.push(hs_comm);
                    proof {
                        plan = plan.push(i as int);
                        assert(items_for(envelope, input, reqs@, i as int, tasks@[k as int], hs_tasks@[k as int], hs_comms@[k as int], approval));
                    }
                },
            }
            i = i + 1;
        }
        proof {
            assert(reqs@.take(reqs@.len() as int) =~= reqs@);
        }
        let n = tasks.len();
        let ghost ev_loop = events@;
        let mut queue: Vec<ApprovalRequest> = Vec::new();
        if approval && n > 0 {
            let risk = if variant.claim_risk == ClaimRisk::High {
                "high"
            } else {
                "medium"
            };
            queue.push(ApprovalRequest {
                reason: crate::text::owned("Manual LinkedIn send tasks are queued and require manager approval before reps execute"),
                risk_level: crate::text::owned(risk),
                reviewer_group,
            });
            events.push(make_event(&envelope, AgentId::RachelOutboundSdr, "mode_a.approval.queued", SubjectType::Campaign, envelope.objective_id, EventPayload::ApprovalRequest(0)));
        }
        if n == 0 && errors.len() == 0 {
            errors.push(crate::text::owned("no manual LinkedIn tasks could be generated"));
        }
        proof {
            assert(strs(errors@) =~= missing_errors(reqs@, m) + (if n == 0 && missing_errors(reqs@, m).len() == 0 { seq!["no manual LinkedIn tasks could be generated"@] } else { Seq::<Seq<char>>::empty() }));
        }
        let status = if n == 0 {
            TaskStatus::Failed
        } else if queue.len() > 0 {
            TaskStatus::NeedsHuman
        } else {
            TaskStatus::Succeeded
        };
        let next_action = if n == 0 {
            crate::text::owned("Fix segment manifest and outbound sequence before creating manual tasks")
        } else if queue.len() > 0 {
            crate::text::owned("Complete manager approval, then reps execute LinkedIn sends and mark completion")
        } else {
            crate::text::owned("Create HubSpot tasks and start manual LinkedIn execution")
        };
        let evidence = vec![crate::text::concat2("segment:", input.outbound_input.message_bundle.segment_id.as_str())];
        proof {
            assert(strs(evidence@) =~= seq!["segment:"@ + input.outbound_input.message_bundle.segment_id@]);
        }
        let output = ModeAOutboundDispatchOutput {
            approval_queue: queue,
            manual_send_tasks: tasks,
            hubspot_task_drafts: hs_tasks,
            hubspot_communication_drafts: hs_comms,
        };
        let res = AgentTaskResult {
            task_id: envelope.task_id,
            status,
            schema_version: crate::text::owned(GTM_SCHEMA_VERSION),
            output_payload: output,
            emitted_events: events,
            evidence_refs: evidence,
            next_action,
            errors,
        };
        proof {
            assert(strs(res.evidence_refs@) == seq!["segment:"@ + input.outbound_input.message_bundle.segment_id@]);
            assert(dispatch_requests(input, reqs@));
            assert(plan == matched(reqs@, m));
            let o = res.output_payload;
            assert(o.manual_send_tasks@.len() == plan.len());
            assert(forall|k: int| 0 <= k < plan.len() ==> items_for(envelope, input, reqs@, plan[k], #[trigger] o.manual_send_tasks@[k], o.hubspot_task_drafts@[k], o.hubspot_communication_drafts@[k], approval));
            assert(o.approval_queue@.len() == (if approval && plan.len() > 0 { 1int } else { 0 }));
            assert(res.emitted_events@.len() == 3 * plan.len() + (if approval && plan.len() > 0 { 1int } else { 0 }));
            assert(res.status == (if plan.len() == 0 { TaskStatus::Failed } else if approval && plan.len() > 0 { TaskStatus::NeedsHuman } else { TaskStatus::Succeeded }));
            let evs = res.emitted_events@;
            assert forall|k: int| 0 <= k < plan.len() implies {
                let c = m[last_contact(m, reqs@[plan[k]].recipient_id)];
                &&& event_is(#[trigger] evs[3 * k], envelope, AgentId::RachelOutboundSdr, "mode_a.manual_send.task_created"@, SubjectType::Contact, c.recipient_id, EventPayload::ManualSendTask(k as usize))
                &&& event_is(evs[3 * k + 1], envelope, AgentId::RachelOutboundSdr, "mode_a.hubspot.task.drafted"@, SubjectType::Contact, c.recipient_id, EventPayload::HubspotTask(k as usize))
                &&& event_is(evs[3 * k + 2], envelope, AgentId::RachelOutboundSdr, "mode_a.hubspot.communication.drafted"@, SubjectType::Contact, c.recipient_id, EventPayload::HubspotCommunication(k as usize))
            } by {
                assert(evs[3 * k] == ev_loop[3 * k]);
                assert(evs[3 * k + 1] == ev_loop[3 * k + 1]);
                assert(evs[3 * k + 2] == ev_loop[3 * k + 2]);
            }
            assert(dispatch_result(envelope, input, reqs@, res));
        }
        Ok(res)
    }
}

/// Inputs of a mode A run.
#[derive(Debug, Clone)]
pub struct ModeAWorkflowInput {
    pub base_envelope: AgentTaskEnvelope,
    pub dispatch: ModeAOutboundDispatchInput,
}

/// Result of a mode A run, with its events.
#[derive(Debug, Clone)]
pub struct ModeAWorkflowResult {
    pub dispatch: AgentTaskResult<ModeAOutboundDispatchOutput>,
    pub events: Vec<EventEnvelope>,
}

impl ModeAAgentEngine {
    /// Runs the dispatch on the base request handed to the outbound agent.
    pub fn run_workflow(&self, input: ModeAWorkflowInput) -> (r: Result<ModeAWorkflowResult, ModeAAgentError>)
        requires
            input.dispatch.outbound_input.segment_manifest@.len() <= crate::gtm::ids::MAX_FIVE_MINUTE_STEPS,
            input.dispatch.outbound_input.segment_manifest@.len() < usize::MAX,
            input.dispatch.outbound_output.send_requests@.len() < usize::MAX,
        ensures
            exists|e: AgentTaskEnvelope| handed_to(e, input.base_envelope, AgentId::RachelOutboundSdr) && dispatch_answer(e, input.dispatch, match r {
                Ok(w) => Ok(w.dispatch),
                Err(x) => Err(x),
            }),
            r matches Ok(w) ==> w.events@ == w.dispatch.emitted_events@,
    {
        let e = input.base_envelope.with_agent(AgentId::RachelOutboundSdr);
        let dispatch = self.run_linkedin_dispatch(e, input.dispatch);
        proof {
            assert(handed_to(e, input.base_envelope, AgentId::RachelOutboundSdr));
        }
        match dispatch {
            Ok(d) => {
                let mut events: Vec<EventEnvelope> = Vec::new();
                extend_events(&mut events, &d.emitted_events);
                proof {
                    assert(events@ =~= d.emitted_events@);
                }
                Ok(ModeAWorkflowResult { dispatch: d, events })
            },
            Err(x) => Err(x),
        }
    }
}

} // verus!
