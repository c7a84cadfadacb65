use scheduler_module::gtm::contracts::{
    AccountSignal, ActivationGap, AgentId, AgentTaskEnvelope, AssetChannel, BusinessContext, ChannelPolicy, ClaimRisk,
    ClusterPolicy, ContentInput, CurrentState, ExperimentInput, FeedbackItem, FeedbackPrdInput, FeedbackSource,
    FunnelStage, GtmChannel, IcpScoutInput, IcpTier, InsightCluster, ManualDispatchStatus, MessageBundle, MessageMap,
    MessageVariant, ModeAOutboundDispatchInput, Objective, OnboardingInput, OrchestratorInput, OutboundSdrInput,
    OutboundSdrOutput, PolicyPack, PositioningBundle, PositioningInput, PrdDraft, ProductContext, ResourceLimits,
    RiskSeverity, SegmentContact, SegmentDefinition, SendRequest, SequenceDraft, SequencePolicy, SequenceTouch,
    TaskPriority, TaskStatus, UpliftTrend,
};
use scheduler_module::gtm::mode_a::{ModeAAgentEngine, ModeAAgentError, ModeAWorkflowInput};
use scheduler_module::gtm::phase1::{
    effort_percent_for_theme, priority_bases, tier_for_score, Phase1AgentEngine, Phase1WorkflowInput,
};
use scheduler_module::gtm::phase2::{Phase2AgentEngine, Phase2AgentError, Phase2WorkflowInput};
use scheduler_module::gtm::phase3::{Phase3AgentEngine, Phase3AgentError, Phase3WorkflowInput};
use uuid::Uuid;

const NOW_MS: i64 = 1_700_000_000_000;

fn id() -> u128 {
    Uuid::new_v4().as_u128()
}

fn base_envelope(agent_id: AgentId, input_ref: &str) -> AgentTaskEnvelope {
    let mut envelope = AgentTaskEnvelope::new(agent_id);
    envelope.priority = TaskPriority::High;
    envelope.policy_pack = PolicyPack::default();
    envelope.input_refs = vec![input_ref.to_string()];
    envelope
}

fn has_event(events: &[scheduler_module::gtm::contracts::EventEnvelope], event_type: &str) -> bool {
    events.iter().any(|event| event.event_type == event_type)
}

// ---------------------------------------------------------------- mode A

fn mode_a_envelope() -> AgentTaskEnvelope {
    let mut envelope = AgentTaskEnvelope::new(AgentId::RachelOrchestrator);
    envelope.priority = TaskPriority::High;
    envelope.policy_pack.allowed_channels = vec![GtmChannel::LinkedinDm, GtmChannel::HubspotWorkflow];
    envelope
}

fn outbound_input(risk: ClaimRisk) -> OutboundSdrInput {
    OutboundSdrInput {
        segment_manifest: vec![
            SegmentContact {
                recipient_id: id(),
                account_id: id(),
                email: "alpha@example.com".to_string(),
                first_name: Some("Avery".to_string()),
                job_title: Some("Head of Growth".to_string()),
                company_name: Some("Alpha".to_string()),
                timezone: Some("America/Los_Angeles".to_string()),
            },
            SegmentContact {
                recipient_id: id(),
                account_id: id(),
                email: "bravo@example.com".to_string(),
                first_name: Some("Bailey".to_string()),
                job_title: Some("VP Marketing".to_string()),
                company_name: Some("Bravo".to_string()),
                timezone: Some("America/New_York".to_string()),
            },
        ],
        message_bundle: MessageBundle {
            segment_id: "tier_a_high_fit".to_string(),
            variants: vec![MessageVariant {
                template_id: "linkedin_dm_safe_v1".to_string(),
                subject: "Idea for faster GTM execution".to_string(),
                body: "Sharing a short playbook.".to_string(),
                claim_risk: risk,
            }],
        },
        sequence_policy: SequencePolicy { max_touches: 3, cadence_days: 2, stop_conditions: vec!["positive_reply".to_string()] },
        channel_policy: ChannelPolicy { email_enabled: false, linkedin_ads_enabled: false, linkedin_dm_enabled: true },
    }
}

fn outbound_output(input: &OutboundSdrInput, channel: GtmChannel) -> OutboundSdrOutput {
    OutboundSdrOutput {
        sequence_draft: Some(SequenceDraft {
            sequence_id: format!("seq-{}", Uuid::new_v4().simple()),
            touches: vec![SequenceTouch {
                touch_number: 1,
                offset_days: 0,
                channel,
                template_id: "linkedin_dm_safe_v1".to_string(),
            }],
            channel,
        }),
        personalization_fields_used: vec!["first_name".to_string()],
        send_requests: input
            .segment_manifest
            .iter()
            .enumerate()
            .map(|(idx, contact)| SendRequest {
                recipient_id: contact.recipient_id,
                template_id: "linkedin_dm_safe_v1".to_string(),
                send_at: NOW_MS + (idx as i64) * 300_000,
            })
            .collect(),
        reply_classifications: Vec::new(),
        handoffs: Vec::new(),
    }
}

fn dispatch_input(output: OutboundSdrOutput, input: OutboundSdrInput, approval_required: bool) -> ModeAOutboundDispatchInput {
    ModeAOutboundDispatchInput {
        outbound_input: input,
        outbound_output: output,
        assignee_team: "sdr_team".to_string(),
        reviewer_group: "gtm_ops".to_string(),
        approval_required,
    }
}

#[test]
fn mode_a_dispatch_creates_approval_and_hubspot_drafts() {
    let engine = ModeAAgentEngine;
    let input = outbound_input(ClaimRisk::Low);
    let output = outbound_output(&input, GtmChannel::LinkedinDm);
    let result = engine.run_linkedin_dispatch(mode_a_envelope(), dispatch_input(output, input, true)).unwrap();
    assert_eq!(result.status, TaskStatus::NeedsHuman);
    assert_eq!(result.output_payload.manual_send_tasks.len(), 2);
    assert_eq!(result.output_payload.hubspot_task_drafts.len(), 2);
    assert_eq!(result.output_payload.hubspot_communication_drafts.len(), 2);
    assert_eq!(result.output_payload.approval_queue.len(), 1);
    assert!(result.output_payload.manual_send_tasks.iter().all(|task| task.status == ManualDispatchStatus::PendingApproval));
    assert!(result.emitted_events.iter().any(|event| event.event_type == "mode_a.approval.queued"));
}

#[test]
fn mode_a_dispatch_rejects_non_linkedin_channel() {
    let engine = ModeAAgentEngine;
    let input = outbound_input(ClaimRisk::Low);
    let output = outbound_output(&input, GtmChannel::Email);
    let error = engine.run_linkedin_dispatch(mode_a_envelope(), dispatch_input(output, input, true)).unwrap_err();
    assert!(matches!(error, ModeAAgentError::UnsupportedChannel(_)));
}

#[test]
fn mode_a_dispatch_can_prepare_ready_for_rep_tasks() {
    let engine = ModeAAgentEngine;
    let input = outbound_input(ClaimRisk::Low);
    let mut output = outbound_output(&input, GtmChannel::LinkedinDm);
    output.send_requests.clear();
    let result = engine.run_linkedin_dispatch(mode_a_envelope(), dispatch_input(output, input, false)).unwrap();
    assert_eq!(result.status, TaskStatus::Succeeded);
    assert_eq!(result.output_payload.approval_queue.len(), 0);
    assert_eq!(result.output_payload.manual_send_tasks.len(), 2);
    assert!(result.output_payload.manual_send_tasks.iter().all(|task| task.status == ManualDispatchStatus::ReadyForRep));
}

#[test]
fn mode_a_dispatch_reports_missing_parts() {
    let engine = ModeAAgentEngine;
    let input = outbound_input(ClaimRisk::Low);
    let mut output = outbound_output(&input, GtmChannel::LinkedinDm);
    output.sequence_draft = None;
    let error = engine.run_linkedin_dispatch(mode_a_envelope(), dispatch_input(output, input.clone(), true)).unwrap_err();
    assert!(matches!(error, ModeAAgentError::MissingSequenceDraft));
    let mut no_variants = input.clone();
    no_variants.message_bundle.variants.clear();
    let output = outbound_output(&no_variants, GtmChannel::LinkedinDm);
    let error = engine.run_linkedin_dispatch(mode_a_envelope(), dispatch_input(output, no_variants, true)).unwrap_err();
    assert!(matches!(error, ModeAAgentError::MissingMessageVariant));
}

#[test]
fn mode_a_workflow_hands_dispatch_to_outbound_agent() {
    let engine = ModeAAgentEngine;
    let input = outbound_input(ClaimRisk::Low);
    let output = outbound_output(&input, GtmChannel::LinkedinDm);
    let result = engine
        .run_workflow(ModeAWorkflowInput { base_envelope: mode_a_envelope(), dispatch: dispatch_input(output, input, true) })
        .unwrap();
    assert_eq!(result.events.len(), result.dispatch.emitted_events.len());
    assert!(result.events.iter().all(|e| e.producer == AgentId::RachelOutboundSdr));
}

// ---------------------------------------------------------------- phase 1

#[test]
fn orchestrator_assigns_three_phase1_agents() {
    let engine = Phase1AgentEngine;
    let envelope = base_envelope(AgentId::RachelOrchestrator, "warehouse://daily_snapshot");
    let input = OrchestratorInput {
        objective: Objective {
            name: "Increase SQL quality".to_string(),
            target_metric: "sql_conversion_rate".to_string(),
            target_value: "0.24".to_string(),
            due_date: None,
            owner: "gtm_lead".to_string(),
        },
        current_state: CurrentState::default(),
        resource_limits: ResourceLimits { daily_email_cap: 1000, budget_cap_usd: 20_000, human_review_capacity: 4 },
    };
    let result = engine.run_orchestrator(envelope, input).unwrap();
    assert_eq!(result.status, TaskStatus::Succeeded);
    assert_eq!(result.output_payload.task_assignments.len(), 3);
    let assigned = |a: AgentId| result.output_payload.task_assignments.iter().any(|t| t.agent_id == a);
    assert!(assigned(AgentId::RachelIcpScout));
    assert!(assigned(AgentId::RachelOutboundSdr));
    assert!(assigned(AgentId::RachelFeedbackPrdSynthesizer));
    assert!(has_event(&result.emitted_events, "orchestrator.task.assigned"));
}

fn account(company_size: u32, industry: &str, events: u32, tickets: u32, won: u32, lost: u32, churned: bool, days: u32, ltv: u64) -> AccountSignal {
    AccountSignal {
        entity_id: id(),
        company_size,
        industry: industry.to_string(),
        region: "US".to_string(),
        product_events_14d: events,
        support_tickets_30d: tickets,
        won_deals_12m: won,
        lost_deals_12m: lost,
        churned,
        activation_days: days,
        ltv_usd: ltv,
    }
}

#[test]
fn icp_scout_scores_accounts_and_promotes_segments() {
    let engine = Phase1AgentEngine;
    let envelope = base_envelope(AgentId::RachelIcpScout, "warehouse://daily_snapshot");
    let input = IcpScoutInput {
        accounts: vec![
            account(120, "SaaS", 14, 1, 5, 1, false, 4, 9000),
            account(20, "SaaS", 6, 3, 2, 2, false, 10, 3000),
            account(8, "Agency", 1, 10, 0, 4, true, 45, 500),
        ],
        current_segment_ids: vec!["tier_a_high_fit".to_string()],
        min_sample_size: 2,
    };
    let result = engine.run_icp_scout(envelope, input).unwrap();
    assert_eq!(result.status, TaskStatus::Succeeded);
    assert_eq!(result.output_payload.icp_scores.len(), 3);
    assert!(result.output_payload.icp_scores.iter().any(|score| score.tier == IcpTier::A));
    assert!(result.output_payload.segment_definitions.len() >= 2);
    assert!(has_event(&result.emitted_events, "icp.segment.promoted"));
    let scores: Vec<u8> = result.output_payload.icp_scores.iter().map(|s| s.score_0_100).collect();
    assert!(scores.windows(2).all(|w| w[0] >= w[1]));
}

#[test]
fn icp_tiers_follow_score_thresholds() {
    assert_eq!(tier_for_score(100), IcpTier::A);
    assert_eq!(tier_for_score(0), IcpTier::D);
    let mut seen = vec![];
    for s in 0..=100u8 {
        seen.push(tier_for_score(s));
    }
    let mut last = IcpTier::D;
    for t in seen {
        let rank = |t: IcpTier| match t {
            IcpTier::D => 0,
            IcpTier::C => 1,
            IcpTier::B => 2,
            IcpTier::A => 3,
        };
        assert!(rank(t) >= rank(last));
        last = t;
    }
}

#[test]
fn outbound_requires_human_review_for_high_risk_copy() {
    let engine = Phase1AgentEngine;
    let envelope = base_envelope(AgentId::RachelOutboundSdr, "warehouse://daily_snapshot");
    let input = OutboundSdrInput {
        segment_manifest: vec![SegmentContact {
            recipient_id: id(),
            account_id: id(),
            email: "prospect@example.com".to_string(),
            first_name: Some("Taylor".to_string()),
            job_title: Some("VP Revenue".to_string()),
            company_name: Some("Acme".to_string()),
            timezone: Some("America/Los_Angeles".to_string()),
        }],
        message_bundle: MessageBundle {
            segment_id: "tier_a_high_fit".to_string(),
            variants: vec![MessageVariant {
                template_id: "v1".to_string(),
                subject: "Guaranteed 4x pipeline in 2 weeks".to_string(),
                body: "High-risk claim copy".to_string(),
                claim_risk: ClaimRisk::High,
            }],
        },
        sequence_policy: SequencePolicy { max_touches: 3, cadence_days: 3, stop_conditions: vec!["positive_reply".to_string()] },
        channel_policy: ChannelPolicy { email_enabled: true, linkedin_ads_enabled: false, linkedin_dm_enabled: false },
    };
    let result = engine.run_outbound_sdr(envelope, input).unwrap();
    assert_eq!(result.status, TaskStatus::NeedsHuman);
    assert!(result.output_payload.send_requests.is_empty());
    assert!(has_event(&result.emitted_events, "approval.requested"));
}

fn feedback(source: FeedbackSource, segment: &str, text: &str, evidence: &str) -> FeedbackItem {
    FeedbackItem {
        feedback_id: id(),
        source,
        segment_id: Some(segment.to_string()),
        text: text.to_string(),
        created_at: NOW_MS,
        evidence_ref: Some(evidence.to_string()),
    }
}

#[test]
fn feedback_prd_generates_cluster_and_prd_draft() {
    let engine = Phase1AgentEngine;
    let envelope = base_envelope(AgentId::RachelFeedbackPrdSynthesizer, "warehouse://daily_snapshot");
    let input = FeedbackPrdInput {
        feedback_items: vec![
            feedback(FeedbackSource::SupportTicket, "tier_a_high_fit", "HubSpot integration keeps failing for custom fields", "ticket:123"),
            feedback(FeedbackSource::SalesCall, "tier_a_high_fit", "Need better API integration for CRM sync", "call:456"),
            feedback(FeedbackSource::OutboundReply, "fast_activation", "Your integration story is unclear", "reply:789"),
        ],
        product_context: ProductContext {
            roadmap_refs: vec!["roadmap://q2".to_string()],
            constraints: vec!["single backend engineer".to_string()],
            architecture_notes: vec!["legacy sync worker".to_string()],
        },
        business_context: BusinessContext {
            revenue_goal: "expand enterprise ARR".to_string(),
            strategic_themes: vec!["expansion".to_string()],
        },
        cluster_policy: ClusterPolicy { min_cluster_size: 2 },
    };
    let result = engine.run_feedback_prd(envelope, input).unwrap();
    assert_eq!(result.status, TaskStatus::Succeeded);
    assert!(!result.output_payload.insight_clusters.is_empty());
    assert!(!result.output_payload.prd_drafts.is_empty());
    assert!(has_event(&result.emitted_events, "prd.draft.generated"));
}

#[test]
fn feedback_prd_priority_bases_follow_the_clusters() {
    let engine = Phase1AgentEngine;
    let envelope = base_envelope(AgentId::RachelFeedbackPrdSynthesizer, "warehouse://daily_snapshot");
    let input = FeedbackPrdInput {
        feedback_items: vec![
            feedback(FeedbackSource::SupportTicket, "tier_a_high_fit", "HubSpot integration keeps failing", "ticket:1"),
            feedback(FeedbackSource::SalesCall, "fast_activation", "Need better API integration", "call:2"),
            feedback(FeedbackSource::OutboundReply, "tier_a_high_fit", "The webhook story is unclear", "reply:3"),
        ],
        product_context: ProductContext { roadmap_refs: Vec::new(), constraints: Vec::new(), architecture_notes: Vec::new() },
        business_context: BusinessContext { revenue_goal: "grow".to_string(), strategic_themes: Vec::new() },
        cluster_policy: ClusterPolicy { min_cluster_size: 2 },
    };
    let output = engine.run_feedback_prd(envelope, input).unwrap().output_payload;
    assert_eq!(output.insight_clusters.len(), 1);
    assert_eq!(output.insight_clusters[0].theme, "integration gap");
    let bases = priority_bases(&output);
    assert_eq!(bases.len(), 1);
    assert_eq!(bases[0].prd_id, output.prd_drafts[0].prd_id);
    assert!(bases[0].prd_id.starts_with("prd_"));
    assert_eq!(bases[0].effort_percent, 80);
    assert_eq!(bases[0].frequency, 3);
    assert_eq!(bases[0].reach_users, 2);
}

#[test]
fn effort_follows_the_theme() {
    assert_eq!(effort_percent_for_theme("integration gap"), 80);
    assert_eq!(effort_percent_for_theme("onboarding friction"), 55);
    assert_eq!(effort_percent_for_theme("pricing objection"), 45);
    assert_eq!(effort_percent_for_theme("outbound quality"), 50);
    assert_eq!(effort_percent_for_theme("feature discoverability"), 60);
}

#[test]
fn phase1_workflow_runs_all_four_agents() {
    let engine = Phase1AgentEngine;
    let workflow_input = Phase1WorkflowInput {
        base_envelope: base_envelope(AgentId::RachelOrchestrator, "warehouse://daily_snapshot"),
        orchestrator: OrchestratorInput {
            objective: Objective {
                name: "Improve pipeline quality".to_string(),
                target_metric: "meeting_to_sql".to_string(),
                target_value: "0.3".to_string(),
                due_date: None,
                owner: "gtm_lead".to_string(),
            },
            current_state: CurrentState::default(),
            resource_limits: ResourceLimits { daily_email_cap: 500, budget_cap_usd: 10_000, human_review_capacity: 2 },
        },
        icp_scout: IcpScoutInput {
            accounts: vec![account(75, "SaaS", 11, 1, 3, 1, false, 6, 7000)],
            current_segment_ids: Vec::new(),
            min_sample_size: 1,
        },
        outbound_sdr: OutboundSdrInput {
            segment_manifest: vec![SegmentContact {
                recipient_id: id(),
                account_id: id(),
                email: "prospect@company.com".to_string(),
                first_name: Some("Alex".to_string()),
                job_title: Some("Head of Marketing".to_string()),
                company_name: Some("Company".to_string()),
                timezone: None,
            }],
            message_bundle: MessageBundle {
                segment_id: "tier_a_high_fit".to_string(),
                variants: vec![MessageVariant {
                    template_id: "safe-v1".to_string(),
                    subject: "Idea to reduce time-to-value".to_string(),
                    body: "Low risk copy".to_string(),
                    claim_risk: ClaimRisk::Low,
                }],
            },
            sequence_policy: SequencePolicy { max_touches: 2, cadence_days: 3, stop_conditions: vec!["meeting_booked".to_string()] },
            channel_policy: ChannelPolicy { email_enabled: true, linkedin_ads_enabled: false, linkedin_dm_enabled: false },
        },
        feedback_prd: FeedbackPrdInput {
            feedback_items: vec![feedback(FeedbackSource::Onboarding, "tier_a_high_fit", "Onboarding setup takes too long", "onboarding:1")],
            product_context: ProductContext {
                roadmap_refs: Vec::new(),
                constraints: vec!["limited QA capacity".to_string()],
                architecture_notes: Vec::new(),
            },
            business_context: BusinessContext { revenue_goal: "reduce churn".to_string(), strategic_themes: vec!["activation".to_string()] },
            cluster_policy: ClusterPolicy { min_cluster_size: 1 },
        },
    };
    let result = engine.run_workflow(workflow_input).unwrap();
    assert_eq!(result.orchestrator.status, TaskStatus::Succeeded);
    assert_eq!(result.icp_scout.status, TaskStatus::Succeeded);
    assert_eq!(result.outbound_sdr.status, TaskStatus::Succeeded);
    assert_eq!(result.feedback_prd.status, TaskStatus::Succeeded);
    assert!(!result.events.is_empty());
    let total = result.orchestrator.emitted_events.len()
        + result.icp_scout.emitted_events.len()
        + result.outbound_sdr.emitted_events.len()
        + result.feedback_prd.emitted_events.len();
    assert_eq!(result.events.len(), total);
}

// ---------------------------------------------------------------- phase 2

fn positioning_input() -> PositioningInput {
    PositioningInput {
        segment_definitions: vec![
            SegmentDefinition { segment_id: "tier_a_high_fit".to_string(), rule_dsl: "icp_tier == 'A'".to_string() },
            SegmentDefinition { segment_id: "fast_activation".to_string(), rule_dsl: "activation_days <= 7".to_string() },
        ],
        insight_clusters: vec![InsightCluster {
            cluster_id: "cluster_integration_gap".to_string(),
            theme: "integration gap".to_string(),
            frequency: 4,
            affected_segments: vec!["tier_a_high_fit".to_string()],
            evidence_refs: vec!["ticket:123".to_string()],
        }],
        prd_drafts: vec![PrdDraft {
            prd_id: "prd_cluster_integration_gap".to_string(),
            problem: "integration gap occurred often".to_string(),
            users: vec!["tier_a_high_fit".to_string()],
            success_metrics: vec!["activation_rate_day_14".to_string()],
            scope: vec!["hubspot sync reliability".to_string()],
            risks: vec!["dependency risk".to_string()],
        }],
        strategic_themes: vec!["activation".to_string()],
        data_contract_version: "1.0".to_string(),
    }
}

fn empty_bundle() -> PositioningBundle {
    PositioningBundle { bundle_id: "placeholder".to_string(), message_maps: Vec::new(), claim_safe_list: Vec::new(), generated_at: NOW_MS }
}

#[test]
fn positioning_generates_bundle_and_events() {
    let engine = Phase2AgentEngine;
    let envelope = base_envelope(AgentId::RachelPositioningPmm, "warehouse://contract_snapshot");
    let result = engine.run_positioning_pmm(envelope, positioning_input()).unwrap();
    assert_eq!(result.status, TaskStatus::Succeeded);
    assert_eq!(result.output_payload.positioning_bundle.message_maps.len(), 2);
    assert!(has_event(&result.emitted_events, "positioning.bundle.published"));
}

#[test]
fn content_requires_human_when_policy_gate_enabled() {
    let engine = Phase2AgentEngine;
    let mut envelope = base_envelope(AgentId::RachelContentStudio, "warehouse://contract_snapshot");
    envelope.policy_pack.human_approval_required = true;
    let input = ContentInput {
        positioning_bundle: PositioningBundle {
            bundle_id: "positioning-x".to_string(),
            message_maps: vec![MessageMap {
                segment_id: "tier_a_high_fit".to_string(),
                value_proposition: "Speed up GTM execution".to_string(),
                pains: vec!["integration gap".to_string()],
                proof_points: vec!["PRD linked".to_string()],
                objection_handling: vec!["Start small".to_string()],
                funnel_stage: FunnelStage::Decision,
            }],
            claim_safe_list: vec!["activation visibility".to_string()],
            generated_at: NOW_MS,
        },
        channels: vec![AssetChannel::Email],
        max_assets_per_channel: 2,
        requires_human_review: false,
    };
    let result = engine.run_content_studio(envelope, input).unwrap();
    assert_eq!(result.status, TaskStatus::NeedsHuman);
    assert!(has_event(&result.emitted_events, "approval.requested"));
}

#[test]
fn phase2_workflow_enforces_contract_stability_gate() {
    let engine = Phase2AgentEngine;
    let workflow = Phase2WorkflowInput {
        base_envelope: base_envelope(AgentId::RachelOrchestrator, "warehouse://contract_snapshot"),
        data_contracts_stable: false,
        positioning: positioning_input(),
        content: ContentInput { positioning_bundle: empty_bundle(), channels: vec![AssetChannel::Email], max_assets_per_channel: 1, requires_human_review: true },
    };
    let error = engine.run_workflow(workflow).unwrap_err();
    assert!(matches!(error, Phase2AgentError::DataContractsNotStable));
}

#[test]
fn phase2_workflow_runs_positioning_then_content() {
    let engine = Phase2AgentEngine;
    let workflow = Phase2WorkflowInput {
        base_envelope: base_envelope(AgentId::RachelOrchestrator, "warehouse://contract_snapshot"),
        data_contracts_stable: true,
        positioning: positioning_input(),
        content: ContentInput {
            positioning_bundle: empty_bundle(),
            channels: vec![AssetChannel::Email, AssetChannel::LinkedinAd],
            max_assets_per_channel: 2,
            requires_human_review: false,
        },
    };
    let result = engine.run_workflow(workflow).unwrap();
    assert_eq!(result.positioning.status, TaskStatus::Succeeded);
    assert_eq!(result.content.status, TaskStatus::Succeeded);
    assert!(!result.content.output_payload.assets.is_empty());
    assert!(has_event(&result.events, "content.asset.published"));
}

// ---------------------------------------------------------------- phase 3

fn onboarding_input() -> OnboardingInput {
    OnboardingInput {
        customer_id: id(),
        account_name: "Acme Corp".to_string(),
        segment_id: "tier_a_high_fit".to_string(),
        customer_goals: vec![
            "launch first outbound workflow".to_string(),
            "reach activation milestone in two weeks".to_string(),
        ],
        known_blockers: vec!["CRM field mapping incomplete".to_string()],
        activation_gap: ActivationGap::High,
        current_activation_text: "0.52".to_string(),
        target_activation_text: "0.72".to_string(),
        handoff_summary: Some("High intent from outbound SDR handoff".to_string()),
    }
}

fn experiment_input() -> ExperimentInput {
    ExperimentInput {
        experiment_name: "new onboarding sequence".to_string(),
        primary_metric: "activation_rate_day_14".to_string(),
        sample_size: 320,
        min_sample_size: 200,
        confidence_sufficient: true,
        uplift: UpliftTrend::Positive,
        uplift_percent_text: "19.0".to_string(),
        adoption_delta_percent_text: Some("16.0".to_string()),
        segment_ids: vec!["tier_a_high_fit".to_string()],
    }
}

#[test]
fn onboarding_generates_plan_and_risk_flags() {
    let engine = Phase3AgentEngine;
    let result = engine
        .run_onboarding_csm(base_envelope(AgentId::RachelOnboardingCsm, "warehouse://metrics_snapshot"), onboarding_input())
        .unwrap();
    assert_eq!(result.status, TaskStatus::NeedsHuman);
    assert!(!result.output_payload.onboarding_plan.is_empty());
    assert!(result.output_payload.activation_risk_flags.iter().any(|risk| risk.severity == RiskSeverity::Medium));
    assert!(has_event(&result.emitted_events, "onboarding.plan.started"));
    let flags = &result.output_payload.activation_risk_flags;
    assert_eq!(flags[0].code, "activation_gap_high");
    assert_eq!(flags[0].summary, "Activation rate (0.52) is far below target (0.72)");
    assert_eq!(flags[1].code, "blocker_crm_field_mapping_incomplete");
    assert_eq!(result.output_payload.captured_feedback.len(), 2);
    assert_eq!(
        result.output_payload.qbr_summary,
        "Account Acme Corp onboarding focus: close activation gap and remove blockers. Goals: launch first outbound workflow; reach activation milestone in two weeks."
    );
}

#[test]
fn onboarding_without_gap_or_blockers_succeeds() {
    let engine = Phase3AgentEngine;
    let mut input = onboarding_input();
    input.activation_gap = ActivationGap::Small;
    input.known_blockers.clear();
    input.customer_goals.clear();
    input.handoff_summary = None;
    let result = engine.run_onboarding_csm(base_envelope(AgentId::RachelOnboardingCsm, "m"), input).unwrap();
    assert_eq!(result.status, TaskStatus::Succeeded);
    assert!(result.output_payload.activation_risk_flags.is_empty());
    assert_eq!(result.emitted_events.len(), 1);
    assert!(result.output_payload.qbr_summary.ends_with("stabilize and expand usage. Goals: no explicit goals captured."));
}

#[test]
fn experiment_publishes_recommendations() {
    let engine = Phase3AgentEngine;
    let result = engine
        .run_experiment_analyst(base_envelope(AgentId::RachelExperimentAnalyst, "warehouse://metrics_snapshot"), experiment_input())
        .unwrap();
    assert_eq!(result.status, TaskStatus::Succeeded);
    assert!(result.output_payload.result_summary.statistically_reliable);
    assert!(has_event(&result.emitted_events, "experiment.result.published"));
    let recs = &result.output_payload.recommendations;
    assert_eq!(recs[0].action, "scale_winning_variant");
    assert_eq!(recs[0].expected_impact, "19.0% primary metric uplift");
    assert_eq!(recs[1].expected_impact, "16.0% mean adoption delta");
}

#[test]
fn unreliable_experiment_asks_for_review() {
    let engine = Phase3AgentEngine;
    let mut input = experiment_input();
    input.sample_size = 10;
    let result = engine.run_experiment_analyst(base_envelope(AgentId::RachelExperimentAnalyst, "m"), input).unwrap();
    assert_eq!(result.status, TaskStatus::NeedsHuman);
    assert_eq!(result.output_payload.recommendations[0].action, "continue_data_collection");
    assert!(has_event(&result.emitted_events, "approval.requested"));
}

#[test]
fn phase3_workflow_requires_reliable_metrics_gate() {
    let engine = Phase3AgentEngine;
    let workflow = Phase3WorkflowInput {
        base_envelope: base_envelope(AgentId::RachelOrchestrator, "warehouse://metrics_snapshot"),
        metrics_reliable: false,
        onboarding: onboarding_input(),
        experiment: experiment_input(),
    };
    let error = engine.run_workflow(workflow).unwrap_err();
    assert!(matches!(error, Phase3AgentError::MetricsNotReliable));
}

#[test]
fn phase3_workflow_runs_onboarding_and_experiment() {
    let engine = Phase3AgentEngine;
    let workflow = Phase3WorkflowInput {
        base_envelope: base_envelope(AgentId::RachelOrchestrator, "warehouse://metrics_snapshot"),
        metrics_reliable: true,
        onboarding: onboarding_input(),
        experiment: experiment_input(),
    };
    let result = engine.run_workflow(workflow).unwrap();
    assert!(!result.events.is_empty());
    assert!(has_event(&result.events, "onboarding.feedback.captured"));
    assert!(has_event(&result.events, "experiment.recommendation.issued"));
}

#[test]
fn envelopes_keep_task_identity() {
    let e = AgentTaskEnvelope::new(AgentId::RachelIcpScout);
    let hex = format!("{}", Uuid::from_u128(e.task_id).hyphenated());
    assert_eq!(e.idempotency_key, format!("rachel_icp_scout:{}", hex));
    let f = e.with_agent(AgentId::RachelContentStudio);
    assert_eq!(f.tenant_id, e.tenant_id);
    assert_eq!(f.trace_id, e.trace_id);
    assert!(f.idempotency_key.starts_with("rachel_content_studio:"));
}

// ---------------------------------------------------------------- HubSpot dispatch

use scheduler_module::gtm::contracts::{HubspotCommunicationDraft, HubspotTaskDraft, ModeAOutboundDispatchOutput};
use scheduler_module::gtm::hubspot::{HubspotDispatch, HubspotReply, HubspotRequest};

fn mode_a_output() -> ModeAOutboundDispatchOutput {
    ModeAOutboundDispatchOutput {
        approval_queue: Vec::new(),
        manual_send_tasks: Vec::new(),
        hubspot_task_drafts: vec![HubspotTaskDraft {
            external_id: "task_ext_1".to_string(),
            subject: "Follow up on LinkedIn outreach".to_string(),
            body: "Please send the approved DM template manually.".to_string(),
            due_at: NOW_MS,
            contact_email: "alpha@example.com".to_string(),
            owner_team: "sdr_team".to_string(),
        }],
        hubspot_communication_drafts: vec![HubspotCommunicationDraft {
            external_id: "comm_ext_1".to_string(),
            channel: GtmChannel::LinkedinDm,
            contact_email: "alpha@example.com".to_string(),
            scheduled_at: NOW_MS,
            summary: "Planned manual LinkedIn outreach".to_string(),
        }],
    }
}

/// Runs a dispatch against a scripted HubSpot: `answer` gives the reply to each request.
fn run_dispatch(
    output: &ModeAOutboundDispatchOutput,
    mut answer: impl FnMut(&HubspotRequest) -> HubspotReply,
) -> (scheduler_module::gtm::contracts::HubspotDispatchReport, Vec<String>) {
    let (mut d, mut req) = HubspotDispatch::start(output);
    let mut log = Vec::new();
    loop {
        log.push(format!("{:?}", req));
        if let HubspotRequest::Done = req {
            break;
        }
        let reply = answer(&req);
        req = d.step(output, reply);
    }
    (d.report, log)
}

#[test]
fn dispatch_mode_a_drafts_creates_tasks_and_notes() {
    let output = mode_a_output();
    let (report, log) = run_dispatch(&output, |req| match req {
        HubspotRequest::CreateTask(_) => HubspotReply::Created("301".to_string()),
        HubspotRequest::CreateNote(_) => HubspotReply::Created("401".to_string()),
        HubspotRequest::FindContact(email) => {
            assert_eq!(email, "alpha@example.com");
            HubspotReply::ContactFound(Some("201".to_string()))
        }
        HubspotRequest::Associate { .. } => HubspotReply::Associated,
        HubspotRequest::Done => unreachable!(),
    });
    assert_eq!(report.tasks_attempted, 1);
    assert_eq!(report.tasks_created, 1);
    assert_eq!(report.notes_attempted, 1);
    assert_eq!(report.notes_created, 1);
    assert_eq!(report.associations_attempted, 2);
    assert_eq!(report.associations_created, 2);
    assert!(report.errors.is_empty());
    // The contact is looked up once and reused for the note.
    assert_eq!(log.iter().filter(|l| l.starts_with("FindContact")).count(), 1);
    assert!(log.iter().any(|l| l.contains("\"tasks\"") && l.contains("\"301\"") && l.contains("\"201\"")));
    assert!(log.iter().any(|l| l.contains("\"notes\"") && l.contains("\"401\"")));
}

#[test]
fn dispatch_mode_a_drafts_reports_api_errors() {
    let output = mode_a_output();
    let (report, _) = run_dispatch(&output, |req| match req {
        HubspotRequest::CreateTask(_) | HubspotRequest::CreateNote(_) => {
            HubspotReply::CreateFailed("hubspot request failed with status 500: {\"message\":\"server error\"}".to_string())
        }
        _ => panic!("no other request expected"),
    });
    assert_eq!(report.tasks_attempted, 1);
    assert_eq!(report.tasks_created, 0);
    assert_eq!(report.notes_attempted, 1);
    assert_eq!(report.notes_created, 0);
    assert_eq!(report.associations_attempted, 0);
    assert_eq!(report.associations_created, 0);
    assert_eq!(report.errors.len(), 2);
    assert!(report.errors[0].starts_with("failed to create HubSpot task draft task_ext_1: "));
    assert!(report.errors[1].starts_with("failed to create HubSpot communication draft comm_ext_1: "));
}

#[test]
fn dispatch_reports_lookup_and_association_failures() {
    let output = mode_a_output();
    let mut lookups = 0;
    let (report, _) = run_dispatch(&output, |req| match req {
        HubspotRequest::CreateTask(_) => HubspotReply::Created("7".to_string()),
        HubspotRequest::CreateNote(_) => HubspotReply::Created("8".to_string()),
        HubspotRequest::FindContact(_) => {
            lookups += 1;
            HubspotReply::ContactLookupFailed("timeout".to_string())
        }
        HubspotRequest::Associate { .. } => HubspotReply::AssociationFailed,
        HubspotRequest::Done => unreachable!(),
    });
    assert_eq!(lookups, 1);
    assert_eq!(report.associations_attempted, 0);
    assert_eq!(report.errors, vec!["failed to find HubSpot contact for alpha@example.com: timeout".to_string()]);

    let (report, _) = run_dispatch(&output, |req| match req {
        HubspotRequest::CreateTask(_) => HubspotReply::Created("7".to_string()),
        HubspotRequest::CreateNote(_) => HubspotReply::Created("8".to_string()),
        HubspotRequest::FindContact(_) => HubspotReply::ContactFound(Some("c1".to_string())),
        HubspotRequest::Associate { .. } => HubspotReply::AssociationFailed,
        HubspotRequest::Done => unreachable!(),
    });
    assert_eq!(report.associations_attempted, 2);
    assert_eq!(report.associations_created, 0);
    assert_eq!(
        report.errors,
        vec![
            "failed to associate HubSpot task 7 with contact alpha@example.com".to_string(),
            "failed to associate HubSpot note 8 with contact alpha@example.com".to_string()
        ]
    );
}

#[test]
fn dispatch_with_no_drafts_is_done_at_once() {
    let mut output = mode_a_output();
    output.hubspot_task_drafts.clear();
    output.hubspot_communication_drafts.clear();
    let (d, req) = HubspotDispatch::start(&output);
    assert!(matches!(req, HubspotRequest::Done));
    assert_eq!(d.report.tasks_attempted, 0);
}
