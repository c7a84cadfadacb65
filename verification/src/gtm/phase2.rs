//! Phase 2 agents: positioning and content.

use vstd::prelude::*;
use crate::gtm::contracts::{
    AgentId, AgentTaskEnvelope, AgentTaskResult, ApprovalRequest, AssetChannel, ContentAsset,
    ContentInput, ContentOutput, EventEnvelope, EventPayload, FunnelStage, MessageMap,
    PositioningBundle, PositioningInput, PositioningOutput, SubjectType, TaskStatus,
    GTM_SCHEMA_VERSION, event_is, make_event, extend_events, handed_to,
};
use crate::gtm::ids::uuid_simple_text;
use crate::gtm::phase1::approval_view;
use crate::text::{strs, contains};
use crate::number::decimal;

verus! {

/// Why phase 2 does not run.
#[derive(Debug, Clone)]
pub enum Phase2AgentError {
    EventSerialization(String),
    DataContractsNotStable,
}

/// The phase 2 engine.
#[derive(Debug, Clone, Copy)]
pub struct Phase2AgentEngine;

impl Default for Phase2AgentEngine {
    fn default() -> (r: Self)
        ensures
            r == Phase2AgentEngine,
    {
        Phase2AgentEngine
    }
}

/// `x` placed after every theme at least as frequent.
pub open spec fn insert_theme(s: Seq<(u32, Seq<char>)>, x: (u32, Seq<char>)) -> Seq<(u32, Seq<char>)>
    decreases s.len(),
{
    if s.len() == 0 {
        seq![x]
    } else if s[0].0 < x.0 {
        seq![x] + s
    } else {
        seq![s[0]] + insert_theme(s.drop_first(), x)
    }
}

/// Themes by descending frequency; equal frequencies keep their order.
pub open spec fn rank_themes(s: Seq<(u32, Seq<char>)>) -> Seq<(u32, Seq<char>)>
    decreases s.len(),
{
    if s.len() == 0 {
        Seq::empty()
    } else {
        insert_theme(rank_themes(s.drop_last()), s.last())
    }
}

pub open spec fn min_int(a: int, b: int) -> int {
    if a < b {
        a
    } else {
        b
    }
}

/// The three most frequent themes of the insight clusters.
pub open spec fn top_themes(input: PositioningInput) -> Seq<Seq<char>> {
    let ranked = rank_themes(input.insight_clusters@.map_values(|c: crate::gtm::contracts::InsightCluster| (c.frequency, c.theme@)));
    ranked.take(min_int(ranked.len() as int, 3)).map_values(|p: (u32, Seq<char>)| p.1)
}

/// Proof points from the first three PRD drafts.
pub open spec fn proof_points(input: PositioningInput) -> Seq<Seq<char>> {
    let p = input.prd_drafts@;
    p.take(min_int(p.len() as int, 3)).map_values(|d: crate::gtm::contracts::PrdDraft| "PRD "@ + d.prd_id@ + " targets "@ + d.problem@)
}

/// The funnel stage a segment is addressed at.
pub open spec fn stage_for(segment_id: Seq<char>) -> FunnelStage {
    if contains(segment_id, "fast_activation"@) {
        FunnelStage::Awareness
    } else if contains(segment_id, "tier_a"@) {
        FunnelStage::Decision
    } else {
        FunnelStage::Consideration
    }
}

/// The message map of a segment.
pub open spec fn map_for(m: MessageMap, segment_id: Seq<char>, input: PositioningInput) -> bool {
    let pains = top_themes(input);
    let proofs = proof_points(input);
    &&& m.segment_id@ == segment_id
    &&& m.value_proposition@ == "Help "@ + segment_id + " segment convert faster with lower GTM friction"@
    &&& strs(m.pains@) == (if pains.len() == 0 { seq!["feature discoverability"@] } else { pains })
    &&& strs(m.proof_points@) == (if proofs.len() == 0 { seq!["No PRD draft linked yet; use baseline claim-safe messaging"@] } else { proofs })
    &&& strs(m.objection_handling@) == seq![
        "Start with one workflow and expand after KPI verification"@,
        "Use explicit approval gates for risky claims"@,
        "Validated against contract "@ + input.data_contract_version@,
    ]
    &&& m.funnel_stage == stage_for(segment_id)
}

/// The claims that are safe to make.
pub open spec fn safe_claims(input: PositioningInput) -> Seq<Seq<char>> {
    seq!["improve activation visibility"@, "reduce manual handoff overhead"@, "faster campaign iteration loop"@]
        + strs(input.strategic_themes@).map_values(|t: Seq<char>| "aligned with strategic theme: "@ + t)
}

/// Everything the positioning agent's result states.
pub open spec fn positioning_result(e: AgentTaskEnvelope, input: PositioningInput, r: AgentTaskResult<PositioningOutput>) -> bool {
    let b = r.output_payload.positioning_bundle;
    let n = input.segment_definitions@.len();
    let partial = n == 0;
    &&& r.task_id == e.task_id
    &&& r.schema_version@ == GTM_SCHEMA_VERSION@
    &&& b.bundle_id@ == "positioning-"@ + uuid_simple_text(e.task_id)
    &&& b.message_maps@.len() == n
    &&& forall|i: int| 0 <= i < n ==> map_for(#[trigger] b.message_maps@[i], input.segment_definitions@[i].segment_id@, input)
    &&& strs(b.claim_safe_list@) == safe_claims(input)
    &&& r.emitted_events@.len() == n + 1
    &&& forall|i: int| 0 <= i < n ==> event_is(#[trigger] r.emitted_events@[i], e, AgentId::RachelPositioningPmm, "positioning.message_map.generated"@, SubjectType::Feature, e.objective_id, EventPayload::MessageMap(i as usize))
    &&& event_is(r.emitted_events@[n as int], e, AgentId::RachelPositioningPmm, "positioning.bundle.published"@, SubjectType::Feature, e.objective_id, EventPayload::PositioningBundle)
    &&& r.status == (if partial { TaskStatus::Partial } else { TaskStatus::Succeeded })
    &&& r.evidence_refs@ == e.input_refs@
    &&& r.next_action@ == (if partial {
        "Need at least one promoted segment to generate message maps"@
    } else {
        "Publish positioning bundle for content generation"@
    })
    &&& strs(r.errors@) == (if partial { seq!["no segment definitions available for positioning"@] } else { Seq::empty() })
}

fn insert_ranked(sorted: &mut Vec<(u32, String)>, x: (u32, String))
    ensures
        theme_views(final(sorted)@) == insert_theme(theme_views(old(sorted)@), (x.0, x.1@)),
{
    let ghost s0 = theme_views(sorted@);
    let ghost xv = (x.0, x.1@);
    let mut k: usize = 0;
    proof {
        assert(s0.take(0) =~= Seq::<(u32, Seq<char>)>::empty());
        assert(s0.skip(0) =~= s0);
    }
    while k < sorted.len()
        invariant
            k <= sorted@.len(),
            s0 == theme_views(sorted@),
            xv == (x.0, x.1@),
            insert_theme(s0, xv) == s0.take(k as int) + insert_theme(s0.skip(k as int), xv),
        ensures
            k <= sorted@.len(),
            s0 == theme_views(sorted@),
            insert_theme(s0, xv) == s0.take(k as int) + insert_theme(s0.skip(k as int), xv),
            k == sorted@.len() || s0[k as int].0 < x.0,
        decreases sorted@.len() - k,
    {
        proof {
            assert(s0.skip(k as int)[0] == s0[k as int]);
        }
        if sorted[k].0 < x.0 {
            break;
        }
        proof {
            assert(s0.skip(k as int).drop_first() =~= s0.skip(k + 1));
            assert(s0.take(k + 1) =~= s0.take(k as int).push(s0[k as int]));
            assert(s0.take(k as int) + (seq![s0[k as int]] + insert_theme(s0.skip(k + 1), xv)) =~= s0.take(k + 1) + insert_theme(s0.skip(k + 1), xv));
        }
        k = k + 1;
    }
    proof {
        if k == sorted@.len() {
            assert(s0.skip(k as int) =~= Seq::<(u32, Seq<char>)>::empty());
        } else {
            assert(s0.skip(k as int)[0] == s0[k as int]);
        }
    }
    sorted.insert(k, x);
    proof {
        assert(theme_views(sorted@) =~= s0.take(k as int) + insert_theme(s0.skip(k as int), xv));
    }
}

pub open spec fn theme_views(v: Seq<(u32, String)>) -> Seq<(u32, Seq<char>)> {
    v.map_values(|p: (u32, String)| (p.0, p.1@))
}

fn top_theme_labels(input: &PositioningInput) -> (r: Vec<String>)
    ensures
        strs(r@) == top_themes(*input),
{
    let ghost src = input.insight_clusters@.map_values(|c: crate::gtm::contracts::InsightCluster| (c.frequency, c.theme@));
    let mut ranked: Vec<(u32, String)> = Vec::new();
    let mut i: usize = 0;
    proof {
        assert(src.take(0) =~= Seq::<(u32, Seq<char>)>::empty());
    }
    while i < input.insight_clusters.len()
        invariant
            i <= input.insight_clusters@.len(),
            src == input.insight_clusters@.map_values(|c: crate::gtm::contracts::InsightCluster| (c.frequency, c.theme@)),
            theme_views(ranked@) == rank_themes(src.take(i as int)),
        decreases input.insight_clusters@.len() - i,
    {
        proof {
            let t = src.take(i + 1);
            assert(t.drop_last() =~= src.take(i as int));
            assert(t.last() == src[i as int]);
        }
        let c = &input.insight_clusters[i];
        insert_ranked(&mut ranked, (c.frequency, c.theme.clone()));
        i = i + 1;
    }
    proof {
        assert(src.take(input.insight_clusters@.len() as int) =~= src);
    }
    let limit: usize = if ranked.len() < 3 { ranked.len() } else { 3 };
    let mut out: Vec<String> = Vec::new();
    let mut j: usize = 0;
    let ghost rv = theme_views(ranked@);
    while j < limit
        invariant
            j <= limit <= ranked@.len(),
            rv == theme_views(ranked@),
            strs(out@) == rv.take(j as int).map_values(|p: (u32, Seq<char>)| p.1),
        decreases limit - j,
    {
        out.push(ranked[j].1.clone());
        j = j + 1;
        proof {
            assert(rv.take(j as int) =~= rv.take(j - 1).push(rv[j - 1]));
            assert(rv.take(j as int).map_values(|p: (u32, Seq<char>)| p.1) =~= rv.take(j - 1).map_values(|p: (u32, Seq<char>)| p.1).push(rv[j - 1].1));
            assert(strs(out@) =~= rv.take(j as int).map_values(|p: (u32, Seq<char>)| p.1));
        }
    }
    out
}

fn proof_point_texts(input: &PositioningInput) -> (r: Vec<String>)
    ensures
        strs(r@) == proof_points(*input),
{
    let p = &input.prd_drafts;
    let limit: usize = if p.len() < 3 { p.len() } else { 3 };
    let mut out: Vec<String> = Vec::new();
    let mut j: usize = 0;
    while j < limit
        invariant
            j <= limit <= p@.len(),
            limit == min_int(p@.len() as int, 3),
            strs(out@) == p@.take(j as int).map_values(|d: crate::gtm::contracts::PrdDraft| "PRD "@ + d.prd_id@ + " targets "@ + d.problem@),
        decreases limit - j,
    {
        let mut t = crate::text::concat3("PRD ", p[j].prd_id.as_str(), " targets ");
        t.append(p[j].problem.as_str());
        out.push(t);
        j = j + 1;
        proof {
            assert(p@.take(j as int) =~= p@.take(j - 1).push(p@[j - 1]));
            assert(p@.take(j as int).map_values(|d: crate::gtm::contracts::PrdDraft| "PRD "@ + d.prd_id@ + " targets "@ + d.problem@) =~= p@.take(j - 1).map_values(|d: crate::gtm::contracts::PrdDraft| "PRD "@ + d.prd_id@ + " targets "@ + d.problem@).push("PRD "@ + p@[j - 1].prd_id@ + " targets "@ + p@[j - 1].problem@));
            assert(strs(out@) =~= p@.take(j as int).map_values(|d: crate::gtm::contracts::PrdDraft| "PRD "@ + d.prd_id@ + " targets "@ + d.problem@));
        }
    }
    out
}

fn funnel_stage_for(segment_id: &str) -> (r: FunnelStage)
    ensures
        r == stage_for(segment_id@),
{
    if crate::text::str_contains(segment_id, "fast_activation") {
        FunnelStage::Awareness
    } else if crate::text::str_contains(segment_id, "tier_a") {
        FunnelStage::Decision
    } else {
        FunnelStage::Consideration
    }
}

fn message_map(segment_id: &String, input: &PositioningInput, pains: &Vec<String>, proofs: &Vec<String>) -> (m: MessageMap)
    requires
        strs(pains@) == top_themes(*input),
        strs(proofs@) == proof_points(*input),
    ensures
        map_for(m, segment_id@, *input),
{
    let p = if pains.len() == 0 {
        vec![crate::text::owned("feature discoverability")]
    } else {
        crate::text::clone_strings(pains)
    };
    let q = if proofs.len() == 0 {
        vec![crate::text::owned("No PRD draft linked yet; use baseline claim-safe messaging")]
    } else {
        crate::text::clone_strings(proofs)
    };
    let objections = vec![
        crate::text::owned("Start with one workflow and expand after KPI verification"),
        crate::text::owned("Use explicit approval gates for risky claims"),
        crate::text::concat2("Validated against contract ", input.data_contract_version.as_str()),
    ];
    proof {
        assert(strs(p@) =~= (if strs(pains@).len() == 0 { seq!["feature discoverability"@] } else { strs(pains@) }));
        assert(strs(q@) =~= (if strs(proofs@).len() == 0 { seq!["No PRD draft linked yet; use baseline claim-safe messaging"@] } else { strs(proofs@) }));
        assert(strs(objections@) =~= seq![
            "Start with one workflow and expand after KPI verification"@,
            "Use explicit approval gates for risky claims"@,
            "Validated against contract "@ + input.data_contract_version@,
        ]);
    }
    MessageMap {
        segment_id: segment_id.clone(),
        value_proposition: crate::text::concat3("Help ", segment_id.as_str(), " segment convert faster with lower GTM friction"),
        pains: p,
        proof_points: q,
        objection_handling: objections,
        funnel_stage: funnel_stage_for(segment_id.as_str()),
    }
}

impl Phase2AgentEngine {
    /// Writes a message map per segment (the most frequent themes as pains,
    /// PRDs as proof points) and the claims that are safe to make.
    pub fn run_positioning_pmm(&self, envelope: AgentTaskEnvelope, input: PositioningInput) -> (r: Result<
        AgentTaskResult<PositioningOutput>,
        Phase2AgentError,
    >)
        ensures
            r matches Ok(res) && positioning_result(envelope, input, res),
    {
        let pains = top_theme_labels(&input);
        let proofs = proof_point_texts(&input);
        let n = input.segment_definitions.len();
        let mut maps: Vec<MessageMap> = Vec::new();
        let mut i: usize = 0;
        while i < n
            invariant
                i <= n,
                n == input.segment_definitions@.len(),
                strs(pains@) == top_themes(input),
                strs(proofs@) == proof_points(input),
                maps@.len() == i,
                forall|k: int| 0 <= k < i ==> map_for(#[trigger] maps@[k], input.segment_definitions@[k].segment_id@, input),
            decreases n - i,
        {
            maps.push(message_map(&input.segment_definitions[i].segment_id, &input, &pains, &proofs));
            i = i + 1;
        }
        let mut claims = vec![
            crate::text::owned("improve activation visibility"),
            crate::text::owned("reduce manual handoff overhead"),
            crate::text::owned("faster campaign iteration loop"),
        ];
        let ghost themes = strs(input.strategic_themes@);
        let mut t: usize = 0;
        proof {
            assert(strs(claims@) =~= seq!["improve activation visibility"@, "reduce manual handoff overhead"@, "faster campaign iteration loop"@] + themes.take(0).map_values(|x: Seq<char>| "aligned with strategic theme: "@ + x));
        }
        while t < input.strategic_themes.len()
            invariant
                t <= input.strategic_themes@.len(),
                themes == strs(input.strategic_themes@),
                strs(claims@) == seq!["improve activation visibility"@, "reduce manual handoff overhead"@, "faster campaign iteration loop"@] + themes.take(t as int).map_values(|x: Seq<char>| "aligned with strategic theme: "@ + x),
            decreases input.strategic_themes@.len() - t,
        {
            let ghost before = strs(claims@);
            claims.push(crate::text::concat2("aligned with strategic theme: ", input.strategic_themes[t].as_str()));
            t = t + 1;
            proof {
                assert(strs(claims@) =~= before.push("aligned with strategic theme: "@ + themes[t - 1]));
                assert(themes.take(t as int) =~= themes.take(t - 1).push(themes[t - 1]));
                assert(themes.take(t as int).map_values(|x: Seq<char>| "aligned with strategic theme: "@ + x) =~= themes.take(t - 1).map_values(|x: Seq<char>| "aligned with strategic theme: "@ + x).push("aligned with strategic theme: "@ + themes[t - 1]));
                assert(strs(claims@) =~= seq!["improve activation visibility"@, "reduce manual handoff overhead"@, "faster campaign iteration loop"@] + themes.take(t as int).map_values(|x: Seq<char>| "aligned with strategic theme: "@ + x));
            }
        }
        proof {
            assert(themes.take(themes.len() as int) =~= themes);
        }
        let simple = crate::gtm::ids::uuid_simple(envelope.task_id);
        let mut events: Vec<EventEnvelope> = Vec::new();
        let mut j: usize = 0;
        while j < n
            invariant
                j <= n,
                events@.len() == j,
                forall|k: int| 0 <= k < j ==> event_is(#[trigger] events@[k], envelope, AgentId::RachelPositioningPmm, "positioning.message_map.generated"@, SubjectType::Feature, envelope.objective_id, EventPayload::MessageMap(k as usize)),
            decreases n - j,
        {
            events.push(make_event(&envelope, AgentId::RachelPositioningPmm, "positioning.message_map.generated", SubjectType::Feature, envelope.objective_id, EventPayload::MessageMap(j)));
            j = j + 1;
        }
        events.push(make_event(&envelope, AgentId::RachelPositioningPmm, "positioning.bundle.published", SubjectType::Feature, envelope.objective_id, EventPayload::PositioningBundle));
        let bundle = PositioningBundle {
            bundle_id: crate::text::concat2("positioning-", simple.as_str()),
            message_maps: maps,
            claim_safe_list: claims,
            generated_at: crate::gtm::ids::now_ms(),
        };
        let partial = n == 0;
        let errors = if partial {
            vec![crate::text::owned("no segment definitions available for positioning")]
        } else {
            Vec::new()
        };
        proof {
            assert(strs(errors@) =~= (if partial { seq!["no segment definitions available for positioning"@] } else { Seq::<Seq<char>>::empty() }));
        }
        Ok(AgentTaskResult {
            task_id: envelope.task_id,
            status: if partial {
                TaskStatus::Partial
            } else {
                TaskStatus::Succeeded
            },
            schema_version: crate::text::owned(GTM_SCHEMA_VERSION),
            output_payload: PositioningOutput { positioning_bundle: bundle },
            emitted_events: events,
            evidence_refs: crate::text::clone_strings(&envelope.input_refs),
            next_action: if partial {
                crate::text::owned("Need at least one promoted segment to generate message maps")
            } else {
                crate::text::owned("Publish positioning bundle for content generation")
            },
            errors,
        })
    }
}

pub open spec fn asset_channel_name(c: AssetChannel) -> Seq<char> {
    match c {
        AssetChannel::Email => "email"@,
        AssetChannel::LandingPage => "landing"@,
        AssetChannel::LinkedinAd => "linkedin-ad"@,
        AssetChannel::SalesOnePager => "sales-one-pager"@,
    }
}

pub open spec fn asset_title_suffix(c: AssetChannel) -> Seq<char> {
    match c {
        AssetChannel::Email => ": concise intro"@,
        AssetChannel::LandingPage => ": value narrative"@,
        AssetChannel::LinkedinAd => ": social proof angle"@,
        AssetChannel::SalesOnePager => ": enablement brief"@,
    }
}

/// The asset drafted for a message map on a channel.
pub open spec fn asset_for(a: ContentAsset, bundle_id: Seq<char>, m: MessageMap, channel: AssetChannel, ordinal: nat) -> bool {
    let pain = if m.pains@.len() > 0 { m.pains@[0]@ } else { "unspecified"@ };
    let proof = if m.proof_points@.len() > 0 { m.proof_points@[0]@ } else { "pending proof point"@ };
    &&& a.asset_id@ == bundle_id + "-"@ + asset_channel_name(channel) + "-"@ + m.segment_id@ + "-"@ + decimal(ordinal)
    &&& a.channel == channel
    &&& a.segment_id@ == m.segment_id@
    &&& a.title@ == m.segment_id@ + asset_title_suffix(channel)
    &&& a.body@ == "Value: "@ + m.value_proposition@ + ".\nPain: "@ + pain + ".\nProof: "@ + proof + "."@
    &&& a.cta@ == "Book a 20-minute workflow fit session"@
}

/// Drafts one asset.
pub fn build_asset(bundle_id: &str, message_map: &MessageMap, channel: AssetChannel, ordinal: usize) -> (a: ContentAsset)
    ensures
        asset_for(a, bundle_id@, *message_map, channel, ordinal as nat),
{
    let (name, suffix): (&str, &str) = match channel {
        AssetChannel::Email => ("email", ": concise intro"),
        AssetChannel::LandingPage => ("landing", ": value narrative"),
        AssetChannel::LinkedinAd => ("linkedin-ad", ": social proof angle"),
        AssetChannel::SalesOnePager => ("sales-one-pager", ": enablement brief"),
    };
    let pain = if message_map.pains.len() > 0 {
        message_map.pains[0].as_str()
    } else {
        "unspecified"
    };
    let proof_point = if message_map.proof_points.len() > 0 {
        message_map.proof_points[0].as_str()
    } else {
        "pending proof point"
    };
    let mut body = crate::text::concat3("Value: ", message_map.value_proposition.as_str(), ".\nPain: ");
    body.append(pain);
    body.append(".\nProof: ");
    body.append(proof_point);
    body.append(".");
    let mut id = crate::text::concat3(bundle_id, "-", name);
    id.append("-");
    id.append(message_map.segment_id.as_str());
    id.append("-");
    let ord = crate::number::usize_to_string(ordinal);
    id.append(ord.as_str());
    ContentAsset {
        asset_id: id,
        channel,
        segment_id: message_map.segment_id.clone(),
        title: crate::text::concat2(message_map.segment_id.as_str(), suffix),
        body,
        cta: crate::text::owned("Book a 20-minute workflow fit session"),
    }
}

/// Assets per channel: the policy's maximum, between 1 and 4.
pub open spec fn asset_limit(max: u8) -> int {
    if max < 1 {
        1
    } else if max > 4 {
        4
    } else {
        max as int
    }
}

/// The (channel, message map position) of each asset, channel by channel.
pub open spec fn asset_slots(chans: Seq<AssetChannel>, per: int) -> Seq<(AssetChannel, int)>
    decreases chans.len(),
{
    if chans.len() == 0 {
        Seq::empty()
    } else {
        asset_slots(chans.drop_last(), per) + Seq::new(per as nat, |k: int| (chans.last(), k))
    }
}

/// There are `per` asset slots for each channel.
pub proof fn lemma_asset_slots_len(chans: Seq<AssetChannel>, per: int)
    requires
        per >= 0,
    ensures
        asset_slots(chans, per).len() == chans.len() * per,
    decreases chans.len(),
{
    if chans.len() > 0 {
        lemma_asset_slots_len(chans.drop_last(), per);
        assert((chans.len() - 1) * per + per == chans.len() * per) by (nonlinear_arith);
    }
}

/// Everything the content agent's result states.
pub open spec fn content_result(e: AgentTaskEnvelope, input: ContentInput, r: AgentTaskResult<ContentOutput>) -> bool {
    let o = r.output_payload;
    let maps = input.positioning_bundle.message_maps@;
    let chans = input.channels@;
    let missing = chans.len() == 0 || maps.len() == 0;
    let per = min_int(maps.len() as int, asset_limit(input.max_assets_per_channel));
    let ready = !input.requires_human_review && !e.policy_pack.human_approval_required;
    let n = o.assets@.len();
    &&& r.task_id == e.task_id
    &&& r.schema_version@ == GTM_SCHEMA_VERSION@
    &&& strs(r.errors@) == (if chans.len() == 0 { seq!["content channels list is empty"@] } else { Seq::empty() })
        + (if maps.len() == 0 { seq!["positioning bundle has no message maps"@] } else { Seq::empty() })
    &&& o.publish_ready == ready
    &&& n == (if missing { 0 } else { chans.len() * per })
    &&& !missing ==> forall|i: int| 0 <= i < n ==> {
        let slot = #[trigger] asset_slots(chans, per)[i];
        asset_for(o.assets@[i], input.positioning_bundle.bundle_id@, maps[slot.1], slot.0, (slot.1 + 1) as nat)
    }
    &&& r.emitted_events@.len() == n + (if n > 0 { 1int } else { 0 })
    &&& forall|i: int| 0 <= i < n ==> event_is(#[trigger] r.emitted_events@[i], e, AgentId::RachelContentStudio, "content.asset.drafted"@, SubjectType::Campaign, e.objective_id, EventPayload::ContentAsset(i as usize))
    &&& (n > 0 && ready) ==> (r.emitted_events@[n as int].payload matches EventPayload::AssetsPublished { asset_count, bundle_id }
        && asset_count == n && bundle_id@ == input.positioning_bundle.bundle_id@
        && event_is(r.emitted_events@[n as int], e, AgentId::RachelContentStudio, "content.asset.published"@, SubjectType::Campaign, e.objective_id, r.emitted_events@[n as int].payload))
    &&& (n > 0 && !ready) ==> (r.emitted_events@[n as int].payload matches EventPayload::Approval(a)
        && approval_view(a) == ("Content assets require human review before publishing"@, "medium"@, "content_ops"@)
        && event_is(r.emitted_events@[n as int], e, AgentId::RachelContentStudio, "approval.requested"@, SubjectType::Campaign, e.objective_id, r.emitted_events@[n as int].payload))
    &&& r.status == (if missing { TaskStatus::Failed } else if ready { TaskStatus::Succeeded } else { TaskStatus::NeedsHuman })
    &&& r.evidence_refs@ == e.input_refs@
    &&& r.next_action@ == (if missing {
        "Provide valid channels and positioning message maps for content generation"@
    } else if ready {
        "Distribute published content assets by channel"@
    } else {
        "Collect human review approval then publish drafted assets"@
    })
}

impl Phase2AgentEngine {
    /// Drafts an asset for each channel and each of the first message maps
    /// (up to the per-channel limit), then publishes them or asks for review.
    pub fn run_content_studio(&self, envelope: AgentTaskEnvelope, input: ContentInput) -> (r: Result<
        AgentTaskResult<ContentOutput>,
        Phase2AgentError,
    >)
        requires
            input.channels@.len() * 4 < usize::MAX,
        ensures
            r matches Ok(res) && content_result(envelope, input, res),
    {
        let no_channels = input.channels.len() == 0;
        let no_maps = input.positioning_bundle.message_maps.len() == 0;
        let max = input.max_assets_per_channel;
        let limit: usize = if max < 1 {
            1
        } else if max > 4 {
            4
        } else {
            max as usize
        };
        let per: usize = if input.positioning_bundle.message_maps.len() < limit {
            input.positioning_bundle.message_maps.len()
        } else {
            limit
        };
        let mut errors: Vec<String> = Vec::new();
        if no_channels {
            errors.push(crate::text::owned("content channels list is empty"));
        }
        if no_maps {
            errors.push(crate::text::owned("positioning bundle has no message maps"));
        }
        proof {
            assert(strs(errors@) =~= (if no_channels { seq!["content channels list is empty"@] } else { Seq::<Seq<char>>::empty() })
                + (if no_maps { seq!["positioning bundle has no message maps"@] } else { Seq::<Seq<char>>::empty() }));
        }
        let mut assets: Vec<ContentAsset> = Vec::new();
        let nc = input.channels.len();
        let ghost perg: int = per as int;
        if !no_channels && !no_maps {
            let mut c: usize = 0;
            proof {
                assert(input.channels@.take(0) =~= Seq::<AssetChannel>::empty());
            }
            while c < nc
                invariant
                    c <= nc,
                    nc == input.channels@.len(),
                    nc * 4 < usize::MAX,
                    per <= 4,
                    perg == per,
                    per == min_int(input.positioning_bundle.message_maps@.len() as int, asset_limit(input.max_assets_per_channel)),
                    assets@.len() == asset_slots(input.channels@.take(c as int), perg).len(),
                    forall|i: int| 0 <= i < assets@.len() ==> {
                        let slot = #[trigger] asset_slots(input.channels@.take(c as int), perg)[i];
                        asset_for(assets@[i], input.positioning_bundle.bundle_id@, input.positioning_bundle.message_maps@[slot.1], slot.0, (slot.1 + 1) as nat)
                    },
                decreases nc - c,
            {
                let ghost base = asset_slots(input.channels@.take(c as int), perg);
                let ghost next = asset_slots(input.channels@.take(c + 1), perg);
                proof {
                    let t = input.channels@.take(c + 1);
                    assert(t.drop_last() =~= input.channels@.take(c as int));
                    assert(t.last() == input.channels@[c as int]);
                    assert(next == base + Seq::new(per as nat, |k: int| (input.channels@[c as int], k)));
                    lemma_asset_slots_len(input.channels@.take(c as int), perg);
                    assert(c * per <= nc * 4) by (nonlinear_arith)
                        requires c <= nc, per <= 4;
                }
                let mut k: usize = 0;
                while k < per
                    invariant
                        k <= per <= 4,
                        c < nc,
                        nc == input.channels@.len(),
                        nc * 4 < usize::MAX,
                        perg == per,
                        per == min_int(input.positioning_bundle.message_maps@.len() as int, asset_limit(input.max_assets_per_channel)),
                        next == base + Seq::new(per as nat, |kk: int| (input.channels@[c as int], kk)),
                        base.len() == c * per,
                        c * per <= nc * 4,
                        assets@.len() == base.len() + k,
                        forall|i: int| 0 <= i < assets@.len() ==> {
                            let slot = #[trigger] next[i];
                            asset_for(assets@[i], input.positioning_bundle.bundle_id@, input.positioning_bundle.message_maps@[slot.1], slot.0, (slot.1 + 1) as nat)
                        },
                    decreases per - k,
                {
                    proof {
                        assert(c * per + per <= nc * 4) by (nonlinear_arith)
                            requires c < nc, per <= 4;
                        assert(next[base.len() + k] == (input.channels@[c as int], k as int));
                    }
                    assets.push(build_asset(input.positioning_bundle.bundle_id.as_str(), &input.positioning_bundle.message_maps[k], input.channels[c], k + 1));
                    k = k + 1;
                }
                c = c + 1;
            }
            proof {
                assert(input.channels@.take(nc as int) =~= input.channels@);
                lemma_asset_slots_len(input.channels@, perg);
            }
        }
        let ready = !input.requires_human_review && !envelope.policy_pack.human_approval_required;
        let n = assets.len();
        let mut events: Vec<EventEnvelope> = Vec::new();
        let mut i: usize = 0;
        while i < n
            invariant
                i <= n,
                n == assets@.len(),
                events@.len() == i,
                forall|q: int| 0 <= q < i ==> event_is(#[trigger] events@[q], envelope, AgentId::RachelContentStudio, "content.asset.drafted"@, SubjectType::Campaign, envelope.objective_id, EventPayload::ContentAsset(q as usize)),
            decreases n - i,
        {
            events.push(make_event(&envelope, AgentId::RachelContentStudio, "content.asset.drafted", SubjectType::Campaign, envelope.objective_id, EventPayload::ContentAsset(i)));
            i = i + 1;
        }
        if n > 0 {
            if ready {
                events.push(make_event(&envelope, AgentId::RachelContentStudio, "content.asset.published", SubjectType::Campaign, envelope.objective_id,
                    EventPayload::AssetsPublished { asset_count: n, bundle_id: input.positioning_bundle.bundle_id.clone() }));
            } else {
                let approval = ApprovalRequest {
                    reason: crate::text::owned("Content assets require human review before publishing"),
                    risk_level: crate::text::owned("medium"),
                    reviewer_group: crate::text::owned("content_ops"),
                };
                events.push(make_event(&envelope, AgentId::RachelContentStudio, "approval.requested", SubjectType::Campaign, envelope.objective_id, EventPayload::Approval(approval)));
            }
        }
        let missing = no_channels || no_maps;
        let status = if missing {
            TaskStatus::Failed
        } else if ready {
            TaskStatus::Succeeded
        } else {
            TaskStatus::NeedsHuman
        };
        let next_action = if missing {
            crate::text::owned("Provide valid channels and positioning message maps for content generation")
        } else if ready {
            crate::text::owned("Distribute published content assets by channel")
        } else {
            crate::text::owned("Collect human review approval then publish drafted assets")
        };
        Ok(AgentTaskResult {
            task_id: envelope.task_id,
            status,
            schema_version: crate::text::owned(GTM_SCHEMA_VERSION),
            output_payload: ContentOutput { assets, publish_ready: ready },
            emitted_events: events,
            evidence_refs: crate::text::clone_strings(&envelope.input_refs),
            next_action,
            errors,
        })
    }
}


/// Two message maps say the same.
pub open spec fn same_map(a: MessageMap, b: MessageMap) -> bool {
    &&& a.segment_id@ == b.segment_id@
    &&& a.value_proposition@ == b.value_proposition@
    &&& strs(a.pains@) == strs(b.pains@)
    &&& strs(a.proof_points@) == strs(b.proof_points@)
    &&& strs(a.objection_handling@) == strs(b.objection_handling@)
    &&& a.funnel_stage == b.funnel_stage
}

/// Two bundles say the same.
pub open spec fn same_bundle(a: PositioningBundle, b: PositioningBundle) -> bool {
    &&& a.bundle_id@ == b.bundle_id@
    &&& a.message_maps@.len() == b.message_maps@.len()
    &&& forall|i: int| 0 <= i < a.message_maps@.len() ==> same_map(#[trigger] a.message_maps@[i], b.message_maps@[i])
    &&& strs(a.claim_safe_list@) == strs(b.claim_safe_list@)
    &&& a.generated_at == b.generated_at
}

fn copy_map(m: &MessageMap) -> (r: MessageMap)
    ensures
        same_map(r, *m),
{
    MessageMap {
        segment_id: m.segment_id.clone(),
        value_proposition: m.value_proposition.clone(),
        pains: crate::text::clone_strings(&m.pains),
        proof_points: crate::text::clone_strings(&m.proof_points),
        objection_handling: crate::text::clone_strings(&m.objection_handling),
        funnel_stage: m.funnel_stage,
    }
}

fn copy_bundle(b: &PositioningBundle) -> (r: PositioningBundle)
    ensures
        same_bundle(r, *b),
{
    let mut maps: Vec<MessageMap> = Vec::new();
    let mut i: usize = 0;
    while i < b.message_maps.len()
        invariant
            i <= b.message_maps@.len(),
            maps@.len() == i,
            forall|k: int| 0 <= k < i ==> same_map(#[trigger] maps@[k], b.message_maps@[k]),
        decreases b.message_maps@.len() - i,
    {
        maps.push(copy_map(&b.message_maps[i]));
        i = i + 1;
    }
    PositioningBundle {
        bundle_id: b.bundle_id.clone(),
        message_maps: maps,
        claim_safe_list: crate::text::clone_strings(&b.claim_safe_list),
        generated_at: b.generated_at,
    }
}

/// Inputs of a phase 2 run.
#[derive(Debug, Clone)]
pub struct Phase2WorkflowInput {
    pub base_envelope: AgentTaskEnvelope,
    pub data_contracts_stable: bool,
    pub positioning: PositioningInput,
    pub content: ContentInput,
}

/// Results of a phase 2 run, with all events in order.
#[derive(Debug, Clone)]
pub struct Phase2WorkflowResult {
    pub positioning: AgentTaskResult<PositioningOutput>,
    pub content: AgentTaskResult<ContentOutput>,
    pub events: Vec<EventEnvelope>,
}

impl Phase2AgentEngine {
    /// Runs positioning, then content on the bundle positioning produced; it
    /// refuses to run while the data contracts are not stable.
    pub fn run_workflow(&self, input: Phase2WorkflowInput) -> (r: Result<Phase2WorkflowResult, Phase2AgentError>)
        requires
            input.content.channels@.len() * 4 < usize::MAX,
        ensures
            !input.data_contracts_stable ==> r matches Err(Phase2AgentError::DataContractsNotStable),
            input.data_contracts_stable ==> (r matches Ok(res) && {
                &&& exists|e: AgentTaskEnvelope| handed_to(e, input.base_envelope, AgentId::RachelPositioningPmm) && positioning_result(e, input.positioning, res.positioning)
                &&& exists|e: AgentTaskEnvelope, c: ContentInput| handed_to(e, input.base_envelope, AgentId::RachelContentStudio)
                    && c.channels@ == input.content.channels@ && c.max_assets_per_channel == input.content.max_assets_per_channel
                    && c.requires_human_review == input.content.requires_human_review
                    && same_bundle(c.positioning_bundle, res.positioning.output_payload.positioning_bundle)
                    && content_result(e, c, res.content)
                &&& res.events@ == res.positioning.emitted_events@ + res.content.emitted_events@
            }),
    {
        if !input.data_contracts_stable {
            return Err(Phase2AgentError::DataContractsNotStable);
        }
        let e1 = input.base_envelope.with_agent(AgentId::RachelPositioningPmm);
        let positioning = match self.run_positioning_pmm(e1, input.positioning) {
            Ok(v) => v,
            Err(x) => {
                return Err(x);
            },
        };
        let mut content_input = input.content;
        content_input.positioning_bundle = copy_bundle(&positioning.output_payload.positioning_bundle);
        let ghost ci = content_input;
        let e2 = input.base_envelope.with_agent(AgentId::RachelContentStudio);
        let content = match self.run_content_studio(e2, content_input) {
            Ok(v) => v,
            Err(x) => {
                return Err(x);
            },
        };
        let mut events: Vec<EventEnvelope> = Vec::new();
        extend_events(&mut events, &positioning.emitted_events);
        extend_events(&mut events, &content.emitted_events);
        proof {
            assert(events@ =~= positioning.emitted_events@ + content.emitted_events@);
            assert(handed_to(e1, input.base_envelope, AgentId::RachelPositioningPmm) && positioning_result(e1, input.positioning, positioning));
            assert(handed_to(e2, input.base_envelope, AgentId::RachelContentStudio) && ci.channels@ == input.content.channels@
                && same_bundle(ci.positioning_bundle, positioning.output_payload.positioning_bundle) && content_result(e2, ci, content));
        }
        Ok(Phase2WorkflowResult { positioning, content, events })
    }
}

} // verus!
