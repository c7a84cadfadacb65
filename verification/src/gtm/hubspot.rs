//! Pushing mode A drafts to HubSpot, one request at a time.
//!
//! The dispatch is a state machine: it names the next request to make
//! (create a task or a note, look up a contact, associate the two) and is
//! told the answer. Each task draft is created, then each communication
//! draft as a note; a created object is associated with the draft's contact,
//! which is looked up once per address. The report counts what was tried
//! and what succeeded, and keeps a message for every failure.

use vstd::prelude::*;
use crate::gtm::contracts::{HubspotDispatchReport, ModeAOutboundDispatchOutput};
use crate::text::{strs, opt_str};

verus! {

/// Which list of drafts is being worked through.
#[derive(Debug, Clone, Copy, PartialEq, Eq, Structural)]
pub enum DraftKind {
    Task,
    Note,
}

/// What the dispatch waits for.
#[derive(Debug, Clone)]
pub enum DispatchStage {
    /// The answer to creating the current draft.
    Creating,
    /// The contact of the current draft, whose object was created as `entity_id`.
    FindingContact { entity_id: String },
    /// The answer to associating `entity_id` with `contact_id`.
    Associating { entity_id: String, contact_id: String },
    /// Every draft has been dealt with.
    Finished,
}

/// The next request to make.
#[derive(Debug, Clone)]
pub enum HubspotRequest {
    /// Create the task draft at this position.
    CreateTask(usize),
    /// Create the communication draft at this position as a note.
    CreateNote(usize),
    /// Look up the contact with this address.
    FindContact(String),
    /// Associate an object (`tasks` or `notes`) with a contact.
    Associate { entity_kind: String, entity_id: String, contact_id: String },
    /// Nothing is left to do.
    Done,
}

/// The answer to the last request.
#[derive(Debug, Clone)]
pub enum HubspotReply {
    /// The object was created under this id.
    Created(String),
    /// Creating failed with this message.
    CreateFailed(String),
    /// The lookup answered, with the contact's id when there is one.
    ContactFound(Option<String>),
    /// The lookup failed with this message.
    ContactLookupFailed(String),
    Associated,
    AssociationFailed,
}

/// The dispatch in progress.
#[derive(Debug, Clone)]
pub struct HubspotDispatch {
    pub kind: DraftKind,
    pub index: usize,
    pub stage: DispatchStage,
    pub report: HubspotDispatchReport,
    /// Contacts looked up so far: address and the id found, if any.
    pub contacts: Vec<(String, Option<String>)>,
}

/// The report's counters.
pub struct CountsView {
    pub tasks_attempted: int,
    pub tasks_created: int,
    pub notes_attempted: int,
    pub notes_created: int,
    pub associations_attempted: int,
    pub associations_created: int,
}

#[verifier::ext_equal]
pub enum StageView {
    Creating,
    FindingContact(Seq<char>),
    Associating(Seq<char>, Seq<char>),
    Finished,
}

/// A dispatch as plain values.
#[verifier::ext_equal]
pub struct DispatchView {
    pub kind: DraftKind,
    pub index: int,
    pub stage: StageView,
    pub counts: CountsView,
    pub errors: Seq<Seq<char>>,
    pub contacts: Seq<(Seq<char>, Option<Seq<char>>)>,
}

pub enum ReplyView {
    Created(Seq<char>),
    CreateFailed(Seq<char>),
    ContactFound(Option<Seq<char>>),
    ContactLookupFailed(Seq<char>),
    Associated,
    AssociationFailed,
}

pub enum RequestView {
    CreateTask(int),
    CreateNote(int),
    FindContact(Seq<char>),
    Associate(Seq<char>, Seq<char>, Seq<char>),
    Done,
}

/// The drafts to push: external id and contact address of each task draft
/// and of each communication draft.
pub struct DraftsView {
    pub tasks: Seq<(Seq<char>, Seq<char>)>,
    pub notes: Seq<(Seq<char>, Seq<char>)>,
}

pub open spec fn drafts_view(o: ModeAOutboundDispatchOutput) -> DraftsView {
    DraftsView {
        tasks: o.hubspot_task_drafts@.map_values(|t: crate::gtm::contracts::HubspotTaskDraft| (t.external_id@, t.contact_email@)),
        notes: o.hubspot_communication_drafts@.map_values(
            |c: crate::gtm::contracts::HubspotCommunicationDraft| (c.external_id@, c.contact_email@),
        ),
    }
}

pub open spec fn counts_view(r: HubspotDispatchReport) -> CountsView {
    CountsView {
        tasks_attempted: r.tasks_attempted as int,
        tasks_created: r.tasks_created as int,
        notes_attempted: r.notes_attempted as int,
        notes_created: r.notes_created as int,
        associations_attempted: r.associations_attempted as int,
        associations_created: r.associations_created as int,
    }
}

pub open spec fn contact_views(c: Seq<(String, Option<String>)>) -> Seq<(Seq<char>, Option<Seq<char>>)> {
    c.map_values(|p: (String, Option<String>)| (p.0@, opt_str(p.1)))
}

impl View for HubspotDispatch {
    type V = DispatchView;

    open spec fn view(&self) -> DispatchView {
        DispatchView {
            kind: self.kind,
            index: self.index as int,
            stage: match self.stage {
                DispatchStage::Creating => StageView::Creating,
                DispatchStage::FindingContact { entity_id } => StageView::FindingContact(entity_id@),
                DispatchStage::Associating { entity_id, contact_id } => StageView::Associating(entity_id@, contact_id@),
                DispatchStage::Finished => StageView::Finished,
            },
            counts: counts_view(self.report),
            errors: strs(self.report.errors@),
            contacts: contact_views(self.contacts@),
        }
    }
}

impl View for HubspotReply {
    type V = ReplyView;

    open spec fn view(&self) -> ReplyView {
        match self {
            HubspotReply::Created(id) => ReplyView::Created(id@),
            HubspotReply::CreateFailed(e) => ReplyView::CreateFailed(e@),
            HubspotReply::ContactFound(c) => ReplyView::ContactFound(opt_str(*c)),
            HubspotReply::ContactLookupFailed(e) => ReplyView::ContactLookupFailed(e@),
            HubspotReply::Associated => ReplyView::Associated,
            HubspotReply::AssociationFailed => ReplyView::AssociationFailed,
        }
    }
}

impl View for HubspotRequest {
    type V = RequestView;

    open spec fn view(&self) -> RequestView {
        match self {
            HubspotRequest::CreateTask(i) => RequestView::CreateTask(*i as int),
            HubspotRequest::CreateNote(i) => RequestView::CreateNote(*i as int),
            HubspotRequest::FindContact(e) => RequestView::FindContact(e@),
            HubspotRequest::Associate { entity_kind, entity_id, contact_id } => RequestView::Associate(
                entity_kind@,
                entity_id@,
                contact_id@,
            ),
            HubspotRequest::Done => RequestView::Done,
        }
    }
}

/// What the lookups so far found for `email`: `None` when it was not looked up.
pub open spec fn cached(c: Seq<(Seq<char>, Option<Seq<char>>)>, email: Seq<char>) -> Option<Option<Seq<char>>>
    decreases c.len(),
{
    if c.len() == 0 {
        None
    } else if c[0].0 == email {
        Some(c[0].1)
    } else {
        cached(c.drop_first(), email)
    }
}

/// External id and contact address of the current draft.
pub open spec fn current(d: DispatchView, o: DraftsView) -> (Seq<char>, Seq<char>) {
    if d.kind == DraftKind::Task {
        o.tasks[d.index]
    } else {
        o.notes[d.index]
    }
}

/// On to the next draft: the next task, the first note after the last task,
/// the next note, or the end. Moving to a draft counts it as attempted.
pub open spec fn advance(d: DispatchView, o: DraftsView) -> DispatchView {
    let c = d.counts;
    if d.kind == DraftKind::Task && d.index + 1 < o.tasks.len() {
        DispatchView {
            index: d.index + 1,
            stage: StageView::Creating,
            counts: CountsView { tasks_attempted: c.tasks_attempted + 1, ..c },
            ..d
        }
    } else if d.kind == DraftKind::Task && o.notes.len() > 0 {
        DispatchView {
            kind: DraftKind::Note,
            index: 0,
            stage: StageView::Creating,
            counts: CountsView { notes_attempted: c.notes_attempted + 1, ..c },
            ..d
        }
    } else if d.kind == DraftKind::Note && d.index + 1 < o.notes.len() {
        DispatchView {
            index: d.index + 1,
            stage: StageView::Creating,
            counts: CountsView { notes_attempted: c.notes_attempted + 1, ..c },
            ..d
        }
    } else {
        DispatchView { stage: StageView::Finished, ..d }
    }
}

/// A new dispatch: at the first task draft, else at the first
/// communication draft, else finished; the draft it is at counts as attempted.
pub open spec fn start_view(o: DraftsView) -> DispatchView {
    let zero = CountsView {
        tasks_attempted: 0,
        tasks_created: 0,
        notes_attempted: 0,
        notes_created: 0,
        associations_attempted: 0,
        associations_created: 0,
    };
    let base = DispatchView {
        kind: DraftKind::Task,
        index: 0,
        stage: StageView::Creating,
        counts: zero,
        errors: Seq::empty(),
        contacts: Seq::empty(),
    };
    if o.tasks.len() > 0 {
        DispatchView { counts: CountsView { tasks_attempted: 1, ..zero }, ..base }
    } else if o.notes.len() > 0 {
        DispatchView { kind: DraftKind::Note, counts: CountsView { notes_attempted: 1, ..zero }, ..base }
    } else {
        DispatchView { stage: StageView::Finished, ..base }
    }
}

pub open spec fn create_error(kind: DraftKind, external_id: Seq<char>, message: Seq<char>) -> Seq<char> {
    (if kind == DraftKind::Task {
        "failed to create HubSpot task draft "@
    } else {
        "failed to create HubSpot communication draft "@
    }) + external_id + ": "@ + message
}

pub open spec fn association_error(kind: DraftKind, entity_id: Seq<char>, email: Seq<char>) -> Seq<char> {
    (if kind == DraftKind::Task {
        "failed to associate HubSpot task "@
    } else {
        "failed to associate HubSpot note "@
    }) + entity_id + " with contact "@ + email
}

pub open spec fn lookup_error(email: Seq<char>, message: Seq<char>) -> Seq<char> {
    "failed to find HubSpot contact for "@ + email + ": "@ + message
}

/// The dispatch after `r` answers its pending request; an answer to another
/// kind of request changes nothing.
pub open spec fn step_view(d: DispatchView, o: DraftsView, r: ReplyView) -> DispatchView {
    let c = d.counts;
    let (ext, email) = current(d, o);
    match d.stage {
        StageView::Creating => match r {
            ReplyView::Created(id) => {
                let c1 = if d.kind == DraftKind::Task {
                    CountsView { tasks_created: c.tasks_created + 1, ..c }
                } else {
                    CountsView { notes_created: c.notes_created + 1, ..c }
                };
                match cached(d.contacts, email) {
                    Some(Some(contact)) => DispatchView {
                        stage: StageView::Associating(id, contact),
                        counts: CountsView { associations_attempted: c1.associations_attempted + 1, ..c1 },
                        ..d
                    },
                    Some(None) => advance(DispatchView { counts: c1, ..d }, o),
                    None => DispatchView { stage: StageView::FindingContact(id), counts: c1, ..d },
                }
            },
            ReplyView::CreateFailed(m) => advance(DispatchView { errors: d.errors.push(create_error(d.kind, ext, m)), ..d }, o),
            _ => d,
        },
        StageView::FindingContact(id) => match r {
            ReplyView::ContactFound(found) => {
                let d1 = DispatchView { contacts: d.contacts.push((email, found)), ..d };
                match found {
                    Some(contact) => DispatchView {
                        stage: StageView::Associating(id, contact),
                        counts: CountsView { associations_attempted: c.associations_attempted + 1, ..c },
                        ..d1
                    },
                    None => advance(d1, o),
                }
            },
            ReplyView::ContactLookupFailed(m) => advance(
                DispatchView {
                    contacts: d.contacts.push((email, None)),
                    errors: d.errors.push(lookup_error(email, m)),
                    ..d
                },
                o,
            ),
            _ => d,
        },
        StageView::Associating(id, contact) => match r {
            ReplyView::Associated => advance(
                DispatchView { counts: CountsView { associations_created: c.associations_created + 1, ..c }, ..d },
                o,
            ),
            ReplyView::AssociationFailed => advance(DispatchView { errors: d.errors.push(association_error(d.kind, id, email)), ..d }, o),
            _ => d,
        },
        StageView::Finished => d,
    }
}

/// The request a dispatch is waiting to have made.
pub open spec fn request_view(d: DispatchView, o: DraftsView) -> RequestView {
    match d.stage {
        StageView::Creating => if d.kind == DraftKind::Task {
            RequestView::CreateTask(d.index)
        } else {
            RequestView::CreateNote(d.index)
        },
        StageView::FindingContact(_) => RequestView::FindContact(current(d, o).1),
        StageView::Associating(id, contact) => RequestView::Associate(
            if d.kind == DraftKind::Task { "tasks"@ } else { "notes"@ },
            id,
            contact,
        ),
        StageView::Finished => RequestView::Done,
    }
}

/// The counters agree with the position: drafts before and at the current one
/// were attempted, no more succeeded than were attempted, each created object
/// had at most one association attempted, and each address was looked up once.
pub open spec fn wf(d: DispatchView, o: DraftsView) -> bool {
    let c = d.counts;
    &&& o.tasks.len() + o.notes.len() <= usize::MAX
    &&& !(d.stage is Finished) ==> {
        &&& 0 <= d.index
        &&& d.kind == DraftKind::Task ==> d.index < o.tasks.len() && c.tasks_attempted == d.index + 1 && c.notes_attempted == 0
        &&& d.kind == DraftKind::Note ==> d.index < o.notes.len() && c.tasks_attempted == o.tasks.len() && c.notes_attempted
            == d.index + 1
    }
    &&& d.stage is Finished ==> c.tasks_attempted == o.tasks.len() && c.notes_attempted == o.notes.len()
    &&& 0 <= c.tasks_created <= c.tasks_attempted
    &&& 0 <= c.notes_created <= c.notes_attempted
    &&& 0 <= c.associations_created <= c.associations_attempted <= c.tasks_created + c.notes_created
    &&& d.stage is Creating ==> (d.kind == DraftKind::Task ==> c.tasks_created < c.tasks_attempted) && (d.kind
        == DraftKind::Note ==> c.notes_created < c.notes_attempted)
    &&& d.stage is FindingContact ==> cached(d.contacts, current(d, o).1) is None && c.associations_attempted
        < c.tasks_created + c.notes_created
    &&& d.stage is Associating ==> c.associations_created < c.associations_attempted
    &&& forall|i: int, j: int| 0 <= i < j < d.contacts.len() ==> (#[trigger] d.contacts[i]).0 != (#[trigger] d.contacts[j]).0
}

/// Drafts not yet finished, the current one included.
pub open spec fn drafts_left(d: DispatchView, o: DraftsView) -> int {
    match d.stage {
        StageView::Finished => 0,
        _ => if d.kind == DraftKind::Task {
            o.tasks.len() - d.index + o.notes.len()
        } else {
            o.notes.len() - d.index
        },
    }
}

/// Requests still to come at most: three per unfinished draft, fewer once
/// the current draft's object was created.
pub open spec fn work_left(d: DispatchView, o: DraftsView) -> int {
    let k = drafts_left(d, o);
    match d.stage {
        StageView::Creating => 3 * k,
        StageView::FindingContact(_) => 3 * k - 1,
        StageView::Associating(_, _) => 3 * k - 2,
        StageView::Finished => 0,
    }
}

/// The answer `r` is one to the pending request.
pub open spec fn answers(d: DispatchView, r: ReplyView) -> bool {
    match d.stage {
        StageView::Creating => r is Created || r is CreateFailed,
        StageView::FindingContact(_) => r is ContactFound || r is ContactLookupFailed,
        StageView::Associating(_, _) => r is Associated || r is AssociationFailed,
        StageView::Finished => false,
    }
}

proof fn lemma_cached_absent(c: Seq<(Seq<char>, Option<Seq<char>>)>, email: Seq<char>)
    requires
        cached(c, email) is None,
    ensures
        forall|i: int| 0 <= i < c.len() ==> (#[trigger] c[i]).0 != email,
    decreases c.len(),
{
    if c.len() > 0 {
        lemma_cached_absent(c.drop_first(), email);
        assert forall|i: int| 0 <= i < c.len() implies (#[trigger] c[i]).0 != email by {
            if i > 0 {
                assert(c[i] == c.drop_first()[i - 1]);
            }
        }
    }
}

/// Looking up an address once it is known to be absent, then recording it,
/// keeps every address once.
proof fn lemma_push_new_contact(c: Seq<(Seq<char>, Option<Seq<char>>)>, email: Seq<char>, found: Option<Seq<char>>)
    requires
        cached(c, email) is None,
        forall|i: int, j: int| 0 <= i < j < c.len() ==> (#[trigger] c[i]).0 != (#[trigger] c[j]).0,
    ensures
        forall|i: int, j: int| 0 <= i < j < c.push((email, found)).len() ==> (#[trigger] c.push((email, found))[i]).0
            != (#[trigger] c.push((email, found))[j]).0,
{
    lemma_cached_absent(c, email);
    let p = c.push((email, found));
    assert forall|i: int, j: int| 0 <= i < j < p.len() implies (#[trigger] p[i]).0 != (#[trigger] p[j]).0 by {
        if j == c.len() {
            assert(p[i] == c[i]);
        } else {
            assert(p[i] == c[i] && p[j] == c[j]);
        }
    }
}

/// Every answer to the pending request keeps the dispatch well formed.
pub proof fn lemma_step_keeps_wf(d: DispatchView, o: DraftsView, r: ReplyView)
    requires
        wf(d, o),
    ensures
        wf(step_view(d, o, r), o),
{
    let email = current(d, o).1;
    match d.stage {
        StageView::FindingContact(_) => {
            match r {
                ReplyView::ContactFound(found) => lemma_push_new_contact(d.contacts, email, found),
                ReplyView::ContactLookupFailed(_) => lemma_push_new_contact(d.contacts, email, None),
                _ => {},
            }
        },
        _ => {},
    }
}

/// Every answer to the pending request brings the dispatch closer to its
/// end: at most three requests per draft are made.
pub proof fn lemma_answer_makes_progress(d: DispatchView, o: DraftsView, r: ReplyView)
    requires
        wf(d, o),
        answers(d, r),
    ensures
        0 <= work_left(step_view(d, o, r), o) < work_left(d, o),
{
}

/// A finished dispatch attempted every draft once.
pub proof fn lemma_finished_attempted_all(d: DispatchView, o: DraftsView)
    requires
        wf(d, o),
        d.stage is Finished,
    ensures
        d.counts.tasks_attempted == o.tasks.len(),
        d.counts.notes_attempted == o.notes.len(),
        request_view(d, o) is Done,
{
}

fn copy_stage(s: &DispatchStage) -> (r: DispatchStage)
    ensures
        r == *s,
{
    match s {
        DispatchStage::Creating => DispatchStage::Creating,
        DispatchStage::FindingContact { entity_id } => DispatchStage::FindingContact { entity_id: entity_id.clone() },
        DispatchStage::Associating { entity_id, contact_id } => DispatchStage::Associating {
            entity_id: entity_id.clone(),
            contact_id: contact_id.clone(),
        },
        DispatchStage::Finished => DispatchStage::Finished,
    }
}

/// The contact id recorded for `email`: `None` when it was not looked up.
fn contact_lookup(contacts: &Vec<(String, Option<String>)>, email: &str) -> (r: Option<Option<String>>)
    ensures
        match r {
            Some(x) => cached(contact_views(contacts@), email@) == Some(opt_str(x)),
            None => cached(contact_views(contacts@), email@) is None,
        },
{
    let ghost cv = contact_views(contacts@);
    let mut i: usize = 0;
    proof {
        assert(cv.skip(0) =~= cv);
    }
    while i < contacts.len()
        invariant
            i <= contacts@.len(),
            cv == contact_views(contacts@),
            cached(cv, email@) == cached(cv.skip(i as int), email@),
        decreases contacts@.len() - i,
    {
        proof {
            assert(cv.skip(i as int).drop_first() =~= cv.skip(i + 1));
            assert(cv.skip(i as int)[0] == cv[i as int]);
        }
        if crate::text::str_eq(contacts[i].0.as_str(), email) {
            return Some(crate::text::clone_opt(&contacts[i].1));
        }
        i = i + 1;
    }
    None
}

impl HubspotDispatch {
    /// External id and contact address of the current draft.
    fn current_draft(&self, output: &ModeAOutboundDispatchOutput) -> (r: (String, String))
        requires
            self.kind == DraftKind::Task ==> self.index < output.hubspot_task_drafts@.len(),
            self.kind == DraftKind::Note ==> self.index < output.hubspot_communication_drafts@.len(),
        ensures
            (r.0@, r.1@) == current(self@, drafts_view(*output)),
    {
        if self.kind == DraftKind::Task {
            let t = &output.hubspot_task_drafts[self.index];
            (t.external_id.clone(), t.contact_email.clone())
        } else {
            let c = &output.hubspot_communication_drafts[self.index];
            (c.external_id.clone(), c.contact_email.clone())
        }
    }

    /// The request the dispatch waits to have made.
    pub fn request(&self, output: &ModeAOutboundDispatchOutput) -> (r: HubspotRequest)
        requires
            wf(self@, drafts_view(*output)),
        ensures
            r@ == request_view(self@, drafts_view(*output)),
    {
        match &self.stage {
            DispatchStage::Creating => if self.kind == DraftKind::Task {
                HubspotRequest::CreateTask(self.index)
            } else {
                HubspotRequest::CreateNote(self.index)
            },
            DispatchStage::FindingContact { .. } => {
                let (_, email) = self.current_draft(output);
                HubspotRequest::FindContact(email)
            },
            DispatchStage::Associating { entity_id, contact_id } => {
                let kind = if self.kind == DraftKind::Task {
                    crate::text::owned("tasks")
                } else {
                    crate::text::owned("notes")
                };
                HubspotRequest::Associate { entity_kind: kind, entity_id: entity_id.clone(), contact_id: contact_id.clone() }
            },
            DispatchStage::Finished => HubspotRequest::Done,
        }
    }

    fn advance(&mut self, output: &ModeAOutboundDispatchOutput)
        requires
            drafts_view(*output).tasks.len() + drafts_view(*output).notes.len() <= usize::MAX,
            old(self).kind == DraftKind::Task ==> old(self).report.tasks_attempted == old(self).index + 1
                && old(self).index < output.hubspot_task_drafts@.len(),
            old(self).kind == DraftKind::Note ==> old(self).report.notes_attempted == old(self).index + 1
                && old(self).index < output.hubspot_communication_drafts@.len(),
            old(self).kind == DraftKind::Task ==> old(self).report.notes_attempted == 0,
        ensures
            final(self)@ == advance(old(self)@, drafts_view(*output)),
    {
        let nt = output.hubspot_task_drafts.len();
        let nn = output.hubspot_communication_drafts.len();
        if self.kind == DraftKind::Task && self.index + 1 < nt {
            self.index = self.index + 1;
            self.stage = DispatchStage::Creating;
            self.report.tasks_attempted = self.report.tasks_attempted + 1;
        } else if self.kind == DraftKind::Task && nn > 0 {
            self.kind = DraftKind::Note;
            self.index = 0;
            self.stage = DispatchStage::Creating;
            self.report.notes_attempted = self.report.notes_attempted + 1;
        } else if self.kind == DraftKind::Note && self.index + 1 < nn {
            self.index = self.index + 1;
            self.stage = DispatchStage::Creating;
            self.report.notes_attempted = self.report.notes_attempted + 1;
        } else {
            self.stage = DispatchStage::Finished;
        }
    }

    /// A dispatch of the drafts of `output`, and its first request.
    pub fn start(output: &ModeAOutboundDispatchOutput) -> (r: (HubspotDispatch, HubspotRequest))
        requires
            output.hubspot_task_drafts@.len() + output.hubspot_communication_drafts@.len() <= usize::MAX,
        ensures
            r.0@ == start_view(drafts_view(*output)),
            wf(r.0@, drafts_view(*output)),
            r.1@ == request_view(r.0@, drafts_view(*output)),
    {
        let nt = output.hubspot_task_drafts.len();
        let nn = output.hubspot_communication_drafts.len();
        let mut report = HubspotDispatchReport::default();
        let d = if nt > 0 {
            report.tasks_attempted = 1;
            HubspotDispatch { kind: DraftKind::Task, index: 0, stage: DispatchStage::Creating, report, contacts: Vec::new() }
        } else if nn > 0 {
            report.notes_attempted = 1;
            HubspotDispatch { kind: DraftKind::Note, index: 0, stage: DispatchStage::Creating, report, contacts: Vec::new() }
        } else {
            HubspotDispatch { kind: DraftKind::Task, index: 0, stage: DispatchStage::Finished, report, contacts: Vec::new() }
        };
        proof {
            assert(strs(d.report.errors@) =~= Seq::<Seq<char>>::empty());
            assert(contact_views(d.contacts@) =~= Seq::<(Seq<char>, Option<Seq<char>>)>::empty());
            assert(d@ =~= start_view(drafts_view(*output)));
        }
        let req = d.request(output);
        (d, req)
    }

    /// Takes the answer to the pending request and names the next one.
    pub fn step(&mut self, output: &ModeAOutboundDispatchOutput, reply: HubspotReply) -> (r: HubspotRequest)
        requires
            wf(old(self)@, drafts_view(*output)),
        ensures
            final(self)@ == step_view(old(self)@, drafts_view(*output), reply@),
            wf(final(self)@, drafts_view(*output)),
            r@ == request_view(final(self)@, drafts_view(*output)),
    {
        let ghost o = drafts_view(*output);
        proof {
            lemma_step_keeps_wf(self@, o, reply@);
        }
        let stage = copy_stage(&self.stage);
        match stage {
            DispatchStage::Creating => match reply {
                HubspotReply::Created(id) => {
                    let (_, email) = self.current_draft(output);
                    if self.kind == DraftKind::Task {
                        self.report.tasks_created = self.report.tasks_created + 1;
                    } else {
                        self.report.notes_created = self.report.notes_created + 1;
                    }
                    match contact_lookup(&self.contacts, email.as_str()) {
                        Some(Some(contact)) => {
                            self.report.associations_attempted = self.report.associations_attempted + 1;
                            self.stage = DispatchStage::Associating { entity_id: id, contact_id: contact };
                        },
                        Some(None) => {
                            self.advance(output);
                        },
                        None => {
                            self.stage = DispatchStage::FindingContact { entity_id: id };
                        },
                    }
                },
                HubspotReply::CreateFailed(m) => {
                    let (ext, _) = self.current_draft(output);
                    let mut msg = if self.kind == DraftKind::Task {
                        crate::text::owned("failed to create HubSpot task draft ")
                    } else {
                        crate::text::owned("failed to create HubSpot communication draft ")
                    };
                    msg.append(ext.as_str());
                    msg.append(": ");
                    msg.append(m.as_str());
                    self.report.errors.push(msg);
                    self.advance(output);
                },
                _ => {},
            },
            DispatchStage::FindingContact { entity_id } => match reply {
                HubspotReply::ContactFound(found) => {
                    let (_, email) = self.current_draft(output);
                    self.contacts.push((email, crate::text::clone_opt(&found)));
                    match found {
                        Some(contact) => {
                            self.report.associations_attempted = self.report.associations_attempted + 1;
                            self.stage = DispatchStage::Associating { entity_id, contact_id: contact };
                        },
                        None => {
                            self.advance(output);
                        },
                    }
                },
                HubspotReply::ContactLookupFailed(m) => {
                    let (_, email) = self.current_draft(output);
                    let mut msg = crate::text::concat3("failed to find HubSpot contact for ", email.as_str(), ": ");
                    msg.append(m.as_str());
                    self.contacts.push((email, None));
                    self.report.errors.push(msg);
                    self.advance(output);
                },
                _ => {},
            },
            DispatchStage::Associating { entity_id, contact_id } => match reply {
                HubspotReply::Associated => {
                    self.report.associations_created = self.report.associations_created + 1;
                    self.advance(output);
                },
                HubspotReply::AssociationFailed => {
                    let (_, email) = self.current_draft(output);
                    let mut msg = if self.kind == DraftKind::Task {
                        crate::text::owned("failed to associate HubSpot task ")
                    } else {
                        crate::text::owned("failed to associate HubSpot note ")
                    };
                    msg.append(entity_id.as_str());
                    msg.append(" with contact ");
                    msg.append(email.as_str());
                    self.report.errors.push(msg);
                    self.advance(output);
                },
                _ => {},
            },
            DispatchStage::Finished => {},
        }
        proof {
            assert(self@ =~= step_view(old(self)@, o, reply@));
        }
        self.request(output)
    }
}

} // verus!
