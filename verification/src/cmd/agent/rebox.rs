//! Sealing a box anew, from the request to the reply: the agent opens a box
//! with a card and seals what is in it to another key. The job says what is
//! to be done next and takes what came of it; the box itself and its
//! contents stay with whoever runs the job.
use crate::cmd::agent::session::{
    blob_point, extension_name, extract_ec_point_from_ssh_blob, parse_rebox_request,
    rebox_request, rebox_target, rebox_target_of, string_reply, AgentError, BoxInfo, EcdhPlan,
    ErrorView, Extension, ExtensionKind, ReboxRequest,
};
use crate::piv::Guid;
use crate::text::cat2;
use crate::wire::ssh_string;
use vstd::prelude::*;

verus! {

/// What is to be done next.
pub enum ReboxStage {
    /// The bytes have to be understood as a box.
    OpenBox { boxed: Vec<u8> },
    /// The key that opens the box has to be found.
    Plan { info: BoxInfo },
    /// The card has to derive the secret.
    Derive { plan: EcdhPlan },
    /// The box has to be opened with the secret.
    Unseal { secret: Vec<u8> },
    /// The partner's key has to be made from its point.
    PartnerKey { point: Vec<u8> },
    /// The contents have to be moved to a new box that names this card and
    /// slot, or none.
    TakeData { target: Option<(Guid, u8)> },
    /// The new box has to be sealed to the partner's key.
    Seal,
    /// The new box has to be put into bytes.
    Serialize,
    /// Nothing is left to do: the reply.
    Replied { reply: Extension },
    /// The request was refused.
    Refused { error: AgentError },
}

/// [`ReboxStage`] over plain values.
pub enum StageView {
    OpenBox(Seq<u8>),
    Plan(BoxInfo),
    Derive(EcdhPlan),
    Unseal(Seq<u8>),
    PartnerKey(Seq<u8>),
    TakeData(Option<(Seq<u8>, u8)>),
    Seal,
    Serialize,
    Replied(Seq<char>, Seq<u8>),
    Refused(ErrorView),
}

impl View for ReboxStage {
    type V = StageView;

    open spec fn view(&self) -> StageView {
        match self {
            ReboxStage::OpenBox { boxed } => StageView::OpenBox(boxed@),
            ReboxStage::Plan { info } => StageView::Plan(*info),
            ReboxStage::Derive { plan } => StageView::Derive(*plan),
            ReboxStage::Unseal { secret } => StageView::Unseal(secret@),
            ReboxStage::PartnerKey { point } => StageView::PartnerKey(point@),
            ReboxStage::TakeData { target: Some((g, slot)) } => StageView::TakeData(
                Some((g@, *slot)),
            ),
            ReboxStage::TakeData { target: None } => StageView::TakeData(None),
            ReboxStage::Seal => StageView::Seal,
            ReboxStage::Serialize => StageView::Serialize,
            ReboxStage::Replied { reply } => StageView::Replied(reply.name@, reply.details@),
            ReboxStage::Refused { error } => StageView::Refused(error@),
        }
    }
}

/// What came of a step; a step that failed comes with the words for it.
pub enum ReboxEvent {
    Info(Result<BoxInfo, String>),
    Planned(Result<EcdhPlan, AgentError>),
    Secret(Result<Vec<u8>, AgentError>),
    Done(Result<(), String>),
    Bytes(Result<Vec<u8>, String>),
}

/// [`ReboxEvent`] over plain values.
pub enum EventView {
    Info(Result<BoxInfo, Seq<char>>),
    Planned(Result<EcdhPlan, ErrorView>),
    Secret(Result<Seq<u8>, ErrorView>),
    Done(Option<Seq<char>>),
    Bytes(Result<Seq<u8>, Seq<char>>),
}

impl View for ReboxEvent {
    type V = EventView;

    open spec fn view(&self) -> EventView {
        match self {
            ReboxEvent::Info(Ok(i)) => EventView::Info(Ok(*i)),
            ReboxEvent::Info(Err(e)) => EventView::Info(Err(e@)),
            ReboxEvent::Planned(Ok(p)) => EventView::Planned(Ok(*p)),
            ReboxEvent::Planned(Err(e)) => EventView::Planned(Err(e@)),
            ReboxEvent::Secret(Ok(s)) => EventView::Secret(Ok(s@)),
            ReboxEvent::Secret(Err(e)) => EventView::Secret(Err(e@)),
            ReboxEvent::Done(Ok(_)) => EventView::Done(None),
            ReboxEvent::Done(Err(e)) => EventView::Done(Some(e@)),
            ReboxEvent::Bytes(Ok(b)) => EventView::Bytes(Ok(b@)),
            ReboxEvent::Bytes(Err(e)) => EventView::Bytes(Err(e@)),
        }
    }
}

/// A job: the request and what is to be done next.
pub struct ReboxJob {
    pub request: ReboxRequest,
    pub stage: ReboxStage,
}

/// [`ReboxJob`] over plain values: the card and slot that the request names,
/// the partner's key and the stage.
pub struct JobView {
    pub guid: Seq<u8>,
    pub slot: u8,
    pub partner: Seq<u8>,
    pub stage: StageView,
}

impl View for ReboxJob {
    type V = JobView;

    open spec fn view(&self) -> JobView {
        JobView {
            guid: self.request.guid@,
            slot: self.request.slot,
            partner: self.request.partner@,
            stage: self.stage@,
        }
    }
}

/// Whether an event answers a stage.
pub open spec fn fits(stage: StageView, e: EventView) -> bool {
    match stage {
        StageView::OpenBox(_) => e is Info,
        StageView::Plan(_) => e is Planned,
        StageView::Derive(_) => e is Secret,
        StageView::Unseal(_) => e is Done,
        StageView::PartnerKey(_) => e is Done,
        StageView::TakeData(_) => e is Done,
        StageView::Seal => e is Done,
        StageView::Serialize => e is Bytes,
        StageView::Replied(_, _) => false,
        StageView::Refused(_) => false,
    }
}

/// The job at another stage.
pub open spec fn at(j: JobView, stage: StageView) -> JobView {
    JobView { stage, ..j }
}

/// The job, refused with these words.
pub open spec fn refused(j: JobView, words: Seq<char>) -> JobView {
    at(j, StageView::Refused(ErrorView::Other(words)))
}

/// What a job comes to by an event that answers its stage.
pub open spec fn next(j: JobView, e: EventView) -> JobView {
    match (j.stage, e) {
        (StageView::OpenBox(_), EventView::Info(Err(e))) => refused(
            j,
            "ecdh-rebox: bad box: "@ + e,
        ),
        (StageView::OpenBox(_), EventView::Info(Ok(i))) => at(j, StageView::Plan(i)),
        (StageView::Plan(_), EventView::Planned(Err(e))) => at(j, StageView::Refused(e)),
        (StageView::Plan(_), EventView::Planned(Ok(p))) => at(j, StageView::Derive(p)),
        (StageView::Derive(_), EventView::Secret(Err(e))) => at(j, StageView::Refused(e)),
        (StageView::Derive(_), EventView::Secret(Ok(s))) => at(j, StageView::Unseal(s)),
        (StageView::Unseal(_), EventView::Done(Some(e))) => refused(
            j,
            "ecdh-rebox: decrypt: "@ + e,
        ),
        (StageView::Unseal(_), EventView::Done(None)) => match blob_point(j.partner) {
            Err(e) => refused(j, e),
            Ok(point) => at(j, StageView::PartnerKey(point)),
        },
        (StageView::PartnerKey(_), EventView::Done(Some(e))) => refused(j, e),
        (StageView::PartnerKey(_), EventView::Done(None)) => match rebox_target_of(
            j.guid,
            j.slot,
        ) {
            Err(e) => refused(j, e),
            Ok(target) => at(j, StageView::TakeData(target)),
        },
        (StageView::TakeData(_), EventView::Done(Some(e))) => refused(
            j,
            "ecdh-rebox: take_data: "@ + e,
        ),
        (StageView::TakeData(_), EventView::Done(None)) => at(j, StageView::Seal),
        (StageView::Seal, EventView::Done(Some(e))) => refused(j, "ecdh-rebox: seal: "@ + e),
        (StageView::Seal, EventView::Done(None)) => at(j, StageView::Serialize),
        (StageView::Serialize, EventView::Bytes(Err(e))) => refused(
            j,
            "ecdh-rebox: serialize: "@ + e,
        ),
        (StageView::Serialize, EventView::Bytes(Ok(b))) => at(
            j,
            StageView::Replied(extension_name(ExtensionKind::EcdhRebox), ssh_string(b)),
        ),
        _ => j,
    }
}

impl ReboxJob {
    fn to(self, stage: ReboxStage) -> (r: ReboxJob)
        ensures
            r@ == at(self@, stage@),
    {
        ReboxJob { request: self.request, stage }
    }

    fn refuse(self, words: &str, e: &str) -> (r: ReboxJob)
        ensures
            r@ == refused(self@, words@ + e@),
    {
        let error: AgentError = AgentError::Other(cat2(words, e));
        self.to(ReboxStage::Refused { error })
    }

    /// Begins with the details of a request; one that cannot be read is
    /// refused.
    pub fn new(details: &[u8]) -> (r: Result<ReboxJob, AgentError>)
        ensures
            match rebox_request(details@) {
                Ok((boxed, guid, slot, partner)) => r is Ok && r->Ok_0@ == (JobView {
                    guid,
                    slot,
                    partner,
                    stage: StageView::OpenBox(boxed),
                }),
                Err(e) => r is Err && (r->Err_0)@ == ErrorView::Other(e),
            },
    {
        match parse_rebox_request(details) {
            Err(e) => Err(AgentError::Other(e)),
            Ok(request) => {
                let boxed: Vec<u8> = request.boxed.clone();
                assert(boxed@ =~= request.boxed@);
                Ok(ReboxJob { request, stage: ReboxStage::OpenBox { boxed } })
            },
        }
    }

    /// Takes what came of the step that was to be done.
    pub fn on(self, e: ReboxEvent) -> (r: ReboxJob)
        requires
            fits(self@.stage, e@),
        ensures
            r@ == next(self@, e@),
    {
        let ReboxJob { request, stage } = self;
        let job: ReboxJob = ReboxJob { request, stage: ReboxStage::Seal };
        match (stage, e) {
            (ReboxStage::OpenBox { .. }, ReboxEvent::Info(read)) => match read {
                Err(e) => job.refuse("ecdh-rebox: bad box: ", e.as_str()),
                Ok(info) => job.to(ReboxStage::Plan { info }),
            },
            (ReboxStage::Plan { .. }, ReboxEvent::Planned(planned)) => match planned {
                Err(error) => job.to(ReboxStage::Refused { error }),
                Ok(plan) => job.to(ReboxStage::Derive { plan }),
            },
            (ReboxStage::Derive { .. }, ReboxEvent::Secret(derived)) => match derived {
                Err(error) => job.to(ReboxStage::Refused { error }),
                Ok(secret) => job.to(ReboxStage::Unseal { secret }),
            },
            (ReboxStage::Unseal { .. }, ReboxEvent::Done(done)) => match done {
                Err(e) => job.refuse("ecdh-rebox: decrypt: ", e.as_str()),
                Ok(_) => match extract_ec_point_from_ssh_blob(job.request.partner.as_slice()) {
                    Err(e) => job.to(ReboxStage::Refused { error: AgentError::Other(e) }),
                    Ok(point) => job.to(ReboxStage::PartnerKey { point }),
                },
            },
            (ReboxStage::PartnerKey { .. }, ReboxEvent::Done(done)) => match done {
                Err(e) => job.to(ReboxStage::Refused { error: AgentError::Other(e) }),
                Ok(_) => match rebox_target(&job.request) {
                    Err(error) => job.to(ReboxStage::Refused { error }),
                    Ok(target) => job.to(ReboxStage::TakeData { target }),
                },
            },
            (ReboxStage::TakeData { .. }, ReboxEvent::Done(done)) => match done {
                Err(e) => job.refuse("ecdh-rebox: take_data: ", e.as_str()),
                Ok(_) => job.to(ReboxStage::Seal),
            },
            (ReboxStage::Seal, ReboxEvent::Done(done)) => match done {
                Err(e) => job.refuse("ecdh-rebox: seal: ", e.as_str()),
                Ok(_) => job.to(ReboxStage::Serialize),
            },
            (ReboxStage::Serialize, ReboxEvent::Bytes(made)) => match made {
                Err(e) => job.refuse("ecdh-rebox: serialize: ", e.as_str()),
                Ok(bytes) => {
                    let reply: Extension = string_reply(
                        ExtensionKind::EcdhRebox,
                        bytes.as_slice(),
                    );
                    job.to(ReboxStage::Replied { reply })
                },
            },
            (stage, _) => job.to(stage),
        }
    }
}

/// How many steps may still be ahead.
pub open spec fn ahead(stage: StageView) -> nat {
    match stage {
        StageView::OpenBox(_) => 8,
        StageView::Plan(_) => 7,
        StageView::Derive(_) => 6,
        StageView::Unseal(_) => 5,
        StageView::PartnerKey(_) => 4,
        StageView::TakeData(_) => 3,
        StageView::Seal => 2,
        StageView::Serialize => 1,
        StageView::Replied(_, _) => 0,
        StageView::Refused(_) => 0,
    }
}

/// Every step brings a job nearer to its end, and each step is one further:
/// no stage is left out on the way to a reply.
pub proof fn law_rebox_goes_step_by_step(j: JobView, e: EventView)
    requires
        fits(j.stage, e),
    ensures
        next(j, e).stage is Refused || ahead(next(j, e).stage) == ahead(j.stage) - 1,
{
}

/// The reply holds the new box and nothing else.
pub proof fn law_reply_is_the_new_box(j: JobView, e: EventView)
    requires
        fits(j.stage, e),
        next(j, e).stage is Replied,
    ensures
        j.stage is Serialize,
        e is Bytes,
        e->Bytes_0 is Ok,
        next(j, e).stage->Replied_1 == ssh_string(e->Bytes_0->Ok_0),
{
}

/// The new box names the card and slot of the request, and none where the
/// request leaves the card out.
pub proof fn law_new_box_names_what_was_asked(j: JobView, e: EventView)
    requires
        fits(j.stage, e),
        next(j, e).stage is TakeData,
    ensures
        next(j, e).stage->TakeData_0 == if j.guid.len() == 0 {
            None
        } else {
            Some((j.guid, j.slot))
        },
{
}

} // verus!
