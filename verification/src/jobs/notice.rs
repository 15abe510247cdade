//! The notice job: one poll of the content provider, told step by step.
//!
//! The job itself touches nothing outside: it says what is to be done next,
//! and is told what came of it.

use vstd::prelude::*;
use vstd::string::*;
use crate::digest::{classify, fingerprint, fingerprint_of, option_text};
use crate::dispatch::{
    categorize, category_of, message_texts, ordinary_message, ordinary_text,
    schedule_change_message, schedule_change_text, Category, MessageText, OutgoingMessage,
};
use crate::digest::ChangeKind;
use crate::jobs::model::{is_fresh, kinds_after, message_text, outbox_after, store_after};
use crate::librus::client::LibrusError;
use crate::librus::handlers::notices::{notice_texts, NoticeText, SchoolNotice};
use crate::mention::{clone_targets, target_texts, MentionTarget, TargetText};
use crate::store::DigestStore;
use crate::BotError;

verus! {

/// Seconds between the end of one poll and the start of the next.
pub const PAUSE_SECONDS: u64 = 240;

/// Where a poll stands.
#[derive(Clone, Copy, Debug, PartialEq, Eq)]
pub enum Phase {
    /// Waiting for the provider's list of announcements.
    Fetching,
    /// Waiting for the stored fingerprint of the current announcement.
    Looking,
    /// Waiting for the store to take the new fingerprint.
    Storing,
    /// Waiting for the targets that can be mentioned.
    Resolving,
    /// Waiting for the gateway to take the message.
    Delivering,
    /// Waiting out the pause.
    Pausing,
    /// Over, with this outcome.
    Finished(Result<(), BotError>),
}

/// What the driver of a poll reports back.
#[derive(Clone, Debug, PartialEq, Eq)]
pub enum CycleEvent {
    Fetched(Vec<SchoolNotice>),
    FetchFailed(LibrusError),
    Found(Option<String>),
    Stored,
    StoreFailed,
    Targets(Vec<MentionTarget>),
    Delivered,
    DeliveryFailed,
    Paused,
}

/// What the driver of a poll is to do next.
#[derive(Debug, PartialEq, Eq)]
pub enum CycleStep {
    /// Ask the provider for its announcements.
    Fetch,
    /// Read the fingerprint stored for `id`.
    Lookup { id: String },
    /// Store `fingerprint` for `id`.
    Store { id: String, fingerprint: String },
    /// Ask the gateway for the targets that can be mentioned.
    FetchTargets,
    /// Send `message`.
    Deliver { message: OutgoingMessage },
    /// Wait.
    Pause { seconds: u64 },
    /// Stop: the poll is over.
    Finish { outcome: Result<(), BotError> },
    /// Nothing: the event reported was not awaited.
    Ignored,
}

/// An event as plain values.
pub enum EventText {
    Fetched(Seq<NoticeText>),
    FetchFailed(LibrusError),
    Found(Option<Seq<char>>),
    Stored,
    StoreFailed,
    Targets(Seq<TargetText>),
    Delivered,
    DeliveryFailed,
    Paused,
}

/// A step as plain values.
pub enum StepText {
    Fetch,
    Lookup { id: Seq<char> },
    Store { id: Seq<char>, fingerprint: Seq<char> },
    FetchTargets,
    Deliver { message: MessageText },
    Pause { seconds: u64 },
    Finish { outcome: Result<(), BotError> },
    Ignored,
}

impl View for CycleEvent {
    type V = EventText;

    open spec fn view(&self) -> EventText {
        match *self {
            CycleEvent::Fetched(notices) => EventText::Fetched(notice_texts(notices@)),
            CycleEvent::FetchFailed(e) => EventText::FetchFailed(e),
            CycleEvent::Found(stored) => EventText::Found(option_text(stored)),
            CycleEvent::Stored => EventText::Stored,
            CycleEvent::StoreFailed => EventText::StoreFailed,
            CycleEvent::Targets(targets) => EventText::Targets(target_texts(targets@)),
            CycleEvent::Delivered => EventText::Delivered,
            CycleEvent::DeliveryFailed => EventText::DeliveryFailed,
            CycleEvent::Paused => EventText::Paused,
        }
    }
}

impl View for CycleStep {
    type V = StepText;

    open spec fn view(&self) -> StepText {
        match *self {
            CycleStep::Fetch => StepText::Fetch,
            CycleStep::Lookup { id } => StepText::Lookup { id: id@ },
            CycleStep::Store { id, fingerprint } => StepText::Store {
                id: id@,
                fingerprint: fingerprint@,
            },
            CycleStep::FetchTargets => StepText::FetchTargets,
            CycleStep::Deliver { message } => StepText::Deliver { message: message@ },
            CycleStep::Pause { seconds } => StepText::Pause { seconds },
            CycleStep::Finish { outcome } => StepText::Finish { outcome },
            CycleStep::Ignored => StepText::Ignored,
        }
    }
}

/// A poll as plain values: the announcements fetched, how many of them are
/// done with, and the phase.
pub struct CycleText {
    pub notices: Seq<NoticeText>,
    pub position: nat,
    pub phase: Phase,
}

/// Whether the phase is one in which an announcement is being worked on.
pub open spec fn at_notice(phase: Phase) -> bool {
    phase is Looking || phase is Storing || phase is Resolving || phase is Delivering
}

/// A poll is well formed where its position lies within the announcements,
/// and on one of them while one is being worked on.
pub open spec fn well_formed(s: CycleText) -> bool {
    &&& s.position <= s.notices.len()
    &&& at_notice(s.phase) ==> s.position < s.notices.len()
}

/// The state and step on turning to announcement `position`: a lookup of its
/// id, or the pause where no announcement is left.
pub open spec fn enter(notices: Seq<NoticeText>, position: nat) -> (CycleText, StepText) {
    if position < notices.len() {
        (
            CycleText { notices, position, phase: Phase::Looking },
            StepText::Lookup { id: notices[position as int].id },
        )
    } else {
        (
            CycleText { notices, position: notices.len(), phase: Phase::Pausing },
            StepText::Pause { seconds: PAUSE_SECONDS },
        )
    }
}

/// The state and step on ending the poll.
pub open spec fn finish(s: CycleText, outcome: Result<(), BotError>) -> (CycleText, StepText) {
    (
        CycleText { notices: s.notices, position: s.position, phase: Phase::Finished(outcome) },
        StepText::Finish { outcome },
    )
}

/// The move that a poll makes on an event: its next state, and the step that
/// its driver is to take.
///
/// The fingerprint is stored before the message is sent, and the message is
/// sent only once the store has confirmed. A failure of the provider or of
/// the store ends the poll; a failure of the gateway ends the work on the
/// current announcement only.
pub open spec fn transition(s: CycleText, e: EventText) -> (CycleText, StepText) {
    let notice = s.notices[s.position as int];
    match s.phase {
        Phase::Fetching => match e {
            EventText::Fetched(notices) => enter(notices, 0),
            EventText::FetchFailed(err) => finish(s, Err(BotError::LibrusError(err))),
            _ => (s, StepText::Ignored),
        },
        Phase::Looking => match e {
            EventText::Found(stored) => if is_fresh(stored, notice) {
                (
                    CycleText { notices: s.notices, position: s.position, phase: Phase::Storing },
                    StepText::Store {
                        id: notice.id,
                        fingerprint: fingerprint_of(notice.content),
                    },
                )
            } else {
                enter(s.notices, s.position + 1)
            },
            EventText::StoreFailed => finish(s, Err(BotError::RedisError)),
            _ => (s, StepText::Ignored),
        },
        Phase::Storing => match e {
            EventText::Stored => match category_of(notice.title) {
                Category::Ordinary => (
                    CycleText {
                        notices: s.notices,
                        position: s.position,
                        phase: Phase::Delivering,
                    },
                    StepText::Deliver { message: ordinary_text(notice) },
                ),
                Category::ScheduleChange => (
                    CycleText { notices: s.notices, position: s.position, phase: Phase::Resolving },
                    StepText::FetchTargets,
                ),
            },
            EventText::StoreFailed => finish(s, Err(BotError::RedisError)),
            _ => (s, StepText::Ignored),
        },
        Phase::Resolving => match e {
            EventText::Targets(targets) => (
                CycleText { notices: s.notices, position: s.position, phase: Phase::Delivering },
                StepText::Deliver { message: schedule_change_text(notice, targets) },
            ),
            EventText::DeliveryFailed => enter(s.notices, s.position + 1),
            _ => (s, StepText::Ignored),
        },
        Phase::Delivering => match e {
            EventText::Delivered => enter(s.notices, s.position + 1),
            EventText::DeliveryFailed => enter(s.notices, s.position + 1),
            _ => (s, StepText::Ignored),
        },
        Phase::Pausing => match e {
            EventText::Paused => finish(s, Ok(())),
            _ => (s, StepText::Ignored),
        },
        Phase::Finished(outcome) => (s, StepText::Finish { outcome }),
    }
}

/// A move keeps a well-formed poll well formed.
pub proof fn lemma_transition_well_formed(s: CycleText, e: EventText)
    requires
        well_formed(s),
    ensures
        well_formed(transition(s, e).0),
{
}

/// A failure of the gateway ends the work on the current announcement and
/// nothing else: the poll turns to the next announcement just as it does
/// after a delivery.
pub proof fn lemma_delivery_failure_is_isolated(s: CycleText)
    requires
        well_formed(s),
        s.phase is Delivering || s.phase is Resolving,
    ensures
        transition(s, EventText::DeliveryFailed) == enter(s.notices, s.position + 1),
        s.phase is Delivering ==> transition(s, EventText::DeliveryFailed) == transition(
            s,
            EventText::Delivered,
        ),
        !(transition(s, EventText::DeliveryFailed).0.phase is Finished),
{
}

/// A failure of the provider ends the poll before any announcement is looked
/// at: the step is to finish with the provider's error, and so is every
/// step after it, whatever is reported.
pub proof fn lemma_fetch_failure_ends_poll(s: CycleText, err: LibrusError, later: EventText)
    requires
        s.phase is Fetching,
    ensures
        transition(s, EventText::FetchFailed(err)) == finish(
            s,
            Err(BotError::LibrusError(err)),
        ),
        transition(transition(s, EventText::FetchFailed(err)).0, later) == (
            transition(s, EventText::FetchFailed(err)).0,
            StepText::Finish { outcome: Err(BotError::LibrusError(err)) },
        ),
{
}

/// A message is sent only for an announcement whose fingerprint the store
/// has confirmed: the step to deliver comes out of the phases that follow
/// the write and out of no other, the write itself is asked for only on
/// finding the announcement fresh, and a failure of the store ends the poll.
pub proof fn lemma_send_follows_store(s: CycleText, e: EventText)
    requires
        well_formed(s),
    ensures
        transition(s, e).1 is Deliver ==> (s.phase is Storing && e is Stored) || (s.phase
            is Resolving && e is Targets),
        transition(s, e).0.phase is Resolving ==> (s.phase is Storing && e is Stored) || s.phase
            is Resolving,
        transition(s, e).1 is Store ==> {
            &&& s.phase is Looking
            &&& e is Found
            &&& is_fresh(e->Found_0, s.notices[s.position as int])
            &&& transition(s, e).1 == (StepText::Store {
                id: s.notices[s.position as int].id,
                fingerprint: fingerprint_of(s.notices[s.position as int].content),
            })
        },
        (s.phase is Looking || s.phase is Storing) && e is StoreFailed ==> transition(s, e)
            == finish(s, Err(BotError::RedisError)),
{
}

/// One poll of the content provider.
#[derive(Clone, Debug)]
pub struct NoticeCycle {
    notices: Vec<SchoolNotice>,
    position: usize,
    phase: Phase,
}

impl View for NoticeCycle {
    type V = CycleText;

    closed spec fn view(&self) -> CycleText {
        CycleText {
            notices: notice_texts(self.notices@),
            position: self.position as nat,
            phase: self.phase,
        }
    }
}

impl NoticeCycle {
    /// Whether the poll is well formed.
    pub open spec fn wf(&self) -> bool {
        well_formed(self@)
    }

    /// A poll that has not begun: its driver is to fetch the announcements.
    pub fn new() -> (out: NoticeCycle)
        ensures
            out.wf(),
            out@ == (CycleText { notices: Seq::empty(), position: 0, phase: Phase::Fetching }),
    {
        let out = NoticeCycle { notices: Vec::new(), position: 0, phase: Phase::Fetching };
        assert(notice_texts(out.notices@) =~= Seq::empty());
        out
    }

    /// The phase that the poll is in.
    pub fn phase(&self) -> (out: Phase)
        ensures
            out == self@.phase,
    {
        self.phase
    }

    /// Turns to announcement `position`.
    fn turn_to(&mut self, position: usize) -> (step: CycleStep)
        requires
            position <= old(self).notices@.len(),
        ensures
            final(self).wf(),
            (final(self)@, step@) == enter(old(self)@.notices, position as nat),
    {
        if position < self.notices.len() {
            self.position = position;
            self.phase = Phase::Looking;
            assert(self@.notices[position as int] == self.notices@[position as int]@);
            CycleStep::Lookup { id: self.notices[position].id.clone() }
        } else {
            self.position = self.notices.len();
            self.phase = Phase::Pausing;
            CycleStep::Pause { seconds: PAUSE_SECONDS }
        }
    }

    /// Ends the poll.
    fn end(&mut self, outcome: Result<(), BotError>) -> (step: CycleStep)
        requires
            old(self).position <= old(self).notices@.len(),
        ensures
            final(self).wf(),
            (final(self)@, step@) == finish(old(self)@, outcome),
    {
        self.phase = Phase::Finished(outcome);
        CycleStep::Finish { outcome }
    }

    /// Takes in what came of the last step and says what is to be done next.
    pub fn step(&mut self, event: CycleEvent) -> (step: CycleStep)
        requires
            old(self).wf(),
        ensures
            final(self).wf(),
            (final(self)@, step@) == transition(old(self)@, event@),
    {
        let ghost before = self@;
        let count = self.notices.len();
        assert(before.notices.len() == count);
        match self.phase {
            Phase::Fetching => match event {
                CycleEvent::Fetched(notices) => {
                    self.notices = notices;
                    self.turn_to(0)
                },
                CycleEvent::FetchFailed(err) => self.end(Err(BotError::LibrusError(err))),
                _ => CycleStep::Ignored,
            },
            Phase::Looking => match event {
                CycleEvent::Found(stored) => {
                    assert(before.notices[before.position as int]
                        == self.notices@[self.position as int]@);
                    let fresh = match fingerprint(self.notices[self.position].content.as_str()) {
                        Some(print) => if classify(&stored, &print).fresh() {
                            Some(print)
                        } else {
                            None
                        },
                        None => None,
                    };
                    match fresh {
                        Some(print) => {
                            self.phase = Phase::Storing;
                            CycleStep::Store {
                                id: self.notices[self.position].id.clone(),
                                fingerprint: print,
                            }
                        },
                        None => {
                            let next = self.position + 1;
                            self.turn_to(next)
                        },
                    }
                },
                CycleEvent::StoreFailed => self.end(Err(BotError::RedisError)),
                _ => CycleStep::Ignored,
            },
            Phase::Storing => match event {
                CycleEvent::Stored => {
                    assert(before.notices[before.position as int]
                        == self.notices@[self.position as int]@);
                    match categorize(self.notices[self.position].title.as_str()) {
                        Category::Ordinary => {
                            self.phase = Phase::Delivering;
                            CycleStep::Deliver {
                                message: ordinary_message(&self.notices[self.position]),
                            }
                        },
                        Category::ScheduleChange => {
                            self.phase = Phase::Resolving;
                            CycleStep::FetchTargets
                        },
                    }
                },
                CycleEvent::StoreFailed => self.end(Err(BotError::RedisError)),
                _ => CycleStep::Ignored,
            },
            Phase::Resolving => match event {
                CycleEvent::Targets(targets) => {
                    assert(before.notices[before.position as int]
                        == self.notices@[self.position as int]@);
                    self.phase = Phase::Delivering;
                    CycleStep::Deliver {
                        message: schedule_change_message(&self.notices[self.position], &targets),
                    }
                },
                CycleEvent::DeliveryFailed => {
                    let next = self.position + 1;
                    self.turn_to(next)
                },
                _ => CycleStep::Ignored,
            },
            Phase::Delivering => match event {
                CycleEvent::Delivered => {
                    let next = self.position + 1;
                    self.turn_to(next)
                },
                CycleEvent::DeliveryFailed => {
                    let next = self.position + 1;
                    self.turn_to(next)
                },
                _ => CycleStep::Ignored,
            },
            Phase::Pausing => match event {
                CycleEvent::Paused => self.end(Ok(())),
                _ => CycleStep::Ignored,
            },
            Phase::Finished(outcome) => CycleStep::Finish { outcome },
        }
    }
}

/// Classifies the announcements against `store`, in their order, and stores
/// the fingerprint of each that is new or changed before it turns to the
/// next. An announcement whose content cannot be digested has no kind and
/// leaves the store as it is.
pub fn detect(store: &mut DigestStore, notices: &Vec<SchoolNotice>) -> (out: Vec<
    Option<ChangeKind>,
>)
    requires
        old(store).wf(),
    ensures
        final(store).wf(),
        out@ == kinds_after(old(store)@, notice_texts(notices@)),
        final(store)@ == store_after(old(store)@, notice_texts(notices@)),
{
    let ghost start = store@;
    let ghost list = notice_texts(notices@);
    let mut out: Vec<Option<ChangeKind>> = Vec::new();
    let mut i: usize = 0;
    proof {
        assert(list.take(0) =~= Seq::<NoticeText>::empty());
    }
    while i < notices.len()
        invariant
            store.wf(),
            list == notice_texts(notices@),
            i <= notices@.len(),
            store@ == store_after(start, list.take(i as int)),
            out@ == kinds_after(start, list.take(i as int)),
        decreases notices@.len() - i,
    {
        proof {
            assert(list.take(i + 1).drop_last() =~= list.take(i as int));
            assert(list.take(i + 1).last() == notices@[i as int]@);
        }
        let notice = &notices[i];
        let kind = match fingerprint(notice.content.as_str()) {
            Some(print) => {
                let kind = classify(&store.get(notice.id.as_str()), &print);
                if kind.fresh() {
                    store.set(notice.id.as_str(), print.as_str());
                }
                Some(kind)
            },
            None => None,
        };
        out.push(kind);
        i += 1;
    }
    proof {
        assert(list.take(notices@.len() as int) =~= list);
    }
    out
}

/// What a poll has done.
#[derive(Debug, PartialEq, Eq)]
pub struct CycleReport {
    /// The messages handed to the gateway, in their order.
    pub outbox: Vec<OutgoingMessage>,
    pub outcome: Result<(), BotError>,
}

/// Runs one poll against `store`: `fetched` is what the provider answered,
/// `targets` what the gateway names as targets whenever it is asked.
///
/// Where the provider failed, the store stays as it was and nothing is sent.
pub fn notice_runner(
    store: &mut DigestStore,
    fetched: Result<Vec<SchoolNotice>, LibrusError>,
    targets: &Vec<MentionTarget>,
) -> (report: CycleReport)
    requires
        old(store).wf(),
    ensures
        final(store).wf(),
        match fetched {
            Ok(notices) => {
                &&& report.outcome == Ok::<(), BotError>(())
                &&& final(store)@ == store_after(old(store)@, notice_texts(notices@))
                &&& message_texts(report.outbox@) == outbox_after(
                    old(store)@,
                    notice_texts(notices@),
                    target_texts(targets@),
                )
            },
            Err(e) => {
                &&& report.outcome == Err::<(), BotError>(BotError::LibrusError(e))
                &&& final(store)@ == old(store)@
                &&& report.outbox@.len() == 0
            },
        },
{
    let ghost start = store@;
    let ghost names = target_texts(targets@);
    let mut cycle = NoticeCycle::new();
    let mut outbox: Vec<OutgoingMessage> = Vec::new();
    let notices = match fetched {
        Ok(notices) => notices,
        Err(e) => {
            let outcome = match cycle.step(CycleEvent::FetchFailed(e)) {
                CycleStep::Finish { outcome } => outcome,
                _ => Ok(()),
            };
            return CycleReport { outbox, outcome };
        },
    };
    let ghost list = notice_texts(notices@);
    let mut step = cycle.step(CycleEvent::Fetched(notices));
    proof {
        assert(list.take(0) =~= Seq::<NoticeText>::empty());
        assert(message_texts(outbox@) =~= Seq::<MessageText>::empty());
    }
    loop
        invariant
            store.wf(),
            cycle.wf(),
            names == target_texts(targets@),
            cycle@.position <= list.len(),
            (cycle@, step@) == enter(list, cycle@.position),
            store@ == store_after(start, list.take(cycle@.position as int)),
            message_texts(outbox@) == outbox_after(start, list.take(cycle@.position as int), names),
        ensures
            cycle@.phase is Pausing,
            cycle@.position == list.len(),
        decreases list.len() - cycle@.position,
    {
        let ghost i = cycle@.position as int;
        let ghost held = store@;
        let ghost sent = message_texts(outbox@);
        let id = match step {
            CycleStep::Lookup { id } => id,
            _ => {
                break ;
            },
        };
        proof {
            assert(list.take(i + 1).drop_last() =~= list.take(i));
            assert(list.take(i + 1).last() == list[i]);
            assert(list.take(i + 1).take(i) =~= list.take(i));
        }
        let stored = store.get(id.as_str());
        let looked = cycle.step(CycleEvent::Found(stored));
        step =
        match looked {
            CycleStep::Store { id, fingerprint } => {
                store.set(id.as_str(), fingerprint.as_str());
                let kept = cycle.step(CycleEvent::Stored);
                let ready = match kept {
                    CycleStep::FetchTargets => cycle.step(
                        CycleEvent::Targets(clone_targets(targets)),
                    ),
                    other => other,
                };
                match ready {
                    CycleStep::Deliver { message } => {
                        outbox.push(message);
                        assert(message_texts(outbox@) =~= sent.push(message_text(list[i], names)));
                        cycle.step(CycleEvent::Delivered)
                    },
                    other => other,
                }
            },
            other => other,
        };
    }
    let outcome = match cycle.step(CycleEvent::Paused) {
        CycleStep::Finish { outcome } => outcome,
        _ => Ok(()),
    };
    assert(list.take(list.len() as int) =~= list);
    CycleReport { outbox, outcome }
}

} // verus!
