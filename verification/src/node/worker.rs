//! The work on one decryption request.
//!
//! A node looks up the intent under which a file was encrypted, verifies the witness against
//! it, decrypts its part of the ciphertext, delivers it, and attests to that once the receiver
//! has echoed the delivery. Each of these steps is performed by the caller: [`DecryptionWork`]
//! says which is next, and is told how it went.

use vstd::prelude::*;

use crate::bytes::{bytes_equal, to_vec};
use crate::contract::ink_pool::{DecryptionRequest, RequestView};
use crate::hexadecimal::{decode_hex, hex_bytes};
use crate::message::{message_fits, message_scale, MessageView, PartialDecryptionMessage};
use crate::node::client::ECHO_LIMIT;
use crate::scale::{le_bytes, scale_bytes};

verus! {

/// What the work waits for.
#[derive(Debug)]
pub enum WorkPhase {
    /// The content identifier of the file.
    Intent,
    /// The outcome of verifying the witness; then the content is fetched.
    Verdict { cid: Vec<u8> },
    /// The ciphertext.
    Ciphertext,
    /// The node's part of the decryption.
    PartialDecryption,
    /// The echo of the message that was delivered.
    Echo { message: Vec<u8> },
    /// The attestation on the chain.
    Attestation,
    /// Nothing.
    Finished,
}

/// What the work waits for.
pub enum PhaseView {
    Intent,
    Verdict { cid: Seq<u8> },
    Ciphertext,
    PartialDecryption,
    Echo { message: Seq<u8> },
    Attestation,
    Finished,
}

impl View for WorkPhase {
    type V = PhaseView;

    open spec fn view(&self) -> PhaseView {
        match self {
            WorkPhase::Intent => PhaseView::Intent,
            WorkPhase::Verdict { cid } => PhaseView::Verdict { cid: cid@ },
            WorkPhase::Ciphertext => PhaseView::Ciphertext,
            WorkPhase::PartialDecryption => PhaseView::PartialDecryption,
            WorkPhase::Echo { message } => PhaseView::Echo { message: message@ },
            WorkPhase::Attestation => PhaseView::Attestation,
            WorkPhase::Finished => PhaseView::Finished,
        }
    }
}

/// How a step went.
#[derive(Debug)]
pub enum WorkEvent {
    /// The intent was found, for this content.
    IntentFound { cid: Vec<u8> },
    /// The witness was verified, or verification failed with a text.
    Verified { verdict: Result<bool, String> },
    /// The ciphertext was fetched, or is not available.
    Fetched { ciphertext: Option<Vec<u8>> },
    /// The node decrypted its part.
    Decrypted { partial_decryption: Vec<u8> },
    /// The receiver cannot be reached.
    Unreachable,
    /// The receiver answered the delivery.
    Echoed { response: Vec<u8> },
    /// The attestation is on the chain.
    Attested,
}

/// How a step went.
pub enum EventView {
    IntentFound { cid: Seq<u8> },
    Verified { verdict: Result<bool, Seq<char>> },
    Fetched { ciphertext: Option<Seq<u8>> },
    Decrypted { partial_decryption: Seq<u8> },
    Unreachable,
    Echoed { response: Seq<u8> },
    Attested,
}

impl View for WorkEvent {
    type V = EventView;

    open spec fn view(&self) -> EventView {
        match self {
            WorkEvent::IntentFound { cid } => EventView::IntentFound { cid: cid@ },
            WorkEvent::Verified { verdict } => EventView::Verified {
                verdict: match verdict {
                    Ok(met) => Ok(*met),
                    Err(text) => Err(text@),
                },
            },
            WorkEvent::Fetched { ciphertext } => EventView::Fetched {
                ciphertext: match ciphertext {
                    Some(c) => Some(c@),
                    None => None,
                },
            },
            WorkEvent::Decrypted { partial_decryption } => EventView::Decrypted {
                partial_decryption: partial_decryption@,
            },
            WorkEvent::Unreachable => EventView::Unreachable,
            WorkEvent::Echoed { response } => EventView::Echoed { response: response@ },
            WorkEvent::Attested => EventView::Attested,
        }
    }
}

/// The next step.
#[derive(Debug)]
pub enum WorkAction {
    /// Verify the witness against the intent.
    Verify { witness: Vec<u8> },
    /// Fetch the ciphertext of this content.
    Fetch { cid: Vec<u8> },
    /// Decrypt the node's part of the ciphertext.
    Decrypt { ciphertext: Vec<u8> },
    /// Deliver a message to where the request wants it.
    Deliver { location: Vec<u8>, message: Vec<u8> },
    /// Attest on the chain to the work on a request.
    Attest { id: Vec<u8>, attestation: Vec<u8> },
    /// Close the connection to the receiver.
    Close,
    /// Nothing: the witness does not meet the intent.
    Refuse,
    /// Nothing: verification failed with a text.
    Fail { text: String },
    /// Nothing: the ciphertext is not available.
    Unavailable,
    /// Nothing: the receiver cannot be reached.
    GiveUp,
}

/// The next step.
pub enum ActionView {
    Verify { witness: Seq<u8> },
    Fetch { cid: Seq<u8> },
    Decrypt { ciphertext: Seq<u8> },
    Deliver { location: Seq<u8>, message: Seq<u8> },
    Attest { id: Seq<u8>, attestation: Seq<u8> },
    Close,
    Refuse,
    Fail { text: Seq<char> },
    Unavailable,
    GiveUp,
}

impl View for WorkAction {
    type V = ActionView;

    open spec fn view(&self) -> ActionView {
        match self {
            WorkAction::Verify { witness } => ActionView::Verify { witness: witness@ },
            WorkAction::Fetch { cid } => ActionView::Fetch { cid: cid@ },
            WorkAction::Decrypt { ciphertext } => ActionView::Decrypt { ciphertext: ciphertext@ },
            WorkAction::Deliver { location, message } => ActionView::Deliver {
                location: location@,
                message: message@,
            },
            WorkAction::Attest { id, attestation } => ActionView::Attest {
                id: id@,
                attestation: attestation@,
            },
            WorkAction::Close => ActionView::Close,
            WorkAction::Refuse => ActionView::Refuse,
            WorkAction::Fail { text } => ActionView::Fail { text: text@ },
            WorkAction::Unavailable => ActionView::Unavailable,
            WorkAction::GiveUp => ActionView::GiveUp,
        }
    }
}

/// The work on a request, and how far it has come.
pub struct WorkView {
    pub request: RequestView,
    pub id: Seq<u8>,
    pub index: nat,
    pub witness: Seq<u8>,
    pub phase: PhaseView,
}

impl WorkView {
    /// The work before its first step, by the node at `index`.
    pub open spec fn begun(request: RequestView, id: Seq<u8>, index: nat) -> WorkView {
        WorkView {
            request,
            id,
            index,
            witness: hex_bytes(request.witness_hex).unwrap(),
            phase: PhaseView::Intent,
        }
    }

    /// The message that delivers a partial decryption.
    pub open spec fn message(self, partial_decryption: Seq<u8>) -> MessageView {
        MessageView {
            filename: self.request.filename,
            index: self.index as u32,
            partial_decryption_bytes: partial_decryption,
        }
    }

    /// Whether an event is one that the work waits for. A partial decryption has to fit into a
    /// message, and so has the node's index. Of an echo no more is read than the limit; a longer
    /// one is never received.
    pub open spec fn expects(self, event: EventView) -> bool {
        match (self.phase, event) {
            (PhaseView::Intent, EventView::IntentFound { .. }) => true,
            (PhaseView::Verdict { .. }, EventView::Verified { .. }) => true,
            (PhaseView::Ciphertext, EventView::Fetched { .. }) => true,
            (PhaseView::PartialDecryption, EventView::Decrypted { partial_decryption }) => self.index
                <= u32::MAX && message_fits(self.message(partial_decryption)),
            (PhaseView::Echo { .. }, EventView::Unreachable) => true,
            (PhaseView::Echo { .. }, EventView::Echoed { response }) => response.len()
                <= ECHO_LIMIT,
            (PhaseView::Attestation, EventView::Attested) => true,
            _ => false,
        }
    }

    /// The work in another phase.
    pub open spec fn in_phase(self, phase: PhaseView) -> WorkView {
        WorkView { phase, ..self }
    }

    /// How the work goes on after an event, and with which step.
    pub open spec fn next(self, event: EventView) -> (WorkView, ActionView) {
        match event {
            EventView::IntentFound { cid } => (
                self.in_phase(PhaseView::Verdict { cid }),
                ActionView::Verify { witness: self.witness },
            ),
            EventView::Verified { verdict: Ok(true) } => (
                self.in_phase(PhaseView::Ciphertext),
                ActionView::Fetch { cid: self.phase->cid },
            ),
            EventView::Verified { verdict: Ok(false) } => (
                self.in_phase(PhaseView::Finished),
                ActionView::Refuse,
            ),
            EventView::Verified { verdict: Err(text) } => (
                self.in_phase(PhaseView::Finished),
                ActionView::Fail { text },
            ),
            EventView::Fetched { ciphertext: Some(ciphertext) } => (
                self.in_phase(PhaseView::PartialDecryption),
                ActionView::Decrypt { ciphertext },
            ),
            EventView::Fetched { ciphertext: None } => (
                self.in_phase(PhaseView::Finished),
                ActionView::Unavailable,
            ),
            EventView::Decrypted { partial_decryption } => (
                self.in_phase(
                    PhaseView::Echo { message: message_scale(self.message(partial_decryption)) },
                ),
                ActionView::Deliver {
                    location: self.request.location,
                    message: message_scale(self.message(partial_decryption)),
                },
            ),
            EventView::Unreachable => (self.in_phase(PhaseView::Finished), ActionView::GiveUp),
            EventView::Echoed { response } => if response == self.phase->message {
                (
                    self.in_phase(PhaseView::Attestation),
                    ActionView::Attest { id: self.id, attestation: Seq::empty() },
                )
            } else {
                (self.in_phase(PhaseView::Finished), ActionView::Close)
            },
            EventView::Attested => (self.in_phase(PhaseView::Finished), ActionView::Close),
        }
    }

    /// Whether the work expects each of `events` when it comes.
    pub open spec fn expects_all(self, events: Seq<EventView>) -> bool
        decreases events.len(),
    {
        events.len() == 0 || (self.expects_all(events.drop_last()) && self.after(
            events.drop_last(),
        ).expects(events.last()))
    }

    /// How far the work has come after `events`.
    pub open spec fn after(self, events: Seq<EventView>) -> WorkView
        decreases events.len(),
    {
        if events.len() == 0 {
            self
        } else {
            self.after(events.drop_last()).next(events.last()).0
        }
    }
}

/// The work on a request.
pub struct DecryptionWork {
    request: DecryptionRequest,
    id: Vec<u8>,
    index: usize,
    witness: Vec<u8>,
    phase: WorkPhase,
}

impl View for DecryptionWork {
    type V = WorkView;

    closed spec fn view(&self) -> WorkView {
        WorkView {
            request: self.request@,
            id: self.id@,
            index: self.index as nat,
            witness: self.witness@,
            phase: self.phase@,
        }
    }
}

impl DecryptionWork {
    /// Begins the work on a request, as the node at `index`; the first step is to look up the
    /// intent for the request's file. Where the witness is no hexadecimal text, there is
    /// nothing to begin.
    pub fn begin(request: DecryptionRequest, id: Vec<u8>, index: usize) -> (work: Option<Self>)
        ensures
            match work {
                Some(w) => hex_bytes(request@.witness_hex) is Some && w@ == WorkView::begun(
                    request@,
                    id@,
                    index as nat,
                ),
                None => hex_bytes(request@.witness_hex) is None,
            },
    {
        match decode_hex(request.witness_hex.0.as_slice()) {
            Some(witness) => Some(
                DecryptionWork { request, id, index, witness, phase: WorkPhase::Intent },
            ),
            None => None,
        }
    }

    /// The file whose intent is looked up.
    pub fn filename(&self) -> (filename: Vec<u8>)
        ensures
            filename@ == self@.request.filename,
    {
        to_vec(self.request.filename.0.as_slice())
    }

    /// Takes note of how a step went, and says which is next.
    pub fn step(&mut self, event: WorkEvent) -> (action: WorkAction)
        requires
            old(self)@.expects(event@),
        ensures
            (final(self)@, action@) == old(self)@.next(event@),
    {
        match event {
            WorkEvent::IntentFound { cid } => {
                self.phase = WorkPhase::Verdict { cid };
                WorkAction::Verify { witness: to_vec(self.witness.as_slice()) }
            },
            WorkEvent::Verified { verdict } => match verdict {
                Ok(true) => {
                    let cid = match &self.phase {
                        WorkPhase::Verdict { cid } => to_vec(cid.as_slice()),
                        _ => Vec::new(),
                    };
                    self.phase = WorkPhase::Ciphertext;
                    WorkAction::Fetch { cid }
                },
                Ok(false) => {
                    self.phase = WorkPhase::Finished;
                    WorkAction::Refuse
                },
                Err(text) => {
                    self.phase = WorkPhase::Finished;
                    WorkAction::Fail { text }
                },
            },
            WorkEvent::Fetched { ciphertext } => match ciphertext {
                Some(ciphertext) => {
                    self.phase = WorkPhase::PartialDecryption;
                    WorkAction::Decrypt { ciphertext }
                },
                None => {
                    self.phase = WorkPhase::Finished;
                    WorkAction::Unavailable
                },
            },
            WorkEvent::Decrypted { partial_decryption } => {
                let message = PartialDecryptionMessage {
                    filename: to_vec(self.request.filename.0.as_slice()),
                    index: self.index as u32,
                    partial_decryption_bytes: partial_decryption,
                };
                let bytes = message.encode();
                self.phase = WorkPhase::Echo { message: to_vec(bytes.as_slice()) };
                WorkAction::Deliver {
                    location: to_vec(self.request.location.0.as_slice()),
                    message: bytes,
                }
            },
            WorkEvent::Unreachable => {
                self.phase = WorkPhase::Finished;
                WorkAction::GiveUp
            },
            WorkEvent::Echoed { response } => {
                let same = match &self.phase {
                    WorkPhase::Echo { message } => bytes_equal(
                        response.as_slice(),
                        message.as_slice(),
                    ),
                    _ => false,
                };
                if same {
                    self.phase = WorkPhase::Attestation;
                    let attestation: Vec<u8> = Vec::new();
                    assert(attestation@ =~= Seq::empty());
                    WorkAction::Attest { id: to_vec(self.id.as_slice()), attestation }
                } else {
                    self.phase = WorkPhase::Finished;
                    WorkAction::Close
                }
            },
            WorkEvent::Attested => {
                self.phase = WorkPhase::Finished;
                WorkAction::Close
            },
        }
    }
}

spec fn way(start: WorkView, events: Seq<EventView>) -> bool {
    match start.after(events).phase {
        PhaseView::Intent => events.len() == 0,
        PhaseView::Verdict { cid } => {
            &&& events.len() == 1
            &&& events[0] == EventView::IntentFound { cid }
        },
        PhaseView::Ciphertext => verified(events) && events.len() == 2,
        PhaseView::PartialDecryption => verified(events) && fetched(events) && events.len() == 3,
        PhaseView::Echo { message } => verified(events) && fetched(events) && delivered(
            start,
            events,
            message,
        ) && events.len() == 4,
        PhaseView::Attestation => verified(events) && fetched(events) && events.len() == 5,
        PhaseView::Finished => events.len() > 0,
    }
}

spec fn verified(events: Seq<EventView>) -> bool {
    &&& events.len() >= 2
    &&& events[0] is IntentFound
    &&& events[1] == EventView::Verified { verdict: Ok(true) }
}

spec fn fetched(events: Seq<EventView>) -> bool {
    &&& events.len() >= 3
    &&& events[2] matches EventView::Fetched { ciphertext } && ciphertext is Some
}

spec fn delivered(start: WorkView, events: Seq<EventView>, message: Seq<u8>) -> bool {
    &&& events.len() >= 4
    &&& events[3] matches EventView::Decrypted { partial_decryption } && message == message_scale(
        start.message(partial_decryption),
    )
}

proof fn lemma_way(start: WorkView, events: Seq<EventView>)
    requires
        start.phase is Intent,
        start.expects_all(events),
    ensures
        way(start, events),
        start.after(events) == start.in_phase(start.after(events).phase),
    decreases events.len(),
{
    if events.len() > 0 {
        let before = events.drop_last();
        lemma_way(start, before);
        assert(before =~= events.take(before.len() as int));
    }
}

/// A node attests only to a decryption that it delivered: the witness was verified, the
/// ciphertext was there, and the receiver echoed the very message that holds the node's part of
/// the decryption, which is no longer than what is read of an echo. The attestation names the
/// request and is empty.
pub proof fn law_attests_only_what_was_echoed(
    request: RequestView,
    id: Seq<u8>,
    index: nat,
    events: Seq<EventView>,
    event: EventView,
)
    requires
        WorkView::begun(request, id, index).expects_all(events.push(event)),
        WorkView::begun(request, id, index).after(events).next(event).1 is Attest,
    ensures
        ({
            let start = WorkView::begun(request, id, index);
            &&& start.after(events).next(event).1 == ActionView::Attest {
                id,
                attestation: Seq::empty(),
            }
            &&& events.len() == 4
            &&& events[0] is IntentFound
            &&& events[1] == EventView::Verified { verdict: Ok(true) }
            &&& events[2] matches EventView::Fetched { ciphertext } && ciphertext is Some
            &&& events[3] matches EventView::Decrypted { partial_decryption } && event
                == (EventView::Echoed {
                response: message_scale(start.message(partial_decryption)),
            }) && message_scale(start.message(partial_decryption)).len() <= ECHO_LIMIT
        }),
{
    let start = WorkView::begun(request, id, index);
    assert(events.push(event).drop_last() =~= events);
    lemma_way(start, events);
}

/// A witness that does not meet the intent ends the work: nothing is fetched, decrypted or
/// attested.
pub proof fn law_refused_witness_ends_the_work(
    request: RequestView,
    id: Seq<u8>,
    index: nat,
    events: Seq<EventView>,
)
    requires
        WorkView::begun(request, id, index).expects_all(events),
        exists|i: int|
            0 <= i < events.len() && (#[trigger] events[i] matches EventView::Verified {
                verdict,
            } && verdict != Ok::<bool, Seq<char>>(true)),
    ensures
        events.len() == 2,
        events[0] is IntentFound,
        WorkView::begun(request, id, index).after(events).phase is Finished,
{
    let start = WorkView::begun(request, id, index);
    let i = choose|i: int|
        0 <= i < events.len() && (#[trigger] events[i] matches EventView::Verified { verdict }
            && verdict != Ok::<bool, Seq<char>>(true));
    lemma_prefix(start, events, i + 1);
    let upto = events.take(i + 1);
    assert(upto.drop_last() =~= events.take(i));
    assert(upto.last() == events[i]);
    lemma_way(start, events.take(i));
    assert(start.after(upto).phase is Finished);
    if i + 1 < events.len() {
        lemma_prefix(start, events, i + 2);
        assert(events.take(i + 2).drop_last() =~= upto);
        assert(false);
    }
    assert(upto =~= events);
}

proof fn lemma_prefix(start: WorkView, events: Seq<EventView>, n: int)
    requires
        start.expects_all(events),
        0 <= n <= events.len(),
    ensures
        start.expects_all(events.take(n)),
    decreases events.len(),
{
    if n == events.len() {
        assert(events.take(n) =~= events);
    } else {
        lemma_prefix(start, events.drop_last(), n);
        assert(events.drop_last().take(n) =~= events.take(n));
    }
}

/// A witness that meets the intent, a ciphertext that is there and a receiver that echoes what
/// it received always lead to an attestation, if the message is no longer than what is read of
/// an echo.
pub proof fn law_echoed_delivery_is_attested(
    request: RequestView,
    id: Seq<u8>,
    index: nat,
    cid: Seq<u8>,
    ciphertext: Seq<u8>,
    partial_decryption: Seq<u8>,
)
    requires
        index <= u32::MAX,
        message_fits(
            MessageView {
                filename: request.filename,
                index: index as u32,
                partial_decryption_bytes: partial_decryption,
            },
        ),
        message_scale(
            MessageView {
                filename: request.filename,
                index: index as u32,
                partial_decryption_bytes: partial_decryption,
            },
        ).len() <= ECHO_LIMIT,
    ensures
        ({
            let start = WorkView::begun(request, id, index);
            let message = message_scale(start.message(partial_decryption));
            let events = seq![
                EventView::IntentFound { cid },
                EventView::Verified { verdict: Ok(true) },
                EventView::Fetched { ciphertext: Some(ciphertext) },
                EventView::Decrypted { partial_decryption },
            ];
            &&& start.expects_all(events.push(EventView::Echoed { response: message }))
            &&& start.after(events.take(1)).next(events[1]).1 == ActionView::Fetch { cid }
            &&& start.after(events).next(EventView::Echoed { response: message }).1
                == ActionView::Attest { id, attestation: Seq::empty() }
        }),
{
    let start = WorkView::begun(request, id, index);
    let message = message_scale(start.message(partial_decryption));
    let e0 = EventView::IntentFound { cid };
    let e1 = EventView::Verified { verdict: Ok(true) };
    let e2 = EventView::Fetched { ciphertext: Some(ciphertext) };
    let e3 = EventView::Decrypted { partial_decryption };
    let e4 = EventView::Echoed { response: message };
    let events = seq![e0, e1, e2, e3];
    assert(events.push(e4).drop_last() =~= events);
    assert(events.drop_last() =~= seq![e0, e1, e2]);
    assert(seq![e0, e1, e2].drop_last() =~= seq![e0, e1]);
    assert(seq![e0, e1].drop_last() =~= seq![e0]);
    assert(seq![e0].drop_last() =~= Seq::<EventView>::empty());
    assert(events.take(1) =~= seq![e0]);
    reveal_with_fuel(WorkView::after, 6);
    reveal_with_fuel(WorkView::expects_all, 6);
}

/// Each step carries exactly what it needs: the verification gets the witness that the request
/// spells in hexadecimal, the fetch gets the content of the intent, the decryption gets all
/// fetched bytes, the delivery goes to the request's location with the file, the node's index
/// and the node's part of the decryption, and the attestation names the request. What ends the
/// work ends it for its own reason.
pub proof fn law_each_step_carries_its_inputs(
    request: RequestView,
    id: Seq<u8>,
    index: nat,
    witness: Seq<u8>,
    events: Seq<EventView>,
    event: WorkEvent,
    action: WorkAction,
)
    requires
        hex_bytes(request.witness_hex) == Some(witness),
        WorkView::begun(request, id, index).expects_all(events.push(event@)),
        action@ == WorkView::begun(request, id, index).after(events).next(event@).1,
    ensures
        match event {
            WorkEvent::IntentFound { .. } => action matches WorkAction::Verify { witness: carried }
                && carried@ == witness,
            WorkEvent::Verified { verdict: Ok(true) } => events[0] matches EventView::IntentFound {
                cid,
            } && (action matches WorkAction::Fetch { cid: carried } && carried@ == cid),
            WorkEvent::Verified { verdict: Ok(false) } => action is Refuse,
            WorkEvent::Verified { verdict: Err(why) } => action matches WorkAction::Fail { text }
                && text@ == why@,
            WorkEvent::Fetched { ciphertext: Some(fetched) } => action matches WorkAction::Decrypt {
                ciphertext,
            } && ciphertext@ == fetched@,
            WorkEvent::Fetched { ciphertext: None } => action is Unavailable,
            WorkEvent::Decrypted { partial_decryption } => action matches WorkAction::Deliver {
                location,
                message,
            } && location@ == request.location && message@ == scale_bytes(request.filename)
                + le_bytes(index, 4) + scale_bytes(partial_decryption@),
            WorkEvent::Unreachable => action is GiveUp,
            WorkEvent::Echoed { response } => events[3] matches EventView::Decrypted {
                partial_decryption,
            } && if response@ == scale_bytes(request.filename) + le_bytes(index, 4) + scale_bytes(
                partial_decryption,
            ) {
                action matches WorkAction::Attest { id: named, attestation } && named@ == id
                    && attestation@.len() == 0
            } else {
                action is Close
            },
            WorkEvent::Attested => action is Close,
        },
{
    let start = WorkView::begun(request, id, index);
    assert(events.push(event@).drop_last() =~= events);
    assert(events.push(event@).last() == event@);
    lemma_way(start, events);
    if events.len() > 0 {
        let before = events.drop_last();
        assert(start.expects_all(events));
        assert(start.expects_all(before)) by {
            reveal_with_fuel(WorkView::expects_all, 3);
        }
        lemma_way(start, before);
        assert(start.after(before).expects(events.last()));
    }
}

/// What the work waits for after what has happened: first the intent, after the intent the
/// verdict, after a good verdict the ciphertext, after the ciphertext the partial decryption,
/// after that an answer or none, after a true echo the attestation. After anything else the work
/// is over.
pub proof fn law_the_work_waits_for_the_next_step(
    request: RequestView,
    id: Seq<u8>,
    index: nat,
    events: Seq<EventView>,
    event: EventView,
)
    requires
        WorkView::begun(request, id, index).expects_all(events),
    ensures
        WorkView::begun(request, id, index).expects_all(events.push(event)) == (
        if events.len() == 0 {
            event is IntentFound
        } else {
            match events.last() {
                EventView::IntentFound { .. } => event is Verified,
                EventView::Verified { verdict } => verdict == Ok::<bool, Seq<char>>(true)
                    && event is Fetched,
                EventView::Fetched { ciphertext } => ciphertext is Some && index <= u32::MAX
                    && request.filename.len() <= u32::MAX && (event matches EventView::Decrypted {
                    partial_decryption,
                } && partial_decryption.len() <= u32::MAX),
                EventView::Decrypted { .. } => event is Unreachable || (
                event matches EventView::Echoed { response } && response.len() <= 1000),
                EventView::Unreachable => false,
                EventView::Echoed { response } => event is Attested && (
                events[3] matches EventView::Decrypted { partial_decryption } && response
                    == scale_bytes(request.filename) + le_bytes(index, 4) + scale_bytes(
                    partial_decryption,
                )),
                EventView::Attested => false,
            }
        }),
{
    let start = WorkView::begun(request, id, index);
    assert(events.push(event).drop_last() =~= events);
    assert(events.push(event).last() == event);
    lemma_way(start, events);
    if events.len() > 0 {
        let before = events.drop_last();
        lemma_way(start, before);
        assert(start.expects_all(before));
        assert(start.after(before).expects(events.last()));
        assert(before =~= events.take(before.len() as int));
    }
}

} // verus!
