//! The decryption of a file by a client.
//!
//! The client asks for the decryption and waits for a partial decryption to arrive. One is
//! enough: it is aggregated, and the plaintext is saved under the name of the file. Each step is
//! performed by the caller: [`DecryptSession`] says which is next, and is told how it went.

use vstd::prelude::*;
use vstd::utf8::{encode_utf8, valid_utf8};

use crate::bytes::to_vec;
use crate::text::{
    law_split_cuts_at_a_separator, law_split_without_separator,
    law_trim_before_split_changes_no_part, split, split_at, trim, trimmed, utf8_text,
};

verus! {

/// The witnesses in a list that is given as text: what stands between the commas, without the
/// white space around it.
pub open spec fn witnesses(text: Seq<char>) -> Seq<Seq<char>> {
    split_at(trimmed(text), ',').map_values(|part: Seq<char>| trimmed(part))
}

/// The witnesses in a list that is given as text.
pub fn parse_witnesses<'a>(text: &'a str) -> (parsed: Vec<&'a str>)
    ensures
        parsed@.map_values(|part: &str| part@) == witnesses(text@),
{
    let parts = split(trim(text), ',');
    let ghost view = |part: &str| part@;
    let ghost given = split_at(trimmed(text@), ',');
    assert(parts@.map_values(view) == given);
    let mut parsed: Vec<&'a str> = Vec::new();
    let mut i: usize = 0;
    while i < parts.len()
        invariant
            i <= parts@.len(),
            parsed@.len() == i,
            given.len() == parts@.len(),
            view == |part: &str| part@,
            given == parts@.map_values(view),
            forall|j: int| 0 <= j < i ==> (#[trigger] parsed@[j])@ == trimmed(given[j]),
        decreases parts@.len() - i,
    {
        assert(given[i as int] == parts@[i as int]@);
        parsed.push(trim(parts[i]));
        i = i + 1;
    }
    assert(parsed@.map_values(view) =~= witnesses(text@));
    parsed
}

/// The positions of the committee whose keys are aggregated: the first, and the one at the
/// threshold.
pub fn aggregated_positions(threshold: usize) -> (positions: Vec<usize>)
    ensures
        positions@ == seq![0usize, threshold],
{
    let mut positions: Vec<usize> = Vec::new();
    positions.push(0);
    positions.push(threshold);
    assert(positions@ =~= seq![0usize, threshold]);
    positions
}

/// How partial decryptions are aggregated.
#[derive(Debug)]
pub struct Aggregation {
    /// How many places there are for partial decryptions.
    pub places: usize,
    /// The place of the one that arrived; the others are left at zero.
    pub place: usize,
    /// Which positions of the committee count.
    pub selector: Vec<bool>,
}

/// How partial decryptions are aggregated.
#[verifier::ext_equal]
pub struct AggregationView {
    pub places: nat,
    pub place: nat,
    pub selector: Seq<bool>,
}

impl View for Aggregation {
    type V = AggregationView;

    open spec fn view(&self) -> AggregationView {
        AggregationView {
            places: self.places as nat,
            place: self.place as nat,
            selector: self.selector@,
        }
    }
}

/// How one partial decryption is aggregated under keys at these positions, in a committee of
/// this size: it takes the place of the first key, and the first position alone counts.
pub open spec fn aggregation_of(positions: Seq<usize>, committee_size: nat) -> AggregationView {
    AggregationView {
        places: positions.len(),
        place: positions[0] as nat,
        selector: Seq::new(committee_size, |i: int| i == 0),
    }
}

/// How one partial decryption is aggregated.
pub fn plan_aggregation(positions: &[usize], committee_size: usize) -> (aggregation: Aggregation)
    requires
        positions@.len() > 0,
        positions@[0] < positions@.len(),
        committee_size > 0,
    ensures
        aggregation@ == aggregation_of(positions@, committee_size as nat),
{
    let mut selector: Vec<bool> = Vec::new();
    let mut i: usize = 0;
    while i < committee_size
        invariant
            i <= committee_size,
            selector@ == Seq::new(i as nat, |j: int| j == 0),
        decreases committee_size - i,
    {
        selector.push(i == 0);
        assert(selector@ =~= Seq::new((i + 1) as nat, |j: int| j == 0));
        i = i + 1;
    }
    Aggregation { places: positions.len(), place: positions[0], selector }
}

/// What the session waits for.
#[derive(Debug)]
pub enum SessionPhase {
    /// A partial decryption.
    Message,
    /// The content identifier of the file.
    Intent { filename: Vec<u8>, partial_decryption: Vec<u8> },
    /// The ciphertext.
    Ciphertext { filename: Vec<u8>, partial_decryption: Vec<u8> },
    /// The plaintext.
    Plaintext { filename: Vec<u8> },
    /// The plaintext on disk.
    Saved,
    /// Nothing.
    Done,
}

/// What the session waits for.
pub enum SessionView {
    Message,
    Intent { filename: Seq<u8>, partial_decryption: Seq<u8> },
    Ciphertext { filename: Seq<u8>, partial_decryption: Seq<u8> },
    Plaintext { filename: Seq<u8> },
    Saved,
    Done,
}

impl View for SessionPhase {
    type V = SessionView;

    open spec fn view(&self) -> SessionView {
        match self {
            SessionPhase::Message => SessionView::Message,
            SessionPhase::Intent { filename, partial_decryption } => SessionView::Intent {
                filename: filename@,
                partial_decryption: partial_decryption@,
            },
            SessionPhase::Ciphertext { filename, partial_decryption } => SessionView::Ciphertext {
                filename: filename@,
                partial_decryption: partial_decryption@,
            },
            SessionPhase::Plaintext { filename } => SessionView::Plaintext { filename: filename@ },
            SessionPhase::Saved => SessionView::Saved,
            SessionPhase::Done => SessionView::Done,
        }
    }
}

/// How a step went.
#[derive(Debug)]
pub enum SessionEvent {
    /// A partial decryption of a file arrived.
    Received { filename: Vec<u8>, partial_decryption: Vec<u8> },
    /// The intent was found, for this content.
    IntentFound { cid: Vec<u8> },
    /// The ciphertext was fetched.
    Fetched { ciphertext: Vec<u8> },
    /// The partial decryption was aggregated.
    Aggregated { plaintext: Vec<u8> },
    /// The plaintext was saved.
    Saved,
}

/// How a step went.
pub enum SessionEventView {
    Received { filename: Seq<u8>, partial_decryption: Seq<u8> },
    IntentFound { cid: Seq<u8> },
    Fetched { ciphertext: Seq<u8> },
    Aggregated { plaintext: Seq<u8> },
    Saved,
}

impl View for SessionEvent {
    type V = SessionEventView;

    open spec fn view(&self) -> SessionEventView {
        match self {
            SessionEvent::Received { filename, partial_decryption } => SessionEventView::Received {
                filename: filename@,
                partial_decryption: partial_decryption@,
            },
            SessionEvent::IntentFound { cid } => SessionEventView::IntentFound { cid: cid@ },
            SessionEvent::Fetched { ciphertext } => SessionEventView::Fetched {
                ciphertext: ciphertext@,
            },
            SessionEvent::Aggregated { plaintext } => SessionEventView::Aggregated {
                plaintext: plaintext@,
            },
            SessionEvent::Saved => SessionEventView::Saved,
        }
    }
}

/// The next step.
#[derive(Debug)]
pub enum SessionAction {
    /// Look up the intent for a file.
    LookUp { filename: Vec<u8> },
    /// Fetch the ciphertext of this content.
    Fetch { cid: Vec<u8> },
    /// Decrypt the ciphertext with the partial decryption.
    Aggregate { ciphertext: Vec<u8>, partial_decryption: Vec<u8> },
    /// Save the plaintext under a name.
    Save { name: String, plaintext: Vec<u8> },
    /// Tell that the decryption is complete.
    Finish,
}

/// The next step; a name is given by its UTF-8 bytes.
pub enum SessionActionView {
    LookUp { filename: Seq<u8> },
    Fetch { cid: Seq<u8> },
    Aggregate { ciphertext: Seq<u8>, partial_decryption: Seq<u8> },
    Save { name: Seq<u8>, plaintext: Seq<u8> },
    Finish,
}

impl View for SessionAction {
    type V = SessionActionView;

    open spec fn view(&self) -> SessionActionView {
        match self {
            SessionAction::LookUp { filename } => SessionActionView::LookUp { filename: filename@ },
            SessionAction::Fetch { cid } => SessionActionView::Fetch { cid: cid@ },
            SessionAction::Aggregate {
                ciphertext,
                partial_decryption,
            } => SessionActionView::Aggregate {
                ciphertext: ciphertext@,
                partial_decryption: partial_decryption@,
            },
            SessionAction::Save { name, plaintext } => SessionActionView::Save {
                name: encode_utf8(name@),
                plaintext: plaintext@,
            },
            SessionAction::Finish => SessionActionView::Finish,
        }
    }
}

impl SessionView {
    /// Whether an event is one that the session waits for. The name of the file has to be text
    /// when the plaintext is there.
    pub open spec fn expects(self, event: SessionEventView) -> bool {
        match (self, event) {
            (SessionView::Message, SessionEventView::Received { .. }) => true,
            (SessionView::Intent { .. }, SessionEventView::IntentFound { .. }) => true,
            (SessionView::Ciphertext { .. }, SessionEventView::Fetched { .. }) => true,
            (
                SessionView::Plaintext { filename },
                SessionEventView::Aggregated { .. },
            ) => valid_utf8(filename),
            (SessionView::Saved, SessionEventView::Saved) => true,
            _ => false,
        }
    }

    /// How the session goes on after an event, and with which step.
    pub open spec fn next(self, event: SessionEventView) -> (SessionView, SessionActionView) {
        match event {
            SessionEventView::Received { filename, partial_decryption } => (
                SessionView::Intent { filename, partial_decryption },
                SessionActionView::LookUp { filename },
            ),
            SessionEventView::IntentFound { cid } => (
                SessionView::Ciphertext {
                    filename: self->Intent_filename,
                    partial_decryption: self->Intent_partial_decryption,
                },
                SessionActionView::Fetch { cid },
            ),
            SessionEventView::Fetched { ciphertext } => (
                SessionView::Plaintext { filename: self->Ciphertext_filename },
                SessionActionView::Aggregate {
                    ciphertext,
                    partial_decryption: self->Ciphertext_partial_decryption,
                },
            ),
            SessionEventView::Aggregated { plaintext } => (
                SessionView::Saved,
                SessionActionView::Save { name: self->Plaintext_filename, plaintext },
            ),
            SessionEventView::Saved => (SessionView::Done, SessionActionView::Finish),
        }
    }

    /// Whether the session expects each of `events` when it comes.
    pub open spec fn expects_all(self, events: Seq<SessionEventView>) -> bool
        decreases events.len(),
    {
        events.len() == 0 || (self.expects_all(events.drop_last()) && self.after(
            events.drop_last(),
        ).expects(events.last()))
    }

    /// How far the session has come after `events`.
    pub open spec fn after(self, events: Seq<SessionEventView>) -> SessionView
        decreases events.len(),
    {
        if events.len() == 0 {
            self
        } else {
            self.after(events.drop_last()).next(events.last()).0
        }
    }
}

/// The collection of one partial decryption, up to the saved plaintext.
pub struct DecryptSession {
    phase: SessionPhase,
}

impl View for DecryptSession {
    type V = SessionView;

    closed spec fn view(&self) -> SessionView {
        self.phase@
    }
}

impl DecryptSession {
    /// The session that follows a request for decryption: one exactly where the request was
    /// accepted.
    pub fn after_request(requested: Result<(), String>) -> (session: Option<Self>)
        ensures
            match session {
                Some(s) => requested is Ok && s@ == SessionView::Message,
                None => requested is Err,
            },
    {
        match requested {
            Ok(()) => Some(Self::new()),
            Err(_) => None,
        }
    }

    /// A session that waits for a partial decryption.
    pub fn new() -> (session: Self)
        ensures
            session@ == SessionView::Message,
    {
        DecryptSession { phase: SessionPhase::Message }
    }

    /// Takes note of how a step went, and says which is next.
    pub fn step(&mut self, event: SessionEvent) -> (action: SessionAction)
        requires
            old(self)@.expects(event@),
        ensures
            (final(self)@, action@) == old(self)@.next(event@),
    {
        match event {
            SessionEvent::Received { filename, partial_decryption } => {
                let looked_up = to_vec(filename.as_slice());
                self.phase = SessionPhase::Intent { filename, partial_decryption };
                SessionAction::LookUp { filename: looked_up }
            },
            SessionEvent::IntentFound { cid } => {
                let (filename, partial_decryption) = match &self.phase {
                    SessionPhase::Intent { filename, partial_decryption } => (
                        to_vec(filename.as_slice()),
                        to_vec(partial_decryption.as_slice()),
                    ),
                    _ => (Vec::new(), Vec::new()),
                };
                self.phase = SessionPhase::Ciphertext { filename, partial_decryption };
                SessionAction::Fetch { cid }
            },
            SessionEvent::Fetched { ciphertext } => {
                let (filename, partial_decryption) = match &self.phase {
                    SessionPhase::Ciphertext { filename, partial_decryption } => (
                        to_vec(filename.as_slice()),
                        to_vec(partial_decryption.as_slice()),
                    ),
                    _ => (Vec::new(), Vec::new()),
                };
                self.phase = SessionPhase::Plaintext { filename };
                SessionAction::Aggregate { ciphertext, partial_decryption }
            },
            SessionEvent::Aggregated { plaintext } => {
                let filename = match &self.phase {
                    SessionPhase::Plaintext { filename } => to_vec(filename.as_slice()),
                    _ => Vec::new(),
                };
                let name = utf8_text(filename.as_slice());
                self.phase = SessionPhase::Saved;
                SessionAction::Save { name, plaintext }
            },
            SessionEvent::Saved => {
                self.phase = SessionPhase::Done;
                SessionAction::Finish
            },
        }
    }
}

spec fn way(events: Seq<SessionEventView>) -> bool {
    match SessionView::Message.after(events) {
        SessionView::Message => events.len() == 0,
        SessionView::Intent { filename, partial_decryption } => events.len() == 1 && events[0] == (
        SessionEventView::Received { filename, partial_decryption }),
        SessionView::Ciphertext { filename, partial_decryption } => events.len() == 2 && events[0]
            == (SessionEventView::Received { filename, partial_decryption }) && events[1] is IntentFound,
        SessionView::Plaintext { filename } => events.len() == 3 && events[0] is Received
            && events[0]->filename == filename && events[1] is IntentFound && events[2] is Fetched,
        SessionView::Saved => events.len() == 4 && events[0] is Received && events[1] is IntentFound
            && events[2] is Fetched && events[3] is Aggregated,
        SessionView::Done => events.len() == 5,
    }
}

proof fn lemma_way(events: Seq<SessionEventView>)
    requires
        SessionView::Message.expects_all(events),
    ensures
        way(events),
    decreases events.len(),
{
    if events.len() > 0 {
        let before = events.drop_last();
        lemma_way(before);
        assert(before =~= events.take(before.len() as int));
    }
}

/// What is saved is the plaintext of the first partial decryption that arrived, under the name
/// that came with it, and a second is never waited for.
pub proof fn law_one_partial_decryption_is_enough(
    events: Seq<SessionEventView>,
    event: SessionEventView,
)
    requires
        SessionView::Message.expects_all(events.push(event)),
        SessionView::Message.after(events).next(event).1 is Save,
    ensures
        events.len() == 3,
        events[0] is Received,
        events[1] is IntentFound,
        events[2] is Fetched,
        event is Aggregated,
        SessionView::Message.after(events).next(event).1 == (SessionActionView::Save {
            name: events[0]->filename,
            plaintext: event->plaintext,
        }),
{
    assert(events.push(event).drop_last() =~= events);
    lemma_way(events);
}

/// The ciphertext that is fetched is decrypted with the partial decryption that arrived.
pub proof fn law_ciphertext_meets_its_partial_decryption(
    filename: Seq<u8>,
    partial_decryption: Seq<u8>,
    cid: Seq<u8>,
    ciphertext: Seq<u8>,
)
    ensures
        ({
            let events = seq![
                SessionEventView::Received { filename, partial_decryption },
                SessionEventView::IntentFound { cid },
                SessionEventView::Fetched { ciphertext },
            ];
            &&& SessionView::Message.expects_all(events)
            &&& SessionView::Message.after(events.take(2)).next(events[2]).1 == (
            SessionActionView::Aggregate { ciphertext, partial_decryption })
        }),
{
    let e0 = SessionEventView::Received { filename, partial_decryption };
    let e1 = SessionEventView::IntentFound { cid };
    let e2 = SessionEventView::Fetched { ciphertext };
    let events = seq![e0, e1, e2];
    assert(events.drop_last() =~= seq![e0, e1]);
    assert(events.take(2) =~= seq![e0, e1]);
    assert(seq![e0, e1].drop_last() =~= seq![e0]);
    assert(seq![e0].drop_last() =~= Seq::<SessionEventView>::empty());
    reveal_with_fuel(SessionView::after, 4);
    reveal_with_fuel(SessionView::expects_all, 4);
}

/// A partial decryption has the place that the first aggregated key has, there is one place for
/// each key, and of the whole committee the first position alone counts. Under the positions that
/// are aggregated, the place is one that counts.
pub proof fn law_aggregation_takes_the_place_of_the_first_key(
    positions: Seq<usize>,
    committee_size: usize,
    aggregation: Aggregation,
)
    requires
        positions.len() > 0,
        positions[0] < positions.len(),
        committee_size > 0,
        aggregation@ == aggregation_of(positions, committee_size as nat),
    ensures
        aggregation.place == positions[0],
        aggregation.places == positions.len(),
        aggregation.place < aggregation.places,
        aggregation.selector@.len() == committee_size,
        aggregation.selector@[0],
        forall|i: int| 0 < i < committee_size ==> !#[trigger] aggregation.selector@[i],
        positions[0] == 0 ==> aggregation.selector@[aggregation.place as int],
        forall|threshold: usize|
            positions == #[trigger] seq![0usize, threshold] ==> aggregation.place == 0
                && aggregation.places == 2,
{
    assert(aggregation.selector@ == aggregation_of(positions, committee_size as nat).selector);
}

/// Which aggregation is made depends on the committee only by how long the selector is, and on
/// the keys only by how many there are and where the first one stands.
pub proof fn law_aggregation_needs_the_first_key_alone(
    positions: Seq<usize>,
    others: Seq<usize>,
    committee_size: nat,
)
    requires
        positions.len() > 0,
        positions.len() == others.len(),
        positions[0] == others[0],
    ensures
        aggregation_of(positions, committee_size) == aggregation_of(others, committee_size),
{
}

/// In every session, each step is given exactly what the steps before it brought: the name of the
/// file that arrived is looked up, the content that was found is fetched, the whole ciphertext is
/// decrypted with the whole partial decryption that arrived, and the whole plaintext is saved
/// under that name.
pub proof fn law_each_step_carries_its_inputs(
    events: Seq<SessionEventView>,
    event: SessionEvent,
    action: SessionAction,
)
    requires
        SessionView::Message.expects_all(events.push(event@)),
        action@ == SessionView::Message.after(events).next(event@).1,
    ensures
        match event {
            SessionEvent::Received { filename, partial_decryption } => {
                &&& events.len() == 0
                &&& action is LookUp
                &&& action->LookUp_filename@ == filename@
            },
            SessionEvent::IntentFound { cid } => {
                &&& events.len() == 1
                &&& events[0] is Received
                &&& action is Fetch
                &&& action->cid@ == cid@
            },
            SessionEvent::Fetched { ciphertext } => {
                &&& events.len() == 2
                &&& events[0] is Received
                &&& action is Aggregate
                &&& action->ciphertext@ == ciphertext@
                &&& action->partial_decryption@ == events[0]->partial_decryption
            },
            SessionEvent::Aggregated { plaintext } => {
                &&& events.len() == 3
                &&& events[0] is Received
                &&& action is Save
                &&& encode_utf8(action->name@) == events[0]->filename
                &&& action->plaintext@ == plaintext@
            },
            SessionEvent::Saved => {
                &&& events.len() == 4
                &&& action is Finish
            },
        },
{
    assert(events.push(event@).drop_last() =~= events);
    assert(SessionView::Message.expects_all(events));
    lemma_way(events);
}

/// A session that has come some way takes the next event of the five, whatever that event holds,
/// and no other. The one thing asked of what arrived is that the name of the file is text when
/// the plaintext is there.
pub proof fn law_the_session_waits_for_the_next_step(
    events: Seq<SessionEventView>,
    event: SessionEventView,
)
    requires
        SessionView::Message.expects_all(events),
    ensures
        events.len() <= 5,
        SessionView::Message.expects_all(events.push(event)) == match event {
            SessionEventView::Received { .. } => events.len() == 0,
            SessionEventView::IntentFound { .. } => events.len() == 1,
            SessionEventView::Fetched { .. } => events.len() == 2,
            SessionEventView::Aggregated { .. } => events.len() == 3 && valid_utf8(
                events[0]->filename,
            ),
            SessionEventView::Saved => events.len() == 4,
        },
{
    assert(events.push(event).drop_last() =~= events);
    lemma_way(events);
}

/// A list without a comma is one witness, the whole text without the white space around it, and
/// a comma parts a list in two, each with all of its own witnesses.
pub proof fn law_commas_part_witnesses(first: Seq<char>, second: Seq<char>)
    ensures
        !first.contains(',') ==> witnesses(first) == seq![trimmed(first)],
        witnesses(first.push(',') + second) == witnesses(first) + witnesses(second),
{
    let list = first.push(',') + second;
    law_trim_before_split_changes_no_part(first, ',');
    law_trim_before_split_changes_no_part(second, ',');
    law_trim_before_split_changes_no_part(list, ',');
    law_split_cuts_at_a_separator(first, second, ',');
    if !first.contains(',') {
        law_split_without_separator(first, ',');
        assert(trimmed(split_at(trimmed(first), ',')[0]) == trimmed(first));
        assert(witnesses(first) =~= seq![trimmed(first)]);
    }
    assert forall|i: int| 0 <= i < witnesses(list).len() implies #[trigger] witnesses(list)[i] == (
    witnesses(first) + witnesses(second))[i] by {
        assert(witnesses(list)[i] == trimmed(split_at(trimmed(list), ',')[i]));
        let n = witnesses(first).len();
        if i < n {
            assert(witnesses(first)[i] == trimmed(split_at(trimmed(first), ',')[i]));
        } else {
            assert(witnesses(second)[i - n] == trimmed(split_at(trimmed(second), ',')[i - n]));
        }
    }
    assert(witnesses(list) =~= witnesses(first) + witnesses(second));
}

} // verus!
