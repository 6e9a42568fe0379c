//! Keeping a node's state in step with the shared document.

use vstd::prelude::*;

use crate::node::announcement::Tag;

verus! {

/// How often a blob that could not be fetched is fetched again.
pub const RETRIES: u32 = 3;

/// How many seconds pass before a blob is fetched again.
pub const RETRY_SECONDS: u64 = 1;

/// What the shared document tells a node.
#[derive(Debug, PartialEq, Eq, Structural, Clone, Copy)]
pub enum DocEvent {
    /// Another node wrote an entry.
    InsertRemote,
    /// Something else happened, or nothing.
    Other,
    /// The stream of events failed.
    Failed,
}

/// What a node does about it.
#[derive(Debug, PartialEq, Eq, Structural, Clone, Copy)]
pub enum DocAction {
    /// Fetch the blob of the entry.
    Fetch,
    /// Wait for the next event.
    Listen,
    /// Stop listening.
    Stop,
}

/// What a node does about an event of the document: an entry of another node is fetched, a
/// failed stream ends the work, and anything else is passed over.
pub fn on_doc_event(event: DocEvent) -> (action: DocAction)
    ensures
        action == DocAction::Fetch <==> event == DocEvent::InsertRemote,
        action == DocAction::Stop <==> event == DocEvent::Failed,
{
    match event {
        DocEvent::InsertRemote => DocAction::Fetch,
        DocEvent::Other => DocAction::Listen,
        DocEvent::Failed => DocAction::Stop,
    }
}

/// What becomes of one attempt to fetch the blob of an entry.
#[derive(Debug, PartialEq, Eq, Structural, Clone, Copy)]
pub enum FetchAction {
    /// Hand the announcement to the node's state.
    Forward,
    /// Leave the announcement alone.
    Ignore,
    /// Wait a moment, then try again.
    Retry,
    /// Leave the entry alone.
    GiveUp,
}

/// What becomes of attempt `attempt`, counted from zero, which fetched an announcement about
/// `fetched` or nothing.
pub open spec fn fetch_action(attempt: nat, fetched: Option<Tag>) -> FetchAction {
    match fetched {
        Some(tag) => if attempt == 0 || tag != Tag::Doc {
            FetchAction::Forward
        } else {
            FetchAction::Ignore
        },
        None => if attempt < RETRIES {
            FetchAction::Retry
        } else {
            FetchAction::GiveUp
        },
    }
}

/// The announcement that reaches the node's state when the attempts from `attempt` on go as in
/// `attempts`.
pub open spec fn forwarded(attempt: nat, attempts: Seq<Option<Tag>>) -> Option<Tag>
    decreases attempts.len(),
{
    if attempts.len() == 0 {
        None
    } else {
        match fetch_action(attempt, attempts.first()) {
            FetchAction::Forward => attempts.first(),
            FetchAction::Ignore => None,
            FetchAction::GiveUp => None,
            FetchAction::Retry => forwarded(attempt + 1, attempts.drop_first()),
        }
    }
}

/// The fetching of one entry's blob.
#[derive(Debug)]
pub struct EntryFetch {
    attempts: u32,
}

impl EntryFetch {
    /// How many attempts failed so far.
    pub closed spec fn failed(self) -> nat {
        self.attempts as nat
    }

    /// Before the first attempt.
    pub fn new() -> (fetch: Self)
        ensures
            fetch.failed() == 0,
    {
        EntryFetch { attempts: 0 }
    }

    /// Takes note of an attempt that fetched an announcement about `fetched`, or nothing, and
    /// says what becomes of it.
    pub fn fetched(&mut self, fetched: Option<Tag>) -> (action: FetchAction)
        ensures
            action == fetch_action(old(self).failed(), fetched),
            final(self).failed() == (if action == FetchAction::Retry {
                old(self).failed() + 1
            } else {
                old(self).failed()
            }),
    {
        match fetched {
            Some(tag) => if self.attempts == 0 || tag != Tag::Doc {
                FetchAction::Forward
            } else {
                FetchAction::Ignore
            },
            None => if self.attempts < RETRIES {
                self.attempts = self.attempts + 1;
                FetchAction::Retry
            } else {
                FetchAction::GiveUp
            },
        }
    }
}

/// A blob that arrives within the retries reaches the node's state, unless it is a document
/// that did not arrive at once.
pub proof fn law_late_blobs_are_forwarded(failures: nat, tag: Tag)
    requires
        failures <= RETRIES,
    ensures
        forwarded(
            0,
            Seq::new(failures, |i: int| None::<Tag>).push(Some(tag)),
        ) == (if failures == 0 || tag != Tag::Doc {
            Some(tag)
        } else {
            None
        }),
{
    lemma_forwarded_after(0, failures, tag);
}

proof fn lemma_forwarded_after(attempt: nat, failures: nat, tag: Tag)
    requires
        attempt + failures <= RETRIES,
    ensures
        forwarded(
            attempt,
            Seq::new(failures, |i: int| None::<Tag>).push(Some(tag)),
        ) == (if attempt + failures == 0 || tag != Tag::Doc {
            Some(tag)
        } else {
            None
        }),
    decreases failures,
{
    let attempts = Seq::new(failures, |i: int| None::<Tag>).push(Some(tag));
    if failures > 0 {
        let rest = Seq::new((failures - 1) as nat, |i: int| None::<Tag>).push(Some(tag));
        assert(attempts.drop_first() =~= rest);
        assert(attempts.first() == None::<Tag>);
        lemma_forwarded_after(attempt + 1, (failures - 1) as nat, tag);
    } else {
        assert(attempts.first() == Some(tag));
    }
}

/// A blob that has not arrived after all retries never reaches the node's state.
pub proof fn law_lost_blobs_are_dropped(attempts: Seq<Option<Tag>>)
    requires
        attempts.len() > RETRIES,
        forall|i: int| 0 <= i <= RETRIES ==> #[trigger] attempts[i] is None,
    ensures
        forwarded(0, attempts) is None,
{
    lemma_dropped_after(0, attempts);
}

proof fn lemma_dropped_after(attempt: nat, attempts: Seq<Option<Tag>>)
    requires
        attempt <= RETRIES,
        attempts.len() > RETRIES - attempt,
        forall|i: int| 0 <= i <= RETRIES - attempt ==> #[trigger] attempts[i] is None,
    ensures
        forwarded(attempt, attempts) is None,
    decreases RETRIES - attempt,
{
    assert(attempts[0] is None);
    if attempt < RETRIES {
        let rest = attempts.drop_first();
        assert forall|i: int| 0 <= i <= RETRIES - (attempt + 1) implies #[trigger] rest[i] is None by {
            assert(rest[i] == attempts[i + 1]);
        }
        lemma_dropped_after(attempt + 1, rest);
    }
}

/// Whether keys that were made for `covered` hints are out of date.
pub open spec fn keys_due(covered: nat, hints: Option<nat>) -> bool {
    match hints {
        Some(n) => n > covered,
        None => false,
    }
}

/// For how many hints the keys are made after these numbers of hints were seen one after the
/// other, if making them never fails.
pub open spec fn covered_after(seen: Seq<nat>) -> nat
    decreases seen.len(),
{
    if seen.len() == 0 {
        0
    } else if keys_due(covered_after(seen.drop_last()), Some(seen.last())) {
        seen.last()
    } else {
        covered_after(seen.drop_last())
    }
}

/// The keys cover the most hints that were ever seen.
pub proof fn law_keys_cover_the_most_hints(seen: Seq<nat>)
    ensures
        forall|i: int| 0 <= i < seen.len() ==> #[trigger] seen[i] <= covered_after(seen),
        covered_after(seen) == 0 || seen.contains(covered_after(seen)),
    decreases seen.len(),
{
    if seen.len() > 0 {
        let before = seen.drop_last();
        law_keys_cover_the_most_hints(before);
        assert forall|i: int| 0 <= i < seen.len() implies #[trigger] seen[i] <= covered_after(
            seen,
        ) by {
            if i < before.len() {
                assert(before[i] == seen[i]);
            }
        }
        if keys_due(covered_after(before), Some(seen.last())) {
            assert(seen[seen.len() - 1] == covered_after(seen));
        } else if covered_after(before) != 0 {
            let i = before.index_of(covered_after(before));
            assert(seen[i] == covered_after(seen));
        }
    }
}

/// The watch over the committee's hints, which renews the committee's keys when a node joins.
#[derive(Debug)]
pub struct KeysUpdater {
    last_hint_count: usize,
}

impl KeysUpdater {
    /// For how many hints the keys were made.
    pub closed spec fn covered(self) -> nat {
        self.last_hint_count as nat
    }

    /// Before any hint.
    pub fn new() -> (updater: Self)
        ensures
            updater.covered() == 0,
    {
        KeysUpdater { last_hint_count: 0 }
    }

    /// Whether the keys have to be made anew; for a state without hints they have not.
    pub fn is_due(&self, hints: Option<usize>) -> (due: bool)
        ensures
            due == keys_due(
                self.covered(),
                match hints {
                    Some(n) => Some(n as nat),
                    None => None,
                },
            ),
    {
        match hints {
            Some(n) => n > self.last_hint_count,
            None => false,
        }
    }

    /// Takes note of the attempt to make the keys for `hints` hints.
    pub fn published(&mut self, hints: usize, succeeded: bool)
        ensures
            final(self).covered() == (if succeeded {
                hints as nat
            } else {
                old(self).covered()
            }),
    {
        if succeeded {
            self.last_hint_count = hints;
        }
    }
}

/// The least number of nodes in a committee with keys.
pub const LEAST_COMMITTEE: usize = 2;

/// The threshold for which the committee's keys are made.
pub const KEYS_THRESHOLD: usize = 1;

/// Whether the committee's keys can be made.
#[derive(Debug, PartialEq, Eq, Structural, Clone, Copy)]
pub enum KeysPlan {
    /// There are too few nodes.
    Nothing,
    /// Make the keys of all hints, for a threshold.
    Generate { threshold: usize },
}

/// Why the committee's keys cannot be made.
#[derive(Debug, PartialEq, Eq, Structural, Clone, Copy)]
pub enum KeysError {
    /// The network's parameters are not known.
    ConfigNotAvailable,
    /// No hints are known.
    HintsNotAvailable,
}

impl KeysError {
    /// What is told.
    pub open spec fn told(self) -> Seq<char> {
        match self {
            KeysError::ConfigNotAvailable => "Config not available"@,
            KeysError::HintsNotAvailable => "Hints not available"@,
        }
    }

    /// What is told.
    pub fn text(&self) -> (text: &'static str)
        ensures
            text@ == self.told(),
    {
        match self {
            KeysError::ConfigNotAvailable => "Config not available",
            KeysError::HintsNotAvailable => "Hints not available",
        }
    }
}

/// Whether the committee's keys can be made, from a state that knows the network's parameters or
/// not, and that knows some number of hints or none.
pub fn plan_system_keys(has_config: bool, hints: Option<usize>) -> (plan: Result<
    KeysPlan,
    KeysError,
>)
    ensures
        plan == (if !has_config {
            Err(KeysError::ConfigNotAvailable)
        } else if hints is None {
            Err(KeysError::HintsNotAvailable)
        } else if hints.unwrap() < LEAST_COMMITTEE {
            Ok(KeysPlan::Nothing)
        } else {
            Ok(KeysPlan::Generate { threshold: KEYS_THRESHOLD })
        }),
{
    if !has_config {
        return Err(KeysError::ConfigNotAvailable);
    }
    match hints {
        None => Err(KeysError::HintsNotAvailable),
        Some(n) => if n < LEAST_COMMITTEE {
            Ok(KeysPlan::Nothing)
        } else {
            Ok(KeysPlan::Generate { threshold: KEYS_THRESHOLD })
        },
    }
}

/// What was fetched reaches the node's state, at once whatever it is about, and after a failure
/// unless it is a document. What could not be fetched is tried again after each of the first
/// three failures, a second later, and left alone after the fourth.
pub proof fn law_what_becomes_of_an_attempt(attempt: nat, tag: Tag)
    ensures
        fetch_action(0, Some(tag)) == FetchAction::Forward,
        tag != Tag::Doc ==> fetch_action(attempt, Some(tag)) == FetchAction::Forward,
        attempt > 0 ==> fetch_action(attempt, Some(Tag::Doc)) == FetchAction::Ignore,
        attempt <= 2 ==> fetch_action(attempt, None) == FetchAction::Retry,
        attempt >= 3 ==> fetch_action(attempt, None) == FetchAction::GiveUp,
        RETRY_SECONDS == 1,
{
}

/// Whatever reaches the node's state is what the first attempt that did not fail brought, among
/// the first four.
pub proof fn law_the_first_blob_counts(attempts: Seq<Option<Tag>>, n: int)
    requires
        0 <= n < attempts.len(),
        attempts[n] is Some,
        forall|i: int| 0 <= i < n ==> #[trigger] attempts[i] is None,
    ensures
        forwarded(0, attempts) == (if n == 0 || (n <= 3 && attempts[n] != Some(Tag::Doc)) {
            attempts[n]
        } else {
            None
        }),
{
    lemma_first_blob(0, attempts, n);
}

proof fn lemma_first_blob(attempt: nat, attempts: Seq<Option<Tag>>, n: int)
    requires
        0 <= n < attempts.len(),
        attempts[n] is Some,
        attempt <= 3,
        forall|i: int| 0 <= i < n ==> #[trigger] attempts[i] is None,
    ensures
        forwarded(attempt, attempts) == (if attempt + n == 0 || (attempt + n <= 3 && attempts[n]
            != Some(Tag::Doc)) {
            attempts[n]
        } else {
            None
        }),
    decreases n,
{
    if n > 0 {
        assert(attempts[0] is None);
        if attempt < 3 {
            let rest = attempts.drop_first();
            assert forall|i: int| 0 <= i < n - 1 implies #[trigger] rest[i] is None by {
                assert(attempts[i + 1] is None);
            }
            lemma_first_blob(attempt + 1, rest, n - 1);
        }
    }
}

/// Keys are made anew exactly where more hints are known than the keys were made for.
pub proof fn law_keys_are_due_when_hints_are_new(covered: nat, hints: nat)
    ensures
        keys_due(covered, Some(hints)) <==> hints > covered,
        !keys_due(covered, None),
        !keys_due(hints, Some(hints)),
        keys_due(hints, Some(hints + 1)),
{
}

/// Keys are made for two nodes and up, for a threshold of one.
pub proof fn law_two_nodes_make_a_committee()
    ensures
        LEAST_COMMITTEE == 2,
        KEYS_THRESHOLD == LEAST_COMMITTEE - 1,
{
}

/// What is missing is told.
pub proof fn law_what_is_missing_is_told(e: KeysError)
    ensures
        e.told() == (if e == KeysError::ConfigNotAvailable {
            "Config not available"@
        } else {
            "Hints not available"@
        }),
{
}

} // verus!
