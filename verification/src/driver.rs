//! The transcription driver: for one blob, what to do next after each thing that
//! happened (an attempt ended, the ledger answered, a wait is over), and at start, in
//! which order the blobs that the ledger still holds are taken up again.
//!
//! The driver does no work itself. It hands out one action at a time; whoever runs it
//! performs the action and reports what came of it as the next event.

use crate::ledger::{entry_views, BlobEntry, DbFailedAudioTranscription, LedgerEntry};
use vstd::prelude::*;
use vstd::string::*;

verus! {

/// Failed attempts after which a blob is given up.
pub const MAX_RETRIES: i32 = 3;

/// Seconds between a failed attempt and the next try. The delay is flat: it does not
/// grow with the number of failures.
pub const RETRY_DELAY_SECS: u64 = 60;

/// Seconds between two blobs that are taken up again at start.
pub const RESUME_PACING_SECS: u64 = 60;

/// Where the work on one blob stands. Times are seconds since the epoch.
#[derive(Debug, Clone, Copy, PartialEq, Eq, Structural)]
pub enum Phase {
    /// Nothing has been done yet.
    Pending,
    /// The ledger has been asked how many failures the entry has counted.
    CheckingBudget,
    /// A transcription attempt is running.
    Attempting,
    /// The attempt failed at `failed_at`; the ledger has been asked to enter the blob.
    Inserting { failed_at: i64 },
    /// The attempt failed at `failed_at`; the ledger has been asked to count the failure.
    Counting { failed_at: i64 },
    /// The failure at `failed_at` is counted; the next try is not yet due.
    Waiting { failed_at: i64 },
    /// The text is saved; the ledger has been asked to drop the entry.
    Clearing,
    /// The retry budget is used up; the ledger has been asked to drop the entry.
    Abandoning,
    /// The blob has its text. Final.
    Succeeded,
    /// The blob was given up and will get no text. Final.
    Abandoned,
    /// The entry was gone from the ledger when the next try was due. Final.
    Stopped,
    /// The ledger failed; what was in progress is lost until the next start. Final.
    Lost,
}

/// What happened outside since the last action.
#[derive(Debug, Clone, Copy, PartialEq, Eq, Structural)]
pub enum Event {
    /// The work on the blob is to begin.
    Start,
    /// The ledger answered: the failures that the entry has counted, or no such entry.
    Retries { count: Option<i32> },
    /// The attempt produced a text and the text is saved.
    AttemptSucceeded,
    /// The attempt failed, at the time `at`.
    AttemptFailed { at: i64 },
    /// The ledger entered the blob under `entry_id`.
    Inserted { entry_id: i32 },
    /// The ledger counted the failure; the entry now stands at `retries`.
    Counted { retries: i32 },
    /// The ledger dropped the entry.
    Deleted,
    /// The wait is over; it is now `now`.
    Woke { now: i64 },
    /// The ledger could not carry out what it was asked.
    LedgerFailed,
}

/// What is to be done outside next.
#[derive(Debug, Clone, Copy, PartialEq, Eq, Structural)]
pub enum Action {
    /// Ask the ledger how many failures the entry has counted.
    ReadRetries { entry_id: i32 },
    /// Read the blob, transcribe it in the job's language and save the text.
    Attempt { audio_id: i32 },
    /// Enter the blob in the ledger, with the job's language.
    InsertEntry { audio_id: i32 },
    /// Count one more failure for the entry.
    CountFailure { entry_id: i32 },
    /// Drop the entry from the ledger.
    DeleteEntry { entry_id: i32 },
    /// Wait for `secs` seconds, then report the time.
    Sleep { secs: u64 },
    /// The work on the blob has ended in the phase given.
    Finish { phase: Phase },
    /// The event does not belong to what is in progress: do nothing.
    Ignore,
}

/// The work on one blob, as plain values.
pub struct JobView {
    pub audio_id: i32,
    pub language: Seq<char>,
    pub entry_id: Option<i32>,
    pub phase: Phase,
}

/// Whether a phase is final: no event leads out of it.
pub open spec fn is_final(phase: Phase) -> bool {
    phase is Succeeded || phase is Abandoned || phase is Stopped || phase is Lost
}

/// Whether the next try after a failure at `failed_at` is due at the time `now`.
pub open spec fn retry_due(failed_at: i64, now: i64) -> bool {
    now - failed_at >= RETRY_DELAY_SECS
}

/// Seconds still to wait at `now` for the next try after a failure at `failed_at`.
pub open spec fn remaining_wait(failed_at: i64, now: i64) -> u64 {
    if failed_at + RETRY_DELAY_SECS - now > u64::MAX {
        u64::MAX
    } else {
        (failed_at + RETRY_DELAY_SECS - now) as u64
    }
}

/// The phase that follows, and the action to take, when `event` reaches a job.
pub open spec fn next(job: JobView, event: Event) -> (JobView, Action) {
    match (job.phase, event, job.entry_id) {
        (Phase::Pending, Event::Start, None) => (
            JobView { phase: Phase::Attempting, ..job },
            Action::Attempt { audio_id: job.audio_id },
        ),
        (Phase::Pending, Event::Start, Some(entry_id)) => (
            JobView { phase: Phase::CheckingBudget, ..job },
            Action::ReadRetries { entry_id },
        ),
        (Phase::CheckingBudget, Event::Retries { count: Some(count) }, Some(entry_id)) => if count
            >= MAX_RETRIES {
            (JobView { phase: Phase::Abandoning, ..job }, Action::DeleteEntry { entry_id })
        } else {
            (JobView { phase: Phase::Attempting, ..job }, Action::Attempt { audio_id: job.audio_id })
        },
        (Phase::CheckingBudget, Event::Retries { count: None }, _) => (
            JobView { phase: Phase::Stopped, ..job },
            Action::Finish { phase: Phase::Stopped },
        ),
        (Phase::Attempting, Event::AttemptSucceeded, None) => (
            JobView { phase: Phase::Succeeded, ..job },
            Action::Finish { phase: Phase::Succeeded },
        ),
        (Phase::Attempting, Event::AttemptSucceeded, Some(entry_id)) => (
            JobView { phase: Phase::Clearing, ..job },
            Action::DeleteEntry { entry_id },
        ),
        (Phase::Attempting, Event::AttemptFailed { at }, None) => (
            JobView { phase: Phase::Inserting { failed_at: at }, ..job },
            Action::InsertEntry { audio_id: job.audio_id },
        ),
        (Phase::Attempting, Event::AttemptFailed { at }, Some(entry_id)) => (
            JobView { phase: Phase::Counting { failed_at: at }, ..job },
            Action::CountFailure { entry_id },
        ),
        (Phase::Inserting { failed_at }, Event::Inserted { entry_id }, _) => (
            JobView { phase: Phase::Counting { failed_at }, entry_id: Some(entry_id), ..job },
            Action::CountFailure { entry_id },
        ),
        (Phase::Counting { failed_at }, Event::Counted { retries }, Some(entry_id)) => if retries
            >= MAX_RETRIES {
            (JobView { phase: Phase::Abandoning, ..job }, Action::DeleteEntry { entry_id })
        } else {
            (
                JobView { phase: Phase::Waiting { failed_at }, ..job },
                Action::Sleep { secs: RETRY_DELAY_SECS },
            )
        },
        (Phase::Waiting { failed_at }, Event::Woke { now }, Some(entry_id)) => if retry_due(
            failed_at,
            now,
        ) {
            (JobView { phase: Phase::CheckingBudget, ..job }, Action::ReadRetries { entry_id })
        } else {
            (job, Action::Sleep { secs: remaining_wait(failed_at, now) })
        },
        (Phase::Clearing, Event::Deleted, _) => (
            JobView { phase: Phase::Succeeded, ..job },
            Action::Finish { phase: Phase::Succeeded },
        ),
        (Phase::Abandoning, Event::Deleted, _) => (
            JobView { phase: Phase::Abandoned, ..job },
            Action::Finish { phase: Phase::Abandoned },
        ),
        (Phase::CheckingBudget, Event::LedgerFailed, _)
        | (Phase::Inserting { .. }, Event::LedgerFailed, _)
        | (Phase::Counting { .. }, Event::LedgerFailed, _)
        | (Phase::Clearing, Event::LedgerFailed, _)
        | (Phase::Abandoning, Event::LedgerFailed, _) => (
            JobView { phase: Phase::Lost, ..job },
            Action::Finish { phase: Phase::Lost },
        ),
        _ => (job, Action::Ignore),
    }
}

/// The work on one blob.
#[derive(Debug)]
pub struct Job {
    audio_id: i32,
    language: String,
    entry_id: Option<i32>,
    phase: Phase,
}

impl View for Job {
    type V = JobView;

    closed spec fn view(&self) -> JobView {
        JobView {
            audio_id: self.audio_id,
            language: self.language@,
            entry_id: self.entry_id,
            phase: self.phase,
        }
    }
}

/// Seconds to wait after a failure that brought the entry to `retries` failures: the
/// same delay whatever the count.
pub fn retry_delay(retries: i32) -> (secs: u64)
    ensures
        secs == RETRY_DELAY_SECS,
{
    RETRY_DELAY_SECS
}

impl Job {
    /// The job for a blob that was just uploaded: it has no ledger entry and nothing
    /// has been tried.
    pub fn new(audio_id: i32, language: &str) -> (job: Job)
        ensures
            job@ == (JobView { audio_id, language: language@, entry_id: None, phase: Phase::Pending }),
    {
        Job { audio_id, language: String::from_str(language), entry_id: None, phase: Phase::Pending }
    }

    /// The job that takes up again the blob of a ledger entry: it goes on from the count
    /// that the ledger holds, and starts by asking for it.
    pub fn resume(entry: &DbFailedAudioTranscription) -> (job: Job)
        ensures
            job@ == (JobView {
                audio_id: entry.audio_id,
                language: entry@.language,
                entry_id: Some(entry.id),
                phase: Phase::Pending,
            }),
    {
        Job {
            audio_id: entry.audio_id,
            language: entry.language.clone(),
            entry_id: Some(entry.id),
            phase: Phase::Pending,
        }
    }

    /// The blob that the job works on.
    pub fn audio_id(&self) -> (audio_id: i32)
        ensures
            audio_id == self@.audio_id,
    {
        self.audio_id
    }

    /// The language in which the blob is to be transcribed.
    pub fn language(&self) -> (language: &str)
        ensures
            language@ == self@.language,
    {
        self.language.as_str()
    }

    /// The ledger entry of the blob, once it has one.
    pub fn entry_id(&self) -> (entry_id: Option<i32>)
        ensures
            entry_id == self@.entry_id,
    {
        self.entry_id
    }

    /// Where the work stands.
    pub fn phase(&self) -> (phase: Phase)
        ensures
            phase == self@.phase,
    {
        self.phase
    }

    /// Whether the work has ended.
    pub fn is_finished(&self) -> (finished: bool)
        ensures
            finished == is_final(self@.phase),
    {
        match self.phase {
            Phase::Succeeded | Phase::Abandoned | Phase::Stopped | Phase::Lost => true,
            _ => false,
        }
    }

    /// Takes in what happened and says what to do next.
    pub fn step(&mut self, event: Event) -> (action: Action)
        ensures
            (final(self)@, action) == next(old(self)@, event),
    {
        match (self.phase, event, self.entry_id) {
            (Phase::Pending, Event::Start, None) => {
                self.phase = Phase::Attempting;
                Action::Attempt { audio_id: self.audio_id }
            },
            (Phase::Pending, Event::Start, Some(entry_id)) => {
                self.phase = Phase::CheckingBudget;
                Action::ReadRetries { entry_id }
            },
            (Phase::CheckingBudget, Event::Retries { count: Some(count) }, Some(entry_id)) => {
                if count >= MAX_RETRIES {
                    self.phase = Phase::Abandoning;
                    Action::DeleteEntry { entry_id }
                } else {
                    self.phase = Phase::Attempting;
                    Action::Attempt { audio_id: self.audio_id }
                }
            },
            (Phase::CheckingBudget, Event::Retries { count: None }, _) => {
                self.phase = Phase::Stopped;
                Action::Finish { phase: Phase::Stopped }
            },
            (Phase::Attempting, Event::AttemptSucceeded, None) => {
                self.phase = Phase::Succeeded;
                Action::Finish { phase: Phase::Succeeded }
            },
            (Phase::Attempting, Event::AttemptSucceeded, Some(entry_id)) => {
                self.phase = Phase::Clearing;
                Action::DeleteEntry { entry_id }
            },
            (Phase::Attempting, Event::AttemptFailed { at }, None) => {
                self.phase = Phase::Inserting { failed_at: at };
                Action::InsertEntry { audio_id: self.audio_id }
            },
            (Phase::Attempting, Event::AttemptFailed { at }, Some(entry_id)) => {
                self.phase = Phase::Counting { failed_at: at };
                Action::CountFailure { entry_id }
            },
            (Phase::Inserting { failed_at }, Event::Inserted { entry_id }, _) => {
                self.phase = Phase::Counting { failed_at };
                self.entry_id = Some(entry_id);
                Action::CountFailure { entry_id }
            },
            (Phase::Counting { failed_at }, Event::Counted { retries }, Some(entry_id)) => {
                if retries >= MAX_RETRIES {
                    self.phase = Phase::Abandoning;
                    Action::DeleteEntry { entry_id }
                } else {
                    self.phase = Phase::Waiting { failed_at };
                    Action::Sleep { secs: retry_delay(retries) }
                }
            },
            (Phase::Waiting { failed_at }, Event::Woke { now }, Some(entry_id)) => {
                let due: i128 = failed_at as i128 + RETRY_DELAY_SECS as i128;
                if now as i128 >= due {
                    self.phase = Phase::CheckingBudget;
                    Action::ReadRetries { entry_id }
                } else {
                    let left: i128 = due - now as i128;
                    let secs: u64 = if left > u64::MAX as i128 {
                        u64::MAX
                    } else {
                        left as u64
                    };
                    Action::Sleep { secs }
                }
            },
            (Phase::Clearing, Event::Deleted, _) => {
                self.phase = Phase::Succeeded;
                Action::Finish { phase: Phase::Succeeded }
            },
            (Phase::Abandoning, Event::Deleted, _) => {
                self.phase = Phase::Abandoned;
                Action::Finish { phase: Phase::Abandoned }
            },
            (Phase::CheckingBudget, Event::LedgerFailed, _)
            | (Phase::Inserting { .. }, Event::LedgerFailed, _)
            | (Phase::Counting { .. }, Event::LedgerFailed, _)
            | (Phase::Clearing, Event::LedgerFailed, _)
            | (Phase::Abandoning, Event::LedgerFailed, _) => {
                self.phase = Phase::Lost;
                Action::Finish { phase: Phase::Lost }
            },
            _ => Action::Ignore,
        }
    }
}

/// The job after it has taken in `events`, one after the other.
pub open spec fn run(job: JobView, events: Seq<Event>) -> JobView
    decreases events.len(),
{
    if events.len() == 0 {
        job
    } else {
        run(next(job, events[0]).0, events.drop_first())
    }
}

/// The action that the job hands out for the event at `index`, after it has taken in
/// the events before it.
pub open spec fn action_at(job: JobView, events: Seq<Event>, index: int) -> Action {
    next(run(job, events.take(index)), events[index]).1
}

/// Whether an attempt is running: 1 if so, else 0.
pub open spec fn in_flight(job: JobView) -> nat {
    if job.phase is Attempting {
        1
    } else {
        0
    }
}

/// How many attempts the job starts while it takes in `events`.
pub open spec fn attempts_started(job: JobView, events: Seq<Event>) -> nat
    decreases events.len(),
{
    if events.len() == 0 {
        0
    } else {
        let step = next(job, events[0]);
        let started: nat = if step.1 is Attempt {
            1
        } else {
            0
        };
        started + attempts_started(step.0, events.drop_first())
    }
}

/// How many attempts of the job come to their end while it takes in `events`.
pub open spec fn attempts_ended(job: JobView, events: Seq<Event>) -> nat
    decreases events.len(),
{
    if events.len() == 0 {
        0
    } else {
        let step = next(job, events[0]);
        let ended: nat = if job.phase is Attempting && !(step.0.phase is Attempting) {
            1
        } else {
            0
        };
        ended + attempts_ended(step.0, events.drop_first())
    }
}

/// Whether the work can no longer lead to an attempt: it has ended, or only the
/// ledger's last answer is awaited.
pub open spec fn is_settled(phase: Phase) -> bool {
    is_final(phase) || phase is Clearing || phase is Abandoning
}

/// An attempt ends only by its own outcome, and a new one starts only when none runs.
pub proof fn lemma_attempt_step(job: JobView, event: Event)
    ensures
        next(job, event).1 is Attempt <==> !(job.phase is Attempting) && next(
            job,
            event,
        ).0.phase is Attempting,
        job.phase is Attempting && !(next(job, event).0.phase is Attempting) ==> event
            is AttemptSucceeded || event is AttemptFailed,
        next(job, event).0.audio_id == job.audio_id,
        next(job, event).0.language == job.language,
{
}

/// For one blob at most one attempt is in flight, at any time and whatever happens:
/// the attempts started so far are the attempts ended so far, and one more exactly
/// while an attempt is running.
pub proof fn lemma_one_attempt_in_flight(job: JobView, events: Seq<Event>)
    ensures
        attempts_started(job, events) + in_flight(job) == attempts_ended(job, events) + in_flight(
            run(job, events),
        ),
    decreases events.len(),
{
    if events.len() > 0 {
        lemma_attempt_step(job, events[0]);
        lemma_one_attempt_in_flight(next(job, events[0]).0, events.drop_first());
    }
}

/// Taking in the first event and then the rest is taking in all events.
proof fn lemma_action_at_shift(job: JobView, events: Seq<Event>, index: int)
    requires
        0 < index < events.len(),
    ensures
        action_at(job, events, index) == action_at(
            next(job, events[0]).0,
            events.drop_first(),
            index - 1,
        ),
{
    assert(events.take(index).drop_first() =~= events.drop_first().take(index - 1));
    assert(events.take(index)[0] == events[0]);
}

/// Once the work on a blob is settled, no attempt is ever started for it again.
pub proof fn lemma_settled_never_attempts(job: JobView, events: Seq<Event>, index: int)
    requires
        is_settled(job.phase),
        0 <= index < events.len(),
    ensures
        !(action_at(job, events, index) is Attempt),
        is_settled(run(job, events).phase),
    decreases events.len(),
{
    lemma_settled_run(job, events);
    if index == 0 {
        assert(events.take(0) =~= Seq::<Event>::empty());
    } else {
        lemma_action_at_shift(job, events, index);
        lemma_settled_never_attempts(next(job, events[0]).0, events.drop_first(), index - 1);
    }
}

/// Settled work stays settled.
proof fn lemma_settled_run(job: JobView, events: Seq<Event>)
    requires
        is_settled(job.phase),
    ensures
        is_settled(run(job, events).phase),
    decreases events.len(),
{
    if events.len() > 0 {
        lemma_settled_run(next(job, events[0]).0, events.drop_first());
    }
}

/// A blob gets its text at most once: after an attempt has succeeded, no attempt is
/// started for the blob again, whatever happens.
pub proof fn lemma_transcribed_once(job: JobView, events: Seq<Event>, index: int)
    requires
        job.phase is Attempting,
        0 <= index < events.len(),
    ensures
        is_settled(next(job, Event::AttemptSucceeded).0.phase),
        !(action_at(next(job, Event::AttemptSucceeded).0, events, index) is Attempt),
{
    lemma_settled_never_attempts(next(job, Event::AttemptSucceeded).0, events, index);
}

/// The failure after which the next try is awaited, if the job is in such a phase.
pub open spec fn awaited_failure(phase: Phase) -> Option<i64> {
    match phase {
        Phase::Inserting { failed_at } => Some(failed_at),
        Phase::Counting { failed_at } => Some(failed_at),
        Phase::Waiting { failed_at } => Some(failed_at),
        _ => None,
    }
}

/// Whether `event` is a wake at a time that lies at least `RETRY_DELAY_SECS` after
/// `failed_at`.
pub open spec fn wakes_after_delay(event: Event, failed_at: i64) -> bool {
    event matches Event::Woke { now } && now - failed_at >= RETRY_DELAY_SECS
}

/// A retry comes no earlier than the delay after the failure before it: if an attempt
/// is started after a failure at `failed_at`, the job was woken before at a time that
/// lies at least `RETRY_DELAY_SECS` after `failed_at`.
pub proof fn lemma_retry_waits_for_delay(job: JobView, events: Seq<Event>, index: int)
    requires
        awaited_failure(job.phase) is Some,
        0 <= index < events.len(),
        action_at(job, events, index) is Attempt,
    ensures
        exists|k: int|
            0 <= k < index && wakes_after_delay(#[trigger] events[k], awaited_failure(job.phase)->0),
    decreases events.len(),
{
    let failed_at = awaited_failure(job.phase)->0;
    let after = next(job, events[0]).0;
    if index == 0 {
        assert(events.take(0) =~= Seq::<Event>::empty());
    } else {
        lemma_action_at_shift(job, events, index);
        if awaited_failure(after.phase) is Some {
            assert(awaited_failure(after.phase) == Some(failed_at));
            lemma_retry_waits_for_delay(after, events.drop_first(), index - 1);
            let k = choose|k: int|
                0 <= k < index - 1 && wakes_after_delay(
                    #[trigger] events.drop_first()[k],
                    failed_at,
                );
            assert(events[k + 1] == events.drop_first()[k]);
        } else if is_settled(after.phase) {
            lemma_settled_never_attempts(after, events.drop_first(), index - 1);
        } else {
            assert(wakes_after_delay(events[0], failed_at));
        }
    }
}

/// When the count of an entry has reached `MAX_RETRIES`, whether the ledger says so
/// as the failure is counted or when the blob is taken up again, the entry is dropped
/// and no attempt follows, ever.
pub proof fn lemma_budget_exhausted(job: JobView, count: i32, events: Seq<Event>, index: int)
    requires
        job.phase is CheckingBudget || job.phase is Counting,
        job.entry_id is Some,
        count >= MAX_RETRIES,
        0 <= index < events.len(),
    ensures
        next(job, Event::Retries { count: Some(count) }).1 == if job.phase is CheckingBudget {
            Action::DeleteEntry { entry_id: job.entry_id->0 }
        } else {
            Action::Ignore
        },
        next(job, Event::Counted { retries: count }).1 == if job.phase is Counting {
            Action::DeleteEntry { entry_id: job.entry_id->0 }
        } else {
            Action::Ignore
        },
        job.phase is CheckingBudget ==> !(action_at(
            next(job, Event::Retries { count: Some(count) }).0,
            events,
            index,
        ) is Attempt),
        job.phase is Counting ==> !(action_at(
            next(job, Event::Counted { retries: count }).0,
            events,
            index,
        ) is Attempt),
{
    if job.phase is CheckingBudget {
        lemma_settled_never_attempts(
            next(job, Event::Retries { count: Some(count) }).0,
            events,
            index,
        );
    } else {
        lemma_settled_never_attempts(next(job, Event::Counted { retries: count }).0, events, index);
    }
}

/// A blob that is taken up again goes on from the count that the ledger holds: with a
/// count below `MAX_RETRIES` exactly one attempt is started, and if it fails the
/// failure is counted on the entry that is there; no new entry is made.
pub proof fn lemma_resume_continues(job: JobView, count: i32, at: i64)
    requires
        job.phase is Pending,
        job.entry_id is Some,
        0 <= count < MAX_RETRIES,
    ensures
        action_at(job, seq![Event::Start, Event::Retries { count: Some(count) }], 0)
            == (Action::ReadRetries { entry_id: job.entry_id->0 }),
        action_at(job, seq![Event::Start, Event::Retries { count: Some(count) }], 1)
            == (Action::Attempt { audio_id: job.audio_id }),
        attempts_started(job, seq![Event::Start, Event::Retries { count: Some(count) }]) == 1,
        next(
            run(job, seq![Event::Start, Event::Retries { count: Some(count) }]),
            Event::AttemptFailed { at },
        ).1 == (Action::CountFailure { entry_id: job.entry_id->0 }),
{
    let events = seq![Event::Start, Event::Retries { count: Some(count) }];
    let first = next(job, Event::Start).0;
    let second = next(first, Event::Retries { count: Some(count) }).0;
    assert(events.take(0) =~= Seq::<Event>::empty());
    assert(events.take(1) =~= seq![Event::Start]);
    assert(events.drop_first() =~= seq![Event::Retries { count: Some(count) }]);
    assert(events.drop_first().drop_first() =~= Seq::<Event>::empty());
    assert(seq![Event::Start].drop_first() =~= Seq::<Event>::empty());
    assert(run(job, seq![Event::Start]) == first) by {
        assert(run(first, Seq::<Event>::empty()) == first);
    }
    assert(run(job, events) == second) by {
        assert(run(second, Seq::<Event>::empty()) == second);
        assert(run(first, events.drop_first()) == second);
    }
    assert(attempts_started(second, Seq::<Event>::empty()) == 0);
    assert(attempts_started(first, events.drop_first()) == 1);
}

/// The world around one job, as far as the job can tell: what the ledger holds for
/// the job's blob, the id that the next entry gets, the time, how the attempts to come will end (`true` for
/// success; an attempt beyond the list fails), and how many attempts were made.
pub struct World {
    pub entry: Option<BlobEntry>,
    pub next_id: i32,
    pub now: i64,
    pub outcomes: Seq<bool>,
    pub attempts: nat,
}

/// What a world that does as it is told makes of an action, and what it reports: the
/// ledger reads, enters, counts and drops as asked; an attempt ends as the list says; a
/// sleep lasts as long as asked. Once the job has ended, nothing happens any more.
pub open spec fn respond(world: World, action: Action) -> (World, Event) {
    match action {
        Action::ReadRetries { entry_id } => (
            world,
            Event::Retries {
                count: match world.entry {
                    Some(entry) => if entry.id == entry_id {
                        Some(entry.retries as i32)
                    } else {
                        None
                    },
                    None => None,
                },
            },
        ),
        Action::Attempt { .. } => {
            let after = World {
                outcomes: if world.outcomes.len() > 0 {
                    world.outcomes.drop_first()
                } else {
                    world.outcomes
                },
                attempts: world.attempts + 1,
                ..world
            };
            if world.outcomes.len() > 0 && world.outcomes[0] {
                (after, Event::AttemptSucceeded)
            } else {
                (after, Event::AttemptFailed { at: world.now })
            }
        },
        Action::InsertEntry { .. } => if world.entry is None && world.next_id < i32::MAX {
            (
                World {
                    entry: Some(BlobEntry { id: world.next_id as int, retries: 0 }),
                    next_id: (world.next_id + 1) as i32,
                    ..world
                },
                Event::Inserted { entry_id: world.next_id },
            )
        } else {
            (world, Event::LedgerFailed)
        },
        Action::CountFailure { entry_id } => match world.entry {
            Some(entry) => if entry.id == entry_id && entry.retries < i32::MAX {
                (
                    World {
                        entry: Some(BlobEntry { retries: entry.retries + 1, ..entry }),
                        ..world
                    },
                    Event::Counted { retries: (entry.retries + 1) as i32 },
                )
            } else {
                (world, Event::LedgerFailed)
            },
            None => (world, Event::LedgerFailed),
        },
        Action::DeleteEntry { entry_id } => (
            World {
                entry: match world.entry {
                    Some(entry) => if entry.id == entry_id {
                        None
                    } else {
                        world.entry
                    },
                    None => None,
                },
                ..world
            },
            Event::Deleted,
        ),
        Action::Sleep { secs } => {
            let now = if world.now + secs > i64::MAX {
                i64::MAX
            } else {
                (world.now + secs) as i64
            };
            (World { now, ..world }, Event::Woke { now })
        },
        Action::Finish { .. } => (world, Event::Start),
        Action::Ignore => (world, Event::Start),
    }
}

/// The job, what the world reported last, and the world, after `steps` steps, in each
/// of which the job takes in what the world reported and the world carries out what the
/// job hands out.
pub open spec fn drive(job: JobView, event: Event, world: World, steps: nat) -> (
    JobView,
    Event,
    World,
)
    decreases steps,
{
    if steps == 0 {
        (job, event, world)
    } else {
        let step = next(job, event);
        let answer = respond(world, step.1);
        drive(step.0, answer.1, answer.0, (steps - 1) as nat)
    }
}

/// Steps that are enough for any job to end in a world that does as it is told.
pub open spec fn enough_steps() -> nat {
    24
}

/// Which of the next `limit` attempts is the first to succeed, counted from zero, if
/// one of them does.
pub open spec fn first_success(outcomes: Seq<bool>, limit: nat) -> Option<nat>
    decreases limit,
{
    if limit == 0 || outcomes.len() == 0 {
        None
    } else if outcomes[0] {
        Some(0)
    } else {
        match first_success(outcomes.drop_first(), (limit - 1) as nat) {
            Some(index) => Some(index + 1),
            None => None,
        }
    }
}

/// How the work on a blob ends for which `limit` attempts are left.
pub open spec fn expected_end(outcomes: Seq<bool>, limit: nat) -> Phase {
    if first_success(outcomes, limit) is Some {
        Phase::Succeeded
    } else {
        Phase::Abandoned
    }
}

/// How many attempts are made on a blob for which `limit` attempts are left: up to the
/// first that succeeds, or all that are left.
pub open spec fn expected_attempts(outcomes: Seq<bool>, limit: nat) -> nat {
    match first_success(outcomes, limit) {
        Some(index) => index + 1,
        None => limit,
    }
}

/// Whether the job has ended and the world has nothing more to report.
pub open spec fn at_rest(job: JobView, event: Event) -> bool {
    is_final(job.phase) && event == Event::Start
}

/// Whether the job is about to learn from the ledger that the entry of its blob has
/// counted `counted` failures.
pub open spec fn checking(job: JobView, event: Event, world: World, counted: int) -> bool {
    &&& job.phase is CheckingBudget
    &&& job.entry_id is Some
    &&& world.entry == Some(BlobEntry { id: job.entry_id->0 as int, retries: counted })
    &&& event == Event::Retries { count: Some(counted as i32) }
    &&& 0 <= counted <= i32::MAX
}

/// Steps taken one after the other are steps taken together.
proof fn lemma_drive_split(job: JobView, event: Event, world: World, first: nat, then: nat)
    ensures
        drive(job, event, world, first + then) == ({
            let middle = drive(job, event, world, first);
            drive(middle.0, middle.1, middle.2, then)
        }),
    decreases first,
{
    if first > 0 {
        let step = next(job, event);
        let answer = respond(world, step.1);
        lemma_drive_split(step.0, answer.1, answer.0, (first - 1) as nat, then);
        assert((first + then - 1) as nat == (first - 1) as nat + then);
    }
}

/// Once the job has ended, further steps change nothing.
proof fn lemma_rest(job: JobView, event: Event, world: World, steps: nat)
    requires
        at_rest(job, event),
    ensures
        drive(job, event, world, steps) == (job, event, world),
    decreases steps,
{
    if steps > 0 {
        lemma_rest(job, event, world, (steps - 1) as nat);
    }
}

/// One round: from the ledger's answer through one attempt to the end of the job or to
/// the ledger's next answer.
proof fn lemma_round(job: JobView, event: Event, world: World, counted: int)
    requires
        checking(job, event, world, counted),
        counted < MAX_RETRIES,
        world.now + RETRY_DELAY_SECS <= i64::MAX,
    ensures
        ({
            let end = drive(job, event, world, 4);
            &&& end.2.attempts == world.attempts + 1
            &&& end.0.entry_id == job.entry_id
            &&& if world.outcomes.len() > 0 && world.outcomes[0] {
                at_rest(end.0, end.1) && end.0.phase is Succeeded && end.2.entry is None
            } else if counted + 1 >= MAX_RETRIES {
                at_rest(end.0, end.1) && end.0.phase is Abandoned && end.2.entry is None
            } else {
                &&& checking(end.0, end.1, end.2, counted + 1)
                &&& end.2.now == world.now + RETRY_DELAY_SECS
                &&& end.2.outcomes == if world.outcomes.len() > 0 {
                    world.outcomes.drop_first()
                } else {
                    world.outcomes
                }
            }
        }),
{
    reveal_with_fuel(drive, 5);
}

/// From the ledger's answer on, the job ends as the attempts that are left decide.
proof fn lemma_checked_job_ends(job: JobView, event: Event, world: World, counted: int)
    requires
        checking(job, event, world, counted),
        counted <= MAX_RETRIES,
        world.now + (MAX_RETRIES - counted) * RETRY_DELAY_SECS <= i64::MAX,
    ensures
        ({
            let left = (MAX_RETRIES - counted) as nat;
            let end = drive(job, event, world, 4 * left + 2);
            &&& at_rest(end.0, end.1)
            &&& end.2.entry is None
            &&& end.0.phase == expected_end(world.outcomes, left)
            &&& end.2.attempts == world.attempts + expected_attempts(world.outcomes, left)
        }),
    decreases MAX_RETRIES - counted,
{
    let left = (MAX_RETRIES - counted) as nat;
    if counted >= MAX_RETRIES {
        reveal_with_fuel(drive, 3);
    } else {
        lemma_round(job, event, world, counted);
        let middle = drive(job, event, world, 4);
        let rest = (4 * (left - 1) + 2) as nat;
        lemma_drive_split(job, event, world, 4, rest);
        assert(4 + rest == 4 * left + 2);
        if at_rest(middle.0, middle.1) {
            lemma_rest(middle.0, middle.1, middle.2, rest);
            if !(world.outcomes.len() > 0 && world.outcomes[0]) {
                assert(left == 1);
                assert(first_success(world.outcomes, left) is None) by {
                    reveal_with_fuel(first_success, 2);
                }
            }
        } else {
            lemma_checked_job_ends(middle.0, middle.1, middle.2, counted + 1);
            assert(middle.2.outcomes.len() == 0 ==> first_success(middle.2.outcomes, (left - 1) as nat) is None);
            assert(world.outcomes.len() == 0 ==> first_success(world.outcomes, left) is None);
        }
    }
}

/// Whether the ledger is to hold an entry for the blob of the job: it is, from the
/// first failure on, as long as the work has neither succeeded nor been given up.
pub open spec fn entry_expected(job: JobView) -> bool {
    ||| job.phase is Inserting
    ||| job.entry_id is Some && (job.phase is Pending || job.phase is CheckingBudget
        || job.phase is Attempting || job.phase is Counting || job.phase is Waiting)
}

/// How many waits the work on the blob can still come to.
pub open spec fn waits_left(job: JobView, world: World) -> int {
    match world.entry {
        None => if job.phase is Pending || job.phase is Attempting {
            MAX_RETRIES - 1
        } else {
            0
        },
        Some(entry) => if entry.retries >= MAX_RETRIES {
            0
        } else if job.phase is Counting {
            MAX_RETRIES - entry.retries
        } else {
            MAX_RETRIES - 1 - entry.retries
        },
    }
}

/// What holds between a job and a world that does as it is told, after every step: the
/// world has reported what the job waits for, and the ledger holds the entry of the
/// blob, with the failures counted so far, exactly while an entry is expected.
pub open spec fn in_step(job: JobView, event: Event, world: World) -> bool {
    &&& world.entry is Some <==> entry_expected(job)
    &&& world.entry is Some ==> 0 <= world.entry->0.retries <= MAX_RETRIES
    &&& world.now + waits_left(job, world) * RETRY_DELAY_SECS <= i64::MAX
    &&& job.entry_id is Some && world.entry is Some ==> world.entry->0.id == job.entry_id->0
    &&& job.entry_id is None ==> world.next_id < i32::MAX || world.entry is Some
    &&& job.phase is CheckingBudget || job.phase is Counting || job.phase is Waiting
        ==> job.entry_id is Some
    &&& match job.phase {
        Phase::Pending => event == Event::Start,
        Phase::CheckingBudget => event == Event::Retries {
            count: Some(world.entry->0.retries as i32),
        },
        Phase::Attempting => (event is AttemptSucceeded || event == Event::AttemptFailed {
            at: world.now,
        }) && (world.entry is Some ==> world.entry->0.retries < MAX_RETRIES),
        Phase::Inserting { failed_at } => event == Event::Inserted {
            entry_id: world.entry->0.id as i32,
        } && failed_at == world.now && world.entry->0.retries == 0 && i32::MIN
            <= world.entry->0.id <= i32::MAX,
        Phase::Counting { failed_at } => event == Event::Counted {
            retries: world.entry->0.retries as i32,
        } && failed_at == world.now && world.entry->0.retries >= 1,
        Phase::Waiting { failed_at } => event == Event::Woke { now: world.now } && world.now
            - failed_at >= RETRY_DELAY_SECS && world.entry->0.retries < MAX_RETRIES,
        Phase::Clearing => event == Event::Deleted,
        Phase::Abandoning => event == Event::Deleted,
        Phase::Succeeded => event == Event::Start,
        Phase::Abandoned => event == Event::Start,
        Phase::Stopped => false,
        Phase::Lost => false,
    }
}

/// One step keeps the job and the world in step.
proof fn lemma_step_in_step(job: JobView, event: Event, world: World)
    requires
        in_step(job, event, world),
    ensures
        ({
            let after = drive(job, event, world, 1);
            in_step(after.0, after.1, after.2)
        }),
{
    reveal_with_fuel(drive, 2);
}

/// The ledger holds an entry for a blob exactly while the last attempt has failed and
/// the blob has not been given up: at every step of the work on a blob, in a world that
/// does as it is told, the entry is there if and only if it is expected, and the
/// ledger never fails the job.
pub proof fn lemma_entry_while_retrying(job: JobView, world: World, steps: nat)
    requires
        in_step(job, Event::Start, world),
        job.phase is Pending,
    ensures
        ({
            let after = drive(job, Event::Start, world, steps);
            &&& in_step(after.0, after.1, after.2)
            &&& after.2.entry is Some <==> entry_expected(after.0)
            &&& !(after.0.phase is Lost) && !(after.0.phase is Stopped)
        }),
    decreases steps,
{
    if steps > 0 {
        lemma_entry_while_retrying(job, world, (steps - 1) as nat);
        let before = drive(job, Event::Start, world, (steps - 1) as nat);
        lemma_drive_split(job, Event::Start, world, (steps - 1) as nat, 1);
        lemma_step_in_step(before.0, before.1, before.2);
    }
}

/// A blob that was just uploaded is attempted at most `MAX_RETRIES` times, in a world
/// that does as it is told and whatever the attempts come to. The job ends with the
/// text, after the first attempt that succeeds, or gives the blob up after the last
/// failure; either way the ledger then holds no entry for the blob.
pub proof fn lemma_fresh_job_ends(job: JobView, world: World)
    requires
        job.phase is Pending,
        job.entry_id is None,
        world.entry is None,
        world.next_id < i32::MAX,
        world.now + MAX_RETRIES * RETRY_DELAY_SECS <= i64::MAX,
    ensures
        ({
            let end = drive(job, Event::Start, world, enough_steps());
            &&& at_rest(end.0, end.1)
            &&& end.2.entry is None
            &&& end.0.phase == expected_end(world.outcomes, MAX_RETRIES as nat)
            &&& end.2.attempts == world.attempts + expected_attempts(
                world.outcomes,
                MAX_RETRIES as nat,
            )
            &&& end.2.attempts <= world.attempts + MAX_RETRIES
        }),
{
    let limit = MAX_RETRIES as nat;
    let middle = drive(job, Event::Start, world, 5);
    lemma_drive_split(job, Event::Start, world, 5, 19);
    assert(drive(job, Event::Start, world, 5) == middle);
    if world.outcomes.len() > 0 && world.outcomes[0] {
        assert(at_rest(middle.0, middle.1) && middle.0.phase is Succeeded && middle.2.entry is None
            && middle.2.attempts == world.attempts + 1) by {
            reveal_with_fuel(drive, 6);
        }
        lemma_rest(middle.0, middle.1, middle.2, 19);
    } else {
        let rest = if world.outcomes.len() > 0 {
            world.outcomes.drop_first()
        } else {
            world.outcomes
        };
        assert(checking(middle.0, middle.1, middle.2, 1) && middle.2.attempts == world.attempts
            + 1 && middle.2.now == world.now + RETRY_DELAY_SECS && middle.2.outcomes == rest) by {
            reveal_with_fuel(drive, 6);
        }
        lemma_checked_job_ends(middle.0, middle.1, middle.2, 1);
        let end = drive(middle.0, middle.1, middle.2, 10);
        lemma_drive_split(middle.0, middle.1, middle.2, 10, 9);
        lemma_rest(end.0, end.1, end.2, 9);
        assert(rest.len() == 0 ==> first_success(rest, 2) is None);
        assert(world.outcomes.len() == 0 ==> first_success(world.outcomes, limit) is None);
    }
    lemma_attempts_within(world.outcomes, limit);
}

/// No more attempts are made than are left.
proof fn lemma_attempts_within(outcomes: Seq<bool>, limit: nat)
    ensures
        expected_attempts(outcomes, limit) <= limit,
        first_success(outcomes, limit) matches Some(index) ==> index < limit && index
            < outcomes.len() && outcomes[index as int],
    decreases limit,
{
    if limit > 0 && outcomes.len() > 0 && !outcomes[0] {
        lemma_attempts_within(outcomes.drop_first(), (limit - 1) as nat);
    }
}

/// A blob that is taken up again goes on from the count that the ledger holds, in a
/// world that does as it is told: with `MAX_RETRIES` failures counted it is given up at
/// once, without an attempt; with fewer it is attempted until an attempt succeeds or
/// the count reaches `MAX_RETRIES`, and never more often than the count leaves room
/// for. Either way the ledger then holds no entry for the blob.
pub proof fn lemma_resumed_job_ends(job: JobView, world: World)
    requires
        job.phase is Pending,
        job.entry_id is Some,
        world.entry is Some,
        world.entry->0.id == job.entry_id->0,
        0 <= world.entry->0.retries <= MAX_RETRIES,
        world.now + MAX_RETRIES * RETRY_DELAY_SECS <= i64::MAX,
    ensures
        ({
            let end = drive(job, Event::Start, world, enough_steps());
            let left = (MAX_RETRIES - world.entry->0.retries) as nat;
            &&& at_rest(end.0, end.1)
            &&& end.2.entry is None
            &&& end.0.phase == expected_end(world.outcomes, left)
            &&& end.2.attempts == world.attempts + expected_attempts(world.outcomes, left)
            &&& end.2.attempts <= world.attempts + left
        }),
{
    let counted = world.entry->0.retries;
    let left = (MAX_RETRIES - counted) as nat;
    let middle = drive(job, Event::Start, world, 1);
    assert(checking(middle.0, middle.1, middle.2, counted) && middle.2 == world) by {
        reveal_with_fuel(drive, 2);
    }
    lemma_checked_job_ends(middle.0, middle.1, middle.2, counted);
    let steps = 4 * left + 2;
    let end = drive(middle.0, middle.1, middle.2, steps);
    lemma_drive_split(job, Event::Start, world, 1, steps);
    lemma_drive_split(job, Event::Start, world, 1 + steps, (23 - steps) as nat);
    lemma_rest(end.0, end.1, end.2, (23 - steps) as nat);
    lemma_attempts_within(world.outcomes, left);
}

/// One step of taking up again, at start, the blobs that the ledger still holds.
#[derive(Debug)]
pub enum ResumeAction {
    /// Run this job until it has ended, before anything else.
    Run(Job),
    /// Wait for `secs` seconds, so that the blobs do not reach the transcriber at once.
    Pause { secs: u64 },
    /// All blobs have been taken up.
    Done,
}

/// A resume step as plain values.
pub enum ResumeStep {
    Run(JobView),
    Pause { secs: u64 },
    Done,
}

impl View for ResumeAction {
    type V = ResumeStep;

    open spec fn view(&self) -> ResumeStep {
        match self {
            ResumeAction::Run(job) => ResumeStep::Run(job@),
            ResumeAction::Pause { secs } => ResumeStep::Pause { secs: *secs },
            ResumeAction::Done => ResumeStep::Done,
        }
    }
}

/// The job that takes up again the blob of `entry`.
pub open spec fn resumed_job(entry: LedgerEntry) -> JobView {
    JobView {
        audio_id: entry.audio_id as i32,
        language: entry.language,
        entry_id: Some(entry.id as i32),
        phase: Phase::Pending,
    }
}

/// What is done at the step `step` of taking up `entries` again: the blobs are taken
/// up one at a time, in the order of the entries, and each is followed by a pause of
/// `RESUME_PACING_SECS` seconds.
pub open spec fn resume_step(entries: Seq<LedgerEntry>, step: nat) -> ResumeStep {
    if step >= 2 * entries.len() {
        ResumeStep::Done
    } else if step % 2 == 0 {
        ResumeStep::Run(resumed_job(entries[step as int / 2]))
    } else {
        ResumeStep::Pause { secs: RESUME_PACING_SECS }
    }
}

/// The taking up again, at start, of the blobs that the ledger still holds.
#[derive(Debug)]
pub struct ResumeLoop {
    entries: Vec<DbFailedAudioTranscription>,
    index: usize,
    pausing: bool,
}

impl ResumeLoop {
    /// The entries to take up, in their order.
    pub closed spec fn entries(&self) -> Seq<LedgerEntry> {
        entry_views(self.entries@)
    }

    /// How many steps have been handed out.
    pub closed spec fn steps_taken(&self) -> nat {
        if self.pausing {
            (2 * self.index + 1) as nat
        } else {
            (2 * self.index) as nat
        }
    }

    /// The loop over `entries`, as the ledger listed them, with no step taken.
    pub fn new(entries: Vec<DbFailedAudioTranscription>) -> (resume: ResumeLoop)
        ensures
            resume.entries() == entry_views(entries@),
            resume.steps_taken() == 0,
    {
        ResumeLoop { entries, index: 0, pausing: false }
    }

    /// The ids of the entries with the ids of their blobs, in order, for the log.
    pub fn ids(&self) -> (ids: Vec<(i32, i32)>)
        ensures
            ids@.len() == self.entries().len(),
            forall|i: int|
                0 <= i < ids@.len() ==> (#[trigger] ids@[i]).0 == self.entries()[i].id && ids@[i].1
                    == self.entries()[i].audio_id,
    {
        let mut ids: Vec<(i32, i32)> = Vec::new();
        let mut i: usize = 0;
        while i < self.entries.len()
            invariant
                i <= self.entries.len(),
                ids@.len() == i,
                forall|k: int|
                    0 <= k < i ==> (#[trigger] ids@[k]).0 == self.entries@[k].id && ids@[k].1
                        == self.entries@[k].audio_id,
            decreases self.entries.len() - i,
        {
            ids.push((self.entries[i].id, self.entries[i].audio_id));
            i = i + 1;
        }
        ids
    }

    /// The next step. After the last pause every call says that all is done.
    pub fn next_action(&mut self) -> (action: ResumeAction)
        ensures
            action@ == resume_step(old(self).entries(), old(self).steps_taken()),
            final(self).entries() == old(self).entries(),
            final(self).steps_taken() == if action is Done {
                old(self).steps_taken()
            } else {
                old(self).steps_taken() + 1
            },
    {
        if self.index >= self.entries.len() {
            ResumeAction::Done
        } else if self.pausing {
            self.pausing = false;
            self.index = self.index + 1;
            ResumeAction::Pause { secs: RESUME_PACING_SECS }
        } else {
            self.pausing = true;
            ResumeAction::Run(Job::resume(&self.entries[self.index]))
        }
    }
}

} // verus!
