//! The retry ledger: one entry for each blob whose transcription has failed and is still
//! to be tried again.

use vstd::prelude::*;
use vstd::string::*;

verus! {

/// One blob in retry state, as the ledger stores it. Times are seconds since the epoch.
#[derive(Debug)]
pub struct DbFailedAudioTranscription {
    pub id: i32,
    pub audio_id: i32,
    pub retries: i32,
    pub language: String,
    pub created_at: i64,
    pub last_retry_at: Option<i64>,
}

/// A ledger entry as plain values.
pub struct LedgerEntry {
    pub id: int,
    pub audio_id: int,
    pub retries: int,
    pub language: Seq<char>,
    pub created_at: int,
    pub last_retry_at: Option<int>,
}

impl View for DbFailedAudioTranscription {
    type V = LedgerEntry;

    open spec fn view(&self) -> LedgerEntry {
        LedgerEntry {
            id: self.id as int,
            audio_id: self.audio_id as int,
            retries: self.retries as int,
            language: self.language@,
            created_at: self.created_at as int,
            last_retry_at: match self.last_retry_at {
                Some(at) => Some(at as int),
                None => None,
            },
        }
    }
}

impl DbFailedAudioTranscription {
    /// A copy of the entry.
    pub fn duplicate(&self) -> (copy: DbFailedAudioTranscription)
        ensures
            copy@ == self@,
    {
        DbFailedAudioTranscription {
            id: self.id,
            audio_id: self.audio_id,
            retries: self.retries,
            language: self.language.clone(),
            created_at: self.created_at,
            last_retry_at: self.last_retry_at,
        }
    }
}

/// Why the ledger refused an operation.
#[derive(Debug, Clone, Copy, PartialEq, Eq, Structural)]
pub enum LedgerError {
    /// The blob already has an entry.
    DuplicateBlob,
    /// No entry has the id.
    NoSuchEntry,
    /// An id or a count has reached the end of its range.
    OutOfRange,
}

/// The views of stored entries, in order.
pub open spec fn entry_views(entries: Seq<DbFailedAudioTranscription>) -> Seq<LedgerEntry> {
    entries.map_values(|entry: DbFailedAudioTranscription| entry@)
}

/// Where the entry with `id` stands among `entries`, if there is one.
pub open spec fn position_of_id(entries: Seq<LedgerEntry>, id: int) -> Option<int> {
    if exists|i: int| 0 <= i < entries.len() && (#[trigger] entries[i]).id == id {
        Some(choose|i: int| 0 <= i < entries.len() && (#[trigger] entries[i]).id == id)
    } else {
        None
    }
}

/// Where the entry of the blob `audio_id` stands among `entries`, if there is one.
pub open spec fn position_of_audio(entries: Seq<LedgerEntry>, audio_id: int) -> Option<int> {
    if exists|i: int| 0 <= i < entries.len() && (#[trigger] entries[i]).audio_id == audio_id {
        Some(
            choose|i: int| 0 <= i < entries.len() && (#[trigger] entries[i]).audio_id == audio_id,
        )
    } else {
        None
    }
}

/// What the ledger keeps true of its entries: they stand in the order of their ids,
/// which are positive and all different; no blob has two entries; no count is negative.
pub open spec fn ledger_ok(entries: Seq<LedgerEntry>) -> bool {
    &&& forall|i: int, j: int|
        0 <= i < j < entries.len() ==> (#[trigger] entries[i]).id < (#[trigger] entries[j]).id
    &&& forall|i: int, j: int|
        0 <= i < j < entries.len() ==> (#[trigger] entries[i]).audio_id != (
        #[trigger] entries[j]).audio_id
    &&& forall|i: int| 0 <= i < entries.len() ==> (#[trigger] entries[i]).id > 0
    &&& forall|i: int| 0 <= i < entries.len() ==> (#[trigger] entries[i]).retries >= 0
}

/// Ids that grow from each entry to the next grow from each entry to every later one.
proof fn lemma_steps_ascend(entries: Seq<LedgerEntry>)
    requires
        forall|k: int| 0 < k < entries.len() ==> entries[k - 1].id < (#[trigger] entries[k]).id,
    ensures
        forall|i: int, j: int|
            0 <= i < j < entries.len() ==> (#[trigger] entries[i]).id < (#[trigger] entries[j]).id,
    decreases entries.len(),
{
    if entries.len() > 1 {
        let front = entries.drop_last();
        assert forall|k: int| 0 < k < front.len() implies front[k - 1].id < (
        #[trigger] front[k]).id by {
            assert(entries[k - 1].id < entries[k].id);
        }
        lemma_steps_ascend(front);
        let last = entries.len() - 1;
        assert forall|i: int, j: int| 0 <= i < j < entries.len() implies (
        #[trigger] entries[i]).id < (#[trigger] entries[j]).id by {
            if j < last {
                assert(front[i].id < front[j].id);
            } else if i < last - 1 {
                assert(front[i].id < front[last - 1].id);
                assert(entries[last - 1].id < entries[last].id);
            } else {
                assert(entries[last - 1].id < entries[last].id);
            }
        }
    }
}

/// What the ledger holds for one blob: the id of the entry and the failures it has
/// counted.
pub struct BlobEntry {
    pub id: int,
    pub retries: int,
}

/// What `entries` hold for the blob `audio_id`, if anything.
pub open spec fn held_for(entries: Seq<LedgerEntry>, audio_id: int) -> Option<BlobEntry> {
    match position_of_audio(entries, audio_id) {
        Some(index) => Some(BlobEntry { id: entries[index].id, retries: entries[index].retries }),
        None => None,
    }
}

/// An entry is found where it stands: no other entry has its id, and none its blob.
pub proof fn lemma_entry_is_found(entries: Seq<LedgerEntry>, index: int)
    requires
        ledger_ok(entries),
        0 <= index < entries.len(),
    ensures
        position_of_id(entries, entries[index].id) == Some(index),
        position_of_audio(entries, entries[index].audio_id) == Some(index),
{
    let by_id = position_of_id(entries, entries[index].id)->0;
    assert(entries[by_id].id == entries[index].id);
    if by_id < index {
        assert(entries[by_id].id < entries[index].id);
    } else if by_id > index {
        assert(entries[index].id < entries[by_id].id);
    }
    let by_audio = position_of_audio(entries, entries[index].audio_id)->0;
    assert(entries[by_audio].audio_id == entries[index].audio_id);
    if by_audio < index {
        assert(entries[by_audio].audio_id != entries[index].audio_id);
    } else if by_audio > index {
        assert(entries[index].audio_id != entries[by_audio].audio_id);
    }
}

/// A blob has at most one entry: once its entry is dropped, the ledger holds nothing
/// for the blob, and what is left is still in order.
pub proof fn lemma_dropped_entry_is_gone(entries: Seq<LedgerEntry>, index: int)
    requires
        ledger_ok(entries),
        0 <= index < entries.len(),
    ensures
        ledger_ok(entries.remove(index)),
        position_of_id(entries.remove(index), entries[index].id) is None,
        position_of_audio(entries.remove(index), entries[index].audio_id) is None,
{
    let left = entries.remove(index);
    assert forall|k: int| 0 <= k < left.len() implies (#[trigger] left[k]).id != entries[index].id
        && left[k].audio_id != entries[index].audio_id by {
        if k < index {
            assert(left[k] == entries[k]);
            assert(entries[k].id < entries[index].id);
            assert(entries[k].audio_id != entries[index].audio_id);
        } else {
            assert(left[k] == entries[k + 1]);
            assert(entries[index].id < entries[k + 1].id);
            assert(entries[index].audio_id != entries[k + 1].audio_id);
        }
    }
    assert forall|i: int, j: int| 0 <= i < j < left.len() implies (#[trigger] left[i]).id < (
    #[trigger] left[j]).id && left[i].audio_id != left[j].audio_id by {
        let from_i = if i < index { i } else { i + 1 };
        let from_j = if j < index { j } else { j + 1 };
        assert(left[i] == entries[from_i] && left[j] == entries[from_j]);
        assert(entries[from_i].id < entries[from_j].id);
        assert(entries[from_i].audio_id != entries[from_j].audio_id);
    }
    assert forall|k: int| 0 <= k < left.len() implies (#[trigger] left[k]).id > 0 && left[k].retries
        >= 0 by {
        let from = if k < index { k } else { k + 1 };
        assert(left[k] == entries[from]);
        assert(entries[from].id > 0 && entries[from].retries >= 0);
    }
}

/// Entering a blob touches one row: the ledger then holds the new entry for the blob,
/// with no failure counted, and for every other blob what it held before.
pub proof fn lemma_insert_touches_one_blob(
    entries: Seq<LedgerEntry>,
    entry: LedgerEntry,
    other_audio: int,
)
    requires
        ledger_ok(entries),
        position_of_audio(entries, entry.audio_id) is None,
        entry.retries == 0,
        entry.id > 0,
        forall|k: int| 0 <= k < entries.len() ==> (#[trigger] entries[k]).id < entry.id,
        other_audio != entry.audio_id,
    ensures
        ledger_ok(entries.push(entry)),
        held_for(entries.push(entry), entry.audio_id) == Some(
            BlobEntry { id: entry.id, retries: 0 },
        ),
        held_for(entries.push(entry), other_audio) == held_for(entries, other_audio),
{
    let after = entries.push(entry);
    assert forall|k: int| 0 <= k < entries.len() implies (#[trigger] entries[k]).audio_id
        != entry.audio_id by {
        if entries[k].audio_id == entry.audio_id {
            assert(position_of_audio(entries, entry.audio_id) is Some);
        }
    }
    assert(ledger_ok(after)) by {
        assert forall|i: int, j: int| 0 <= i < j < after.len() implies (#[trigger] after[i]).id < (
        #[trigger] after[j]).id && after[i].audio_id != after[j].audio_id by {
            if j < entries.len() {
                assert(entries[i].id < entries[j].id);
                assert(entries[i].audio_id != entries[j].audio_id);
            } else {
                assert(entries[i].id < entry.id);
                assert(entries[i].audio_id != entry.audio_id);
            }
        }
        assert forall|k: int| 0 <= k < after.len() implies (#[trigger] after[k]).id > 0
            && after[k].retries >= 0 by {
            if k < entries.len() {
                assert(entries[k].id > 0 && entries[k].retries >= 0);
            }
        }
    }
    lemma_entry_is_found(after, entries.len() as int);
    assert forall|i: int|
        0 <= i < entries.len() && (#[trigger] entries[i]).audio_id == other_audio implies exists|
        j: int,
    | 0 <= j < after.len() && #[trigger] after[j] == entries[i] by {
        assert(after[i] == entries[i]);
    }
    assert forall|j: int|
        0 <= j < after.len() && (#[trigger] after[j]).audio_id == other_audio implies exists|
        i: int,
    | 0 <= i < entries.len() && #[trigger] entries[i] == after[j] by {
        assert(entries[j] == after[j]);
    }
    lemma_same_blob_same_row(entries, after, other_audio);
}

/// Counting a failure touches one row: the ledger then holds one failure more for the
/// blob of the entry, and for every other blob what it held before.
pub proof fn lemma_increment_touches_one_blob(
    entries: Seq<LedgerEntry>,
    index: int,
    now: int,
    other_audio: int,
)
    requires
        ledger_ok(entries),
        0 <= index < entries.len(),
        entries[index].retries < i32::MAX,
        other_audio != entries[index].audio_id,
    ensures
        ledger_ok(entries.update(index, counted(entries[index], now))),
        held_for(entries.update(index, counted(entries[index], now)), entries[index].audio_id)
            == Some(
            BlobEntry { id: entries[index].id, retries: entries[index].retries + 1 },
        ),
        held_for(entries.update(index, counted(entries[index], now)), other_audio) == held_for(
            entries,
            other_audio,
        ),
{
    let after = entries.update(index, counted(entries[index], now));
    assert(ledger_ok(after)) by {
        assert forall|i: int, j: int| 0 <= i < j < after.len() implies (#[trigger] after[i]).id < (
        #[trigger] after[j]).id && after[i].audio_id != after[j].audio_id by {
            assert(entries[i].id < entries[j].id);
            assert(entries[i].audio_id != entries[j].audio_id);
        }
        assert forall|k: int| 0 <= k < after.len() implies (#[trigger] after[k]).id > 0
            && after[k].retries >= 0 by {
            assert(entries[k].id > 0 && entries[k].retries >= 0);
        }
    }
    lemma_entry_is_found(after, index);
    assert forall|i: int|
        0 <= i < entries.len() && (#[trigger] entries[i]).audio_id == other_audio implies exists|
        j: int,
    | 0 <= j < after.len() && #[trigger] after[j] == entries[i] by {
        assert(after[i] == entries[i]);
    }
    assert forall|j: int|
        0 <= j < after.len() && (#[trigger] after[j]).audio_id == other_audio implies exists|
        i: int,
    | 0 <= i < entries.len() && #[trigger] entries[i] == after[j] by {
        assert(entries[j] == after[j]);
    }
    lemma_same_blob_same_row(entries, after, other_audio);
}

/// Dropping an entry touches one row: the ledger then holds nothing for the blob of
/// the entry, and for every other blob what it held before.
pub proof fn lemma_delete_touches_one_blob(entries: Seq<LedgerEntry>, index: int, other_audio: int)
    requires
        ledger_ok(entries),
        0 <= index < entries.len(),
        other_audio != entries[index].audio_id,
    ensures
        ledger_ok(entries.remove(index)),
        held_for(entries.remove(index), entries[index].audio_id) is None,
        held_for(entries.remove(index), other_audio) == held_for(entries, other_audio),
{
    lemma_dropped_entry_is_gone(entries, index);
    let after = entries.remove(index);
    assert forall|i: int|
        0 <= i < entries.len() && (#[trigger] entries[i]).audio_id == other_audio implies exists|
        j: int,
    | 0 <= j < after.len() && #[trigger] after[j] == entries[i] by {
        if i < index {
            assert(after[i] == entries[i]);
        } else {
            assert(after[i - 1] == entries[i]);
        }
    }
    assert forall|j: int|
        0 <= j < after.len() && (#[trigger] after[j]).audio_id == other_audio implies exists|
        i: int,
    | 0 <= i < entries.len() && #[trigger] entries[i] == after[j] by {
        if j < index {
            assert(entries[j] == after[j]);
        } else {
            assert(entries[j + 1] == after[j]);
        }
    }
    lemma_same_blob_same_row(entries, after, other_audio);
}

/// Two ledgers that hold the same rows for a blob hold the same for the blob.
proof fn lemma_same_blob_same_row(before: Seq<LedgerEntry>, after: Seq<LedgerEntry>, audio_id: int)
    requires
        ledger_ok(before),
        ledger_ok(after),
        forall|i: int|
            0 <= i < before.len() && (#[trigger] before[i]).audio_id == audio_id ==> exists|j: int|
                0 <= j < after.len() && #[trigger] after[j] == before[i],
        forall|j: int|
            0 <= j < after.len() && (#[trigger] after[j]).audio_id == audio_id ==> exists|i: int|
                0 <= i < before.len() && #[trigger] before[i] == after[j],
    ensures
        held_for(after, audio_id) == held_for(before, audio_id),
{
    match position_of_audio(before, audio_id) {
        Some(i) => {
            assert(before[i].audio_id == audio_id);
            let j = choose|j: int| 0 <= j < after.len() && #[trigger] after[j] == before[i];
            lemma_entry_is_found(after, j);
        },
        None => {
            if position_of_audio(after, audio_id) is Some {
                let j = position_of_audio(after, audio_id)->0;
                assert(after[j].audio_id == audio_id);
                let i = choose|i: int| 0 <= i < before.len() && #[trigger] before[i] == after[j];
                assert(before[i].audio_id == audio_id);
            }
        },
    }
}

/// The entry that `insert` adds.
pub open spec fn fresh_entry(id: int, audio_id: int, language: Seq<char>, now: int) -> LedgerEntry {
    LedgerEntry { id, audio_id, retries: 0, language, created_at: now, last_retry_at: None }
}

/// The entry after one more failed attempt has been counted at the time `now`.
pub open spec fn counted(entry: LedgerEntry, now: int) -> LedgerEntry {
    LedgerEntry { retries: entry.retries + 1, last_retry_at: Some(now), ..entry }
}

/// The retry ledger, held in memory.
pub struct RetryLedger {
    entries: Vec<DbFailedAudioTranscription>,
    next_id: i32,
}

impl View for RetryLedger {
    type V = Seq<LedgerEntry>;

    closed spec fn view(&self) -> Seq<LedgerEntry> {
        entry_views(self.entries@)
    }
}

impl RetryLedger {
    /// The id that the next new entry gets.
    pub closed spec fn next_id(&self) -> int {
        self.next_id as int
    }

    /// The entries are in order, and every id in use lies below the next one.
    pub closed spec fn wf(&self) -> bool {
        &&& ledger_ok(self@)
        &&& self.next_id >= 1
        &&& forall|i: int| 0 <= i < self@.len() ==> (#[trigger] self@[i]).id < self.next_id
    }

    /// What well-formedness says of the entries.
    pub proof fn lemma_wf(&self)
        requires
            self.wf(),
        ensures
            ledger_ok(self@),
            self.next_id() >= 1,
            forall|i: int| 0 <= i < self@.len() ==> (#[trigger] self@[i]).id < self.next_id(),
    {
    }

    /// A ledger without entries; the first entry will get the id 1.
    pub fn new() -> (ledger: RetryLedger)
        ensures
            ledger.wf(),
            ledger@ == Seq::<LedgerEntry>::empty(),
            ledger.next_id() == 1,
    {
        let ledger = RetryLedger { entries: Vec::new(), next_id: 1 };
        assert(ledger@ =~= Seq::<LedgerEntry>::empty());
        ledger
    }

    /// The ledger that holds `entries`, as they were listed from a store, if they are
    /// what a ledger can hold: in the order of their ids, the ids positive and below the
    /// end of their range, no blob twice, no count negative. The next entry will get
    /// the id after the last.
    pub fn from_entries(entries: Vec<DbFailedAudioTranscription>) -> (result: Option<RetryLedger>)
        ensures
            match result {
                Some(ledger) => {
                    &&& ledger.wf()
                    &&& ledger@ == entry_views(entries@)
                    &&& ledger.next_id() == if entries@.len() == 0 {
                        1
                    } else {
                        entries@.last().id + 1
                    }
                },
                None => !ledger_ok(entry_views(entries@)) || (entries@.len() > 0
                    && entries@.last().id == i32::MAX),
            },
    {
        let ghost views = entry_views(entries@);
        let mut i: usize = 0;
        while i < entries.len()
            invariant
                i <= entries.len(),
                views == entry_views(entries@),
                forall|k: int| 0 <= k < i ==> (#[trigger] views[k]).id > 0,
                forall|k: int| 0 <= k < i ==> (#[trigger] views[k]).retries >= 0,
                forall|k: int| 0 < k < i ==> views[k - 1].id < (#[trigger] views[k]).id,
                forall|j: int, k: int|
                    0 <= j < k < i ==> (#[trigger] views[j]).audio_id != (
                    #[trigger] views[k]).audio_id,
            decreases entries.len() - i,
        {
            let entry = &entries[i];
            if entry.id <= 0 || entry.retries < 0 {
                assert(views[i as int].id <= 0 || views[i as int].retries < 0);
                return None;
            }
            if i > 0 && entries[i - 1].id >= entry.id {
                assert(!(views[i as int - 1].id < views[i as int].id));
                return None;
            }
            let mut j: usize = 0;
            while j < i
                invariant
                    j <= i,
                    i < entries.len(),
                    views == entry_views(entries@),
                    entry == &entries@[i as int],
                    forall|k: int| 0 <= k < j ==> (#[trigger] views[k]).audio_id != entry.audio_id,
                decreases i - j,
            {
                if entries[j].audio_id == entry.audio_id {
                    assert(views[j as int].audio_id == views[i as int].audio_id);
                    return None;
                }
                j = j + 1;
            }
            i = i + 1;
        }
        proof {
            lemma_steps_ascend(views);
        }
        let next_id = if entries.len() == 0 {
            1
        } else {
            let last = entries[entries.len() - 1].id;
            if last == i32::MAX {
                return None;
            }
            last + 1
        };
        let ledger = RetryLedger { entries, next_id };
        proof {
            assert forall|k: int| 0 <= k < ledger@.len() implies (#[trigger] ledger@[k]).id
                < next_id by {
                if k < ledger@.len() - 1 {
                    assert(views[k].id < views[views.len() - 1].id);
                }
            }
        }
        Some(ledger)
    }

    /// Index of the entry with `id`.
    fn find_id(&self, id: i32) -> (found: Option<usize>)
        requires
            self.wf(),
        ensures
            match found {
                Some(i) => position_of_id(self@, id as int) == Some(i as int) && i < self@.len()
                    && self@[i as int].id == id,
                None => position_of_id(self@, id as int) is None,
            },
    {
        let mut i: usize = 0;
        while i < self.entries.len()
            invariant
                i <= self.entries.len(),
                self.wf(),
                self@ == entry_views(self.entries@),
                forall|k: int| 0 <= k < i ==> (#[trigger] self@[k]).id != id,
            decreases self.entries.len() - i,
        {
            if self.entries[i].id == id {
                proof {
                    assert(self@[i as int].id == id);
                    let k = position_of_id(self@, id as int)->0;
                    assert(self@[k].id == id);
                    assert(k == i) by {
                        if k < i {
                            assert(self@[k].id < self@[i as int].id);
                        } else if k > i {
                            assert(self@[i as int].id < self@[k].id);
                        }
                    }
                }
                return Some(i);
            }
            i = i + 1;
        }
        None
    }

    /// Index of the entry of the blob `audio_id`.
    fn find_audio(&self, audio_id: i32) -> (found: Option<usize>)
        requires
            self.wf(),
        ensures
            match found {
                Some(i) => position_of_audio(self@, audio_id as int) == Some(i as int) && i
                    < self@.len() && self@[i as int].audio_id == audio_id,
                None => position_of_audio(self@, audio_id as int) is None,
            },
    {
        let mut i: usize = 0;
        while i < self.entries.len()
            invariant
                i <= self.entries.len(),
                self.wf(),
                self@ == entry_views(self.entries@),
                forall|k: int| 0 <= k < i ==> (#[trigger] self@[k]).audio_id != audio_id,
            decreases self.entries.len() - i,
        {
            if self.entries[i].audio_id == audio_id {
                proof {
                    assert(self@[i as int].audio_id == audio_id);
                    let k = position_of_audio(self@, audio_id as int)->0;
                    assert(self@[k].audio_id == audio_id);
                    assert(k == i) by {
                        if k < i {
                            assert(self@[k].audio_id != self@[i as int].audio_id);
                        } else if k > i {
                            assert(self@[i as int].audio_id != self@[k].audio_id);
                        }
                    }
                }
                return Some(i);
            }
            i = i + 1;
        }
        None
    }

    /// The entry of the blob `audio_id`, if the blob is in retry state.
    pub fn get(&self, audio_id: i32) -> (entry: Option<DbFailedAudioTranscription>)
        requires
            self.wf(),
        ensures
            match position_of_audio(self@, audio_id as int) {
                Some(i) => entry is Some && entry->0@ == self@[i],
                None => entry is None,
            },
    {
        match self.find_audio(audio_id) {
            Some(i) => Some(self.entries[i].duplicate()),
            None => None,
        }
    }

    /// How many failed attempts the entry `id` has counted, if there is such an entry.
    pub fn retries(&self, id: i32) -> (count: Option<i32>)
        requires
            self.wf(),
        ensures
            match position_of_id(self@, id as int) {
                Some(i) => count is Some && count->0 == self@[i].retries,
                None => count is None,
            },
    {
        match self.find_id(id) {
            Some(i) => Some(self.entries[i].retries),
            None => None,
        }
    }

    /// Enters the blob `audio_id` with no failed attempt counted yet, created at `now`,
    /// under the next id, and returns that id. Refuses a blob that has an entry, and any
    /// blob once the ids are used up; the ledger is then unchanged.
    pub fn insert(&mut self, audio_id: i32, language: &str, now: i64) -> (result: Result<
        i32,
        LedgerError,
    >)
        requires
            old(self).wf(),
        ensures
            final(self).wf(),
            match result {
                Ok(id) => {
                    &&& position_of_audio(old(self)@, audio_id as int) is None
                    &&& id == old(self).next_id()
                    &&& final(self).next_id() == id + 1
                    &&& final(self)@ == old(self)@.push(
                        fresh_entry(id as int, audio_id as int, language@, now as int),
                    )
                },
                Err(error) => {
                    &&& final(self)@ == old(self)@
                    &&& final(self).next_id() == old(self).next_id()
                    &&& error == if position_of_audio(old(self)@, audio_id as int) is Some {
                        LedgerError::DuplicateBlob
                    } else {
                        LedgerError::OutOfRange
                    }
                },
            },
            result is Ok <==> position_of_audio(old(self)@, audio_id as int) is None && old(
                self,
            ).next_id() < i32::MAX,
    {
        if self.find_audio(audio_id).is_some() {
            return Err(LedgerError::DuplicateBlob);
        }
        if self.next_id == i32::MAX {
            return Err(LedgerError::OutOfRange);
        }
        let id = self.next_id;
        let entry = DbFailedAudioTranscription {
            id,
            audio_id,
            retries: 0,
            language: String::from_str(language),
            created_at: now,
            last_retry_at: None,
        };
        self.entries.push(entry);
        self.next_id = id + 1;
        proof {
            assert(self@ =~= old(self)@.push(
                fresh_entry(id as int, audio_id as int, language@, now as int),
            ));
        }
        Ok(id)
    }

    /// Counts one more failed attempt for the entry `id`, at the time `now`, and returns
    /// the new count. Without such an entry, or with its count at the end of its range,
    /// the ledger is unchanged.
    pub fn increment(&mut self, id: i32, now: i64) -> (result: Result<i32, LedgerError>)
        requires
            old(self).wf(),
        ensures
            final(self).wf(),
            final(self).next_id() == old(self).next_id(),
            match position_of_id(old(self)@, id as int) {
                Some(i) => if old(self)@[i].retries < i32::MAX {
                    &&& result == Ok::<i32, LedgerError>((old(self)@[i].retries + 1) as i32)
                    &&& final(self)@ == old(self)@.update(i, counted(old(self)@[i], now as int))
                } else {
                    &&& result == Err::<i32, LedgerError>(LedgerError::OutOfRange)
                    &&& final(self)@ == old(self)@
                },
                None => {
                    &&& result == Err::<i32, LedgerError>(LedgerError::NoSuchEntry)
                    &&& final(self)@ == old(self)@
                },
            },
    {
        match self.find_id(id) {
            None => Err(LedgerError::NoSuchEntry),
            Some(i) => {
                let entry = &self.entries[i];
                if entry.retries == i32::MAX {
                    return Err(LedgerError::OutOfRange);
                }
                let count = entry.retries + 1;
                let updated = DbFailedAudioTranscription {
                    id: entry.id,
                    audio_id: entry.audio_id,
                    retries: count,
                    language: entry.language.clone(),
                    created_at: entry.created_at,
                    last_retry_at: Some(now),
                };
                self.entries.set(i, updated);
                proof {
                    assert(self@ =~= old(self)@.update(
                        i as int,
                        counted(old(self)@[i as int], now as int),
                    ));
                }
                Ok(count)
            },
        }
    }

    /// Removes the entry `id` and says whether there was one.
    pub fn delete(&mut self, id: i32) -> (removed: bool)
        requires
            old(self).wf(),
        ensures
            final(self).wf(),
            final(self).next_id() == old(self).next_id(),
            match position_of_id(old(self)@, id as int) {
                Some(i) => removed && final(self)@ == old(self)@.remove(i),
                None => !removed && final(self)@ == old(self)@,
            },
    {
        match self.find_id(id) {
            None => false,
            Some(i) => {
                let _ = self.entries.remove(i);
                proof {
                    assert(self@ =~= old(self)@.remove(i as int));
                }
                true
            },
        }
    }

    /// All entries, in the order of their ids.
    pub fn list_all(&self) -> (entries: Vec<DbFailedAudioTranscription>)
        requires
            self.wf(),
        ensures
            entry_views(entries@) == self@,
            ledger_ok(entry_views(entries@)),
    {
        let mut entries: Vec<DbFailedAudioTranscription> = Vec::new();
        let mut i: usize = 0;
        while i < self.entries.len()
            invariant
                i <= self.entries.len(),
                entries@.len() == i,
                forall|k: int| 0 <= k < i ==> (#[trigger] entries@[k])@ == self.entries@[k]@,
            decreases self.entries.len() - i,
        {
            entries.push(self.entries[i].duplicate());
            i = i + 1;
        }
        proof {
            assert(entry_views(entries@) =~= self@);
        }
        entries
    }
}

} // verus!
