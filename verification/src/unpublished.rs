//! The results that wait: games that are finished and whose record could
//! not be committed with the counterparty yet. They are kept by the
//! initiator alone and tried again from time to time.

use crate::countersigning::sender::CreateGameResultOutcome;
use crate::error::EloError;
use crate::identity::{
    bytes_copy, bytes_equal, contains_hash, view_hashes, ContentHash, Participant,
};
use crate::score::Score;
use vstd::prelude::*;

verus! {

/// A finished game whose record is not committed yet.
#[derive(Debug)]
pub struct UnpublishedGameResult {
    /// What the game itself recorded, opaque to the ledger.
    pub game_info: Vec<u8>,
    pub opponent_address: Participant,
    /// The score of the player who keeps this entry.
    pub my_score: Score,
}

/// An [`UnpublishedGameResult`] as a mathematical value.
pub struct UnpublishedGameResultView {
    pub game_info: Seq<u8>,
    pub opponent_address: Seq<u8>,
    pub my_score: Score,
}

impl View for UnpublishedGameResult {
    type V = UnpublishedGameResultView;

    open spec fn view(&self) -> UnpublishedGameResultView {
        UnpublishedGameResultView {
            game_info: self.game_info@,
            opponent_address: self.opponent_address@,
            my_score: self.my_score,
        }
    }
}

impl UnpublishedGameResult {
    pub fn duplicate(&self) -> (copy: UnpublishedGameResult)
        ensures
            copy@ == self@,
    {
        UnpublishedGameResult {
            game_info: bytes_copy(&self.game_info),
            opponent_address: self.opponent_address.duplicate(),
            my_score: self.my_score,
        }
    }

    /// Whether both stand for the same game facts.
    pub fn same(&self, other: &UnpublishedGameResult) -> (same: bool)
        ensures
            same == (self@ == other@),
    {
        bytes_equal(&self.game_info, &other.game_info) && self.opponent_address.same(
            &other.opponent_address,
        ) && self.my_score.bits == other.my_score.bits
    }
}

/// A result that waits, under the address that the store gave it.
#[derive(Debug)]
pub struct PendingEntry {
    pub id: ContentHash,
    pub pending: UnpublishedGameResult,
}

/// A [`PendingEntry`] as a mathematical value.
pub struct PendingEntryView {
    pub id: Seq<u8>,
    pub pending: UnpublishedGameResultView,
}

impl View for PendingEntry {
    type V = PendingEntryView;

    open spec fn view(&self) -> PendingEntryView {
        PendingEntryView { id: self.id@, pending: self.pending@ }
    }
}

impl PendingEntry {
    pub fn duplicate(&self) -> (copy: PendingEntry)
        ensures
            copy@ == self@,
    {
        PendingEntry { id: self.id.duplicate(), pending: self.pending.duplicate() }
    }
}

/// The entries of a list as mathematical values.
pub open spec fn view_entries(entries: Seq<PendingEntry>) -> Seq<PendingEntryView> {
    entries.map_values(|e: PendingEntry| e@)
}

/// The addresses of the entries, in their order.
pub open spec fn ids_of(entries: Seq<PendingEntryView>) -> Seq<Seq<u8>> {
    entries.map_values(|e: PendingEntryView| e.id)
}

/// Whether no two entries have the same address.
pub open spec fn distinct_ids(entries: Seq<PendingEntryView>) -> bool {
    forall|i: int, j: int|
        0 <= i < j < entries.len() ==> (#[trigger] entries[i]).id != (#[trigger] entries[j]).id
}

/// The entries whose address is none of `ids`, in their order.
pub open spec fn without(entries: Seq<PendingEntryView>, ids: Seq<Seq<u8>>) -> Seq<
    PendingEntryView,
>
    decreases entries.len(),
{
    if entries.len() == 0 {
        Seq::empty()
    } else {
        let rest = without(entries.drop_last(), ids);
        if ids.contains(entries.last().id) {
            rest
        } else {
            rest.push(entries.last())
        }
    }
}

/// The addresses of the entries whose address is one of `ids`, in the order
/// of the entries.
pub open spec fn removed_ids(entries: Seq<PendingEntryView>, ids: Seq<Seq<u8>>) -> Seq<Seq<u8>>
    decreases entries.len(),
{
    if entries.len() == 0 {
        Seq::empty()
    } else {
        let rest = removed_ids(entries.drop_last(), ids);
        if ids.contains(entries.last().id) {
            rest.push(entries.last().id)
        } else {
            rest
        }
    }
}

/// The entries whose address is none of `ids`, in their order.
pub fn entries_without(entries: &Vec<PendingEntry>, ids: &Vec<ContentHash>) -> (kept: Vec<
    PendingEntry,
>)
    ensures
        view_entries(kept@) == without(view_entries(entries@), view_hashes(ids@)),
{
    let mut kept: Vec<PendingEntry> = Vec::new();
    let n: usize = entries.len();
    let mut i: usize = 0;
    assert(view_entries(entries@).take(0) =~= Seq::empty());
    assert(view_entries(kept@) =~= Seq::empty());
    while i < n
        invariant
            n == entries@.len(),
            i <= n,
            view_entries(kept@) == without(
                view_entries(entries@).take(i as int),
                view_hashes(ids@),
            ),
        decreases n - i,
    {
        let ghost all = view_entries(entries@);
        let ghost before = view_entries(kept@);
        assert(all.take(i + 1).drop_last() =~= all.take(i as int));
        assert(all.take(i + 1).last() == entries@[i as int]@);
        if !contains_hash(ids, &entries[i].id) {
            kept.push(entries[i].duplicate());
            assert(view_entries(kept@) =~= before.push(entries@[i as int]@));
        }
        i = i + 1;
    }
    assert(view_entries(entries@).take(n as int) =~= view_entries(entries@));
    kept
}

/// The results that still wait: those that were created and not deleted
/// since. `created` holds every entry that was ever created, `deleted` the
/// addresses of those that were deleted after they had been published.
pub fn get_unpublished_game_results(
    created: &Vec<PendingEntry>,
    deleted: &Vec<ContentHash>,
) -> (waiting: Vec<PendingEntry>)
    ensures
        view_entries(waiting@) == without(view_entries(created@), view_hashes(deleted@)),
{
    entries_without(created, deleted)
}

/// The end of one attempt to publish a result that waited.
#[derive(Debug)]
pub struct Attempt {
    /// The address of the entry that was tried.
    pub id: ContentHash,
    pub outcome: Result<CreateGameResultOutcome, EloError>,
}

/// Whether the attempt committed a record.
pub open spec fn succeeded(attempt: Attempt) -> bool {
    attempt.outcome matches Ok(CreateGameResultOutcome::Published { .. })
}

/// The addresses of the entries whose attempt committed a record, in the
/// order of the attempts.
pub open spec fn published_ids(attempts: Seq<Attempt>) -> Seq<Seq<u8>>
    decreases attempts.len(),
{
    if attempts.len() == 0 {
        Seq::empty()
    } else {
        let rest = published_ids(attempts.drop_last());
        if succeeded(attempts.last()) {
            rest.push(attempts.last().id@)
        } else {
            rest
        }
    }
}

/// The queue of the results that wait. No two entries have the same address.
#[derive(Debug)]
pub struct PendingResultStore {
    pub entries: Vec<PendingEntry>,
}

impl View for PendingResultStore {
    type V = Seq<PendingEntryView>;

    open spec fn view(&self) -> Seq<PendingEntryView> {
        view_entries(self.entries@)
    }
}

impl PendingResultStore {
    /// Whether no two entries have the same address.
    pub open spec fn well_formed(&self) -> bool {
        distinct_ids(self@)
    }

    /// An empty queue.
    pub fn new() -> (store: PendingResultStore)
        ensures
            store@ == Seq::<PendingEntryView>::empty(),
            store.well_formed(),
    {
        let store = PendingResultStore { entries: Vec::new() };
        assert(store@ =~= Seq::<PendingEntryView>::empty());
        store
    }

    /// The number of results that wait.
    pub fn len(&self) -> (n: usize)
        ensures
            n == self@.len(),
    {
        self.entries.len()
    }

    /// Whether a result waits under the address `id`.
    pub fn contains(&self, id: &ContentHash) -> (found: bool)
        ensures
            found == ids_of(self@).contains(id@),
    {
        let n: usize = self.entries.len();
        let mut i: usize = 0;
        while i < n
            invariant
                n == self.entries@.len(),
                i <= n,
                forall|j: int| 0 <= j < i ==> ids_of(self@)[j] != id@,
            decreases n - i,
        {
            if self.entries[i].id.same(id) {
                assert(ids_of(self@)[i as int] == id@);
                return true;
            }
            i = i + 1;
        }
        false
    }

    /// Appends a result that waits, under the address `id` that the store
    /// gave it. An address that is already in the queue is not added again.
    pub fn create(
        &mut self,
        id: ContentHash,
        game_info: Vec<u8>,
        opponent_address: Participant,
        my_score: Score,
    ) -> (added: bool)
        requires
            old(self).well_formed(),
        ensures
            final(self).well_formed(),
            added == !ids_of(old(self)@).contains(id@),
            added ==> final(self)@ == old(self)@.push(
                PendingEntryView {
                    id: id@,
                    pending: UnpublishedGameResultView {
                        game_info: game_info@,
                        opponent_address: opponent_address@,
                        my_score,
                    },
                },
            ),
            !added ==> final(self)@ == old(self)@,
    {
        if self.contains(&id) {
            return false;
        }
        let ghost before = self@;
        let ghost entry = PendingEntryView {
            id: id@,
            pending: UnpublishedGameResultView {
                game_info: game_info@,
                opponent_address: opponent_address@,
                my_score,
            },
        };
        self.entries.push(
            PendingEntry {
                id,
                pending: UnpublishedGameResult { game_info, opponent_address, my_score },
            },
        );
        assert(self@ =~= before.push(entry));
        assert forall|i: int, j: int| 0 <= i < j < self@.len() implies (#[trigger] self@[i]).id
            != (#[trigger] self@[j]).id by {
            if j == before.len() {
                assert(ids_of(before)[i] == before[i].id);
            } else {
                assert(before[i].id != before[j].id);
            }
        }
        true
    }

    /// Takes the outcomes of one round of attempts: every entry whose
    /// attempt committed a record leaves the queue, every other entry stays,
    /// in its place. Returns the addresses of the entries that left, for the
    /// caller to delete them from its store.
    pub fn resolve_all(&mut self, attempts: &Vec<Attempt>) -> (deleted: Vec<ContentHash>)
        requires
            old(self).well_formed(),
        ensures
            final(self).well_formed(),
            final(self)@ == without(old(self)@, published_ids(attempts@)),
            view_hashes(deleted@) == removed_ids(old(self)@, published_ids(attempts@)),
    {
        let published = collect_published(attempts);
        let deleted = matching_ids(&self.entries, &published);
        let kept = entries_without(&self.entries, &published);
        proof {
            lemma_without_keeps_distinct(self@, view_hashes(published@));
        }
        self.entries = kept;
        deleted
    }
}

/// The addresses of the entries whose attempt committed a record.
fn collect_published(attempts: &Vec<Attempt>) -> (ids: Vec<ContentHash>)
    ensures
        view_hashes(ids@) == published_ids(attempts@),
{
    let mut ids: Vec<ContentHash> = Vec::new();
    let n: usize = attempts.len();
    let mut i: usize = 0;
    assert(attempts@.take(0) =~= Seq::empty());
    assert(view_hashes(ids@) =~= Seq::empty());
    while i < n
        invariant
            n == attempts@.len(),
            i <= n,
            view_hashes(ids@) == published_ids(attempts@.take(i as int)),
        decreases n - i,
    {
        let ghost before = view_hashes(ids@);
        assert(attempts@.take(i + 1).drop_last() =~= attempts@.take(i as int));
        assert(attempts@.take(i + 1).last() == attempts@[i as int]);
        match &attempts[i].outcome {
            Ok(CreateGameResultOutcome::Published { .. }) => {
                ids.push(attempts[i].id.duplicate());
                assert(view_hashes(ids@) =~= before.push(attempts@[i as int].id@));
            },
            _ => {},
        }
        i = i + 1;
    }
    assert(attempts@.take(n as int) =~= attempts@);
    ids
}

/// The addresses of the entries whose address is one of `ids`.
fn matching_ids(entries: &Vec<PendingEntry>, ids: &Vec<ContentHash>) -> (found: Vec<ContentHash>)
    ensures
        view_hashes(found@) == removed_ids(view_entries(entries@), view_hashes(ids@)),
{
    let mut found: Vec<ContentHash> = Vec::new();
    let n: usize = entries.len();
    let mut i: usize = 0;
    assert(view_entries(entries@).take(0) =~= Seq::empty());
    assert(view_hashes(found@) =~= Seq::empty());
    while i < n
        invariant
            n == entries@.len(),
            i <= n,
            view_hashes(found@) == removed_ids(
                view_entries(entries@).take(i as int),
                view_hashes(ids@),
            ),
        decreases n - i,
    {
        let ghost all = view_entries(entries@);
        let ghost before = view_hashes(found@);
        assert(all.take(i + 1).drop_last() =~= all.take(i as int));
        assert(all.take(i + 1).last() == entries@[i as int]@);
        if contains_hash(ids, &entries[i].id) {
            found.push(entries[i].id.duplicate());
            assert(view_hashes(found@) =~= before.push(entries@[i as int].id@));
        }
        i = i + 1;
    }
    assert(view_entries(entries@).take(n as int) =~= view_entries(entries@));
    found
}

/// Every entry that is left was there before, and none of `ids` is left.
pub proof fn lemma_without_is_part(entries: Seq<PendingEntryView>, ids: Seq<Seq<u8>>)
    ensures
        forall|k: int|
            0 <= k < without(entries, ids).len() ==> entries.contains(
                #[trigger] without(entries, ids)[k],
            ) && !ids.contains(without(entries, ids)[k].id),
        without(entries, ids).len() <= entries.len(),
    decreases entries.len(),
{
    if entries.len() > 0 {
        lemma_without_is_part(entries.drop_last(), ids);
        let rest = without(entries.drop_last(), ids);
        assert forall|k: int| 0 <= k < without(entries, ids).len() implies entries.contains(
            #[trigger] without(entries, ids)[k],
        ) && !ids.contains(without(entries, ids)[k].id) by {
            if k < rest.len() {
                let x = rest[k];
                assert(entries.drop_last().contains(x));
                let j = choose|j: int| 0 <= j < entries.drop_last().len() && entries.drop_last()[j] == x;
                assert(entries[j] == x);
            } else {
                assert(without(entries, ids)[k] == entries.last());
                assert(entries[entries.len() - 1] == entries.last());
            }
        }
    }
}

/// Taking entries out of a queue without doubles leaves it without doubles.
pub proof fn lemma_without_keeps_distinct(entries: Seq<PendingEntryView>, ids: Seq<Seq<u8>>)
    requires
        distinct_ids(entries),
    ensures
        distinct_ids(without(entries, ids)),
    decreases entries.len(),
{
    if entries.len() > 0 {
        let front = entries.drop_last();
        assert(distinct_ids(front)) by {
            assert forall|i: int, j: int| 0 <= i < j < front.len() implies (#[trigger] front[i]).id
                != (#[trigger] front[j]).id by {
                assert(entries[i].id != entries[j].id);
            }
        }
        lemma_without_keeps_distinct(front, ids);
        lemma_without_is_part(front, ids);
        let rest = without(front, ids);
        let all = without(entries, ids);
        assert forall|i: int, j: int| 0 <= i < j < all.len() implies (#[trigger] all[i]).id != (
        #[trigger] all[j]).id by {
            if j < rest.len() {
                assert(rest[i].id != rest[j].id);
            } else {
                let x = rest[i];
                assert(front.contains(x));
                let m = choose|m: int| 0 <= m < front.len() && front[m] == x;
                assert(entries[m].id != entries[entries.len() - 1].id);
            }
        }
    }
}

/// A round of attempts on an empty queue changes nothing and deletes
/// nothing, whatever the attempts were.
pub proof fn resolve_all_on_empty_queue(attempts: Seq<Attempt>)
    ensures
        without(Seq::<PendingEntryView>::empty(), published_ids(attempts)) == Seq::<
            PendingEntryView,
        >::empty(),
        removed_ids(Seq::<PendingEntryView>::empty(), published_ids(attempts)) == Seq::<
            Seq<u8>,
        >::empty(),
{
}

/// Where none of the attempts committed a record, the queue stays as it is.
pub proof fn failed_attempts_leave_the_queue(entries: Seq<PendingEntryView>, ids: Seq<Seq<u8>>)
    requires
        forall|i: int| 0 <= i < entries.len() ==> !ids.contains(#[trigger] entries[i].id),
    ensures
        without(entries, ids) == entries,
        removed_ids(entries, ids) == Seq::<Seq<u8>>::empty(),
    decreases entries.len(),
{
    if entries.len() > 0 {
        let front = entries.drop_last();
        assert forall|i: int| 0 <= i < front.len() implies !ids.contains(#[trigger] front[i].id) by {
            assert(front[i] == entries[i]);
        }
        failed_attempts_leave_the_queue(front, ids);
        assert(!ids.contains(entries[entries.len() - 1].id));
        assert(front.push(entries.last()) =~= entries);
    }
}

/// One success takes exactly the entry that produced it out of the queue:
/// the queue is one shorter, the entry at `i` is gone, and the others stay
/// in their order.
pub proof fn success_deletes_exactly_its_entry(entries: Seq<PendingEntryView>, i: int)
    requires
        distinct_ids(entries),
        0 <= i < entries.len(),
    ensures
        without(entries, seq![entries[i].id]) == entries.remove(i),
        removed_ids(entries, seq![entries[i].id]) == seq![entries[i].id],
    decreases entries.len(),
{
    let ids = seq![entries[i].id];
    assert(ids[0] == entries[i].id);
    let front = entries.drop_last();
    if i == entries.len() - 1 {
        assert forall|j: int| 0 <= j < front.len() implies !ids.contains(#[trigger] front[j].id) by {
            assert(entries[j].id != entries[i].id);
        }
        failed_attempts_leave_the_queue(front, ids);
        assert(ids.contains(entries.last().id));
        assert(entries.remove(i) =~= front);
        assert(Seq::<Seq<u8>>::empty().push(entries.last().id) =~= ids);
    } else {
        assert(distinct_ids(front)) by {
            assert forall|a: int, b: int| 0 <= a < b < front.len() implies (#[trigger] front[a]).id
                != (#[trigger] front[b]).id by {
                assert(entries[a].id != entries[b].id);
            }
        }
        assert(front[i] == entries[i]);
        success_deletes_exactly_its_entry(front, i);
        assert(entries[i].id != entries[entries.len() - 1].id);
        assert(!ids.contains(entries.last().id));
        assert(front.remove(i).push(entries.last()) =~= entries.remove(i));
    }
}

/// An entry whose attempt committed a record is not in the queue
/// afterwards, so that no later round can commit a record for it again.
pub proof fn published_entry_is_gone(
    entries: Seq<PendingEntryView>,
    attempts: Seq<Attempt>,
    k: int,
)
    requires
        0 <= k < attempts.len(),
        succeeded(attempts[k]),
    ensures
        !ids_of(without(entries, published_ids(attempts))).contains(attempts[k].id@),
{
    lemma_published_ids_hold(attempts, k);
    let ids = published_ids(attempts);
    let left = without(entries, ids);
    lemma_without_is_part(entries, ids);
    if ids_of(left).contains(attempts[k].id@) {
        let j = choose|j: int| 0 <= j < ids_of(left).len() && ids_of(left)[j] == attempts[k].id@;
        assert(!ids.contains(left[j].id));
    }
}

/// The address of every attempt that committed a record is among the
/// published ones.
pub proof fn lemma_published_ids_hold(attempts: Seq<Attempt>, k: int)
    requires
        0 <= k < attempts.len(),
        succeeded(attempts[k]),
    ensures
        published_ids(attempts).contains(attempts[k].id@),
    decreases attempts.len(),
{
    let front = attempts.drop_last();
    let rest = published_ids(front);
    if k == attempts.len() - 1 {
        assert(rest.push(attempts.last().id@)[rest.len() as int] == attempts[k].id@);
    } else {
        assert(front[k] == attempts[k]);
        lemma_published_ids_hold(front, k);
        let j = choose|j: int| 0 <= j < rest.len() && rest[j] == attempts[k].id@;
        if succeeded(attempts.last()) {
            assert(rest.push(attempts.last().id@)[j] == attempts[k].id@);
        }
    }
}

} // verus!
