//! The ranking as the ledger uses it: what a new rating changes in it, what
//! a reader asks of it, and the rows of a leaderboard made of what it
//! returns. The ranking itself is kept by the caller in its store.
//!
//! A participant enters the ranking on joining, and every record of the
//! participant's chain takes the entry before it away and puts its own in,
//! so that the ranking holds one entry for each participant, at the latest
//! rating.

use crate::elo_rating_system::EloRating;
use crate::error::EloError;
use crate::identity::{ContentHash, Participant};
use vstd::prelude::*;

verus! {

/// The name under which the ranking is kept.
pub const ELO_RANKING_INDEX_NAME: &'static str = "elo_ranking";

/// The width of one interval of ratings in the ranking.
pub const ELO_RANKING_INDEX_INTERVAL: u64 = 200;

/// What a reader of the ranking asks for: at most about `agent_count`
/// participants, from the rating `from_elo` downwards, or from the top.
#[derive(Clone, Copy, Debug)]
pub struct GetEloRankingChunkInput {
    pub from_elo: Option<usize>,
    pub agent_count: usize,
}

/// One entry of the ranking to take away: the record that brought the
/// rating, and the rating.
#[derive(Debug)]
pub struct RankingRemoval {
    pub entry_hash: ContentHash,
    pub rating: i64,
}

/// One entry of the ranking: the participant, the rating, and the record
/// that brought it.
#[derive(Debug)]
pub struct RankingEntry {
    pub agent: Participant,
    pub rating: i64,
    pub entry_hash: ContentHash,
}

/// A [`RankingEntry`] as a mathematical value.
pub struct RankingEntryView {
    pub agent: Seq<u8>,
    pub rating: int,
    pub entry_hash: Seq<u8>,
}

impl View for RankingEntry {
    type V = RankingEntryView;

    open spec fn view(&self) -> RankingEntryView {
        RankingEntryView {
            agent: self.agent@,
            rating: self.rating as int,
            entry_hash: self.entry_hash@,
        }
    }
}

/// What a new rating changes in the ranking: the entry to take away, if the
/// participant had a rating before, and the entry to put in.
#[derive(Debug)]
pub struct RankingUpdate {
    pub remove: Option<RankingRemoval>,
    pub insert: RankingEntry,
}

/// A [`RankingUpdate`] as a mathematical value: the entry to take away, by
/// the record that brought it and its rating, and the entry to put in.
pub struct RankingUpdateView {
    pub remove: Option<(Seq<u8>, int)>,
    pub insert: RankingEntryView,
}

/// The view of an entry to take away.
pub open spec fn view_removal(removal: Option<RankingRemoval>) -> Option<(Seq<u8>, int)> {
    match removal {
        Some(r) => Some((r.entry_hash@, r.rating as int)),
        None => None,
    }
}

impl View for RankingUpdate {
    type V = RankingUpdateView;

    open spec fn view(&self) -> RankingUpdateView {
        RankingUpdateView { remove: view_removal(self.remove), insert: self.insert@ }
    }
}

/// What a new rating changes in the ranking: the entry `previous`, given by
/// the record that brought it and its rating, leaves, and the entry of
/// `agent` at `rating`, brought by the record `entry_hash`, comes in.
pub open spec fn ranking_update(
    agent: Seq<u8>,
    previous: Option<(Seq<u8>, int)>,
    entry_hash: Seq<u8>,
    rating: int,
) -> RankingUpdateView {
    RankingUpdateView { remove: previous, insert: RankingEntryView { agent, rating, entry_hash } }
}

/// Says what the new rating of `agent_pub_key`, brought by the record
/// `game_result_hash`, changes in the ranking. `previous_rating` is the
/// participant's rating before, with what brought it; `None` only for a
/// participant who is joining.
pub fn put_elo_rating_in_ranking(
    game_result_hash: ContentHash,
    agent_pub_key: Participant,
    previous_rating: Option<(ContentHash, EloRating)>,
    new_rating: EloRating,
) -> (update: RankingUpdate)
    ensures
        update@ == ranking_update(
            agent_pub_key@,
            match previous_rating {
                Some((hash, rating)) => Some((hash@, rating as int)),
                None => None,
            },
            game_result_hash@,
            new_rating as int,
        ),
{
    let remove = match previous_rating {
        Some((hash, rating)) => Some(RankingRemoval { entry_hash: hash, rating: rating as i64 }),
        None => None,
    };
    RankingUpdate {
        remove,
        insert: RankingEntry {
            agent: agent_pub_key,
            rating: new_rating as i64,
            entry_hash: game_result_hash,
        },
    }
}

/// The entries that belong to `agent`, in their order.
pub open spec fn entries_of(entries: Seq<RankingEntryView>, agent: Seq<u8>) -> Seq<
    RankingEntryView,
>
    decreases entries.len(),
{
    if entries.len() == 0 {
        Seq::empty()
    } else {
        let rest = entries_of(entries.drop_last(), agent);
        if entries.last().agent == agent {
            rest.push(entries.last())
        } else {
            rest
        }
    }
}

/// The ranking without the entries that the record `entry_hash` brought at
/// `rating`.
pub open spec fn without_entry(
    entries: Seq<RankingEntryView>,
    entry_hash: Seq<u8>,
    rating: int,
) -> Seq<RankingEntryView>
    decreases entries.len(),
{
    if entries.len() == 0 {
        Seq::empty()
    } else {
        let rest = without_entry(entries.drop_last(), entry_hash, rating);
        if entries.last().entry_hash == entry_hash && entries.last().rating == rating {
            rest
        } else {
            rest.push(entries.last())
        }
    }
}

/// The ranking after an update was carried out: the entry that the update
/// names is taken away, then the new entry is put in.
pub open spec fn ranking_after(
    entries: Seq<RankingEntryView>,
    update: RankingUpdateView,
) -> Seq<RankingEntryView> {
    match update.remove {
        Some((entry_hash, rating)) => without_entry(entries, entry_hash, rating).push(
            update.insert,
        ),
        None => entries.push(update.insert),
    }
}

/// What brought the rating that `agent` holds after joining and the given
/// records: the last record, or the joining where there is none yet.
pub open spec fn latest_of(joined: (Seq<u8>, int), records: Seq<(Seq<u8>, int)>) -> (Seq<u8>, int) {
    if records.len() == 0 {
        joined
    } else {
        records.last()
    }
}

/// The ranking after `agent` joined and the records of the agent's chain
/// were indexed in the order of the chain, each once. `joined` is the
/// content address of the agent's key and the initial rating; each record is
/// given by its content address and the rating that it gives the agent.
pub open spec fn ranking_after_records(
    entries: Seq<RankingEntryView>,
    agent: Seq<u8>,
    joined: (Seq<u8>, int),
    records: Seq<(Seq<u8>, int)>,
) -> Seq<RankingEntryView>
    decreases records.len(),
{
    if records.len() == 0 {
        ranking_after(entries, ranking_update(agent, None, joined.0, joined.1))
    } else {
        ranking_after(
            ranking_after_records(entries, agent, joined, records.drop_last()),
            ranking_update(
                agent,
                Some(latest_of(joined, records.drop_last())),
                records.last().0,
                records.last().1,
            ),
        )
    }
}

/// Taking an entry away from the ranking takes it away from the entries of
/// each participant, and nothing else.
pub proof fn lemma_without_entry_of_agent(
    entries: Seq<RankingEntryView>,
    agent: Seq<u8>,
    entry_hash: Seq<u8>,
    rating: int,
)
    ensures
        entries_of(without_entry(entries, entry_hash, rating), agent) == without_entry(
            entries_of(entries, agent),
            entry_hash,
            rating,
        ),
    decreases entries.len(),
{
    if entries.len() > 0 {
        let front = entries.drop_last();
        lemma_without_entry_of_agent(front, agent, entry_hash, rating);
        let last = entries.last();
        let kept = without_entry(front, entry_hash, rating);
        let mine = entries_of(front, agent);
        let named = last.entry_hash == entry_hash && last.rating == rating;
        if !named {
            assert(kept.push(last).drop_last() =~= kept);
        }
        if last.agent == agent {
            assert(mine.push(last).drop_last() =~= mine);
        }
    }
}

/// After a participant has joined and any number of records of the
/// participant's chain were indexed in the order of the chain, the ranking
/// holds exactly one entry for the participant: that of the latest record,
/// at the latest rating, or that of the joining where no record was indexed
/// yet. The entry of the joining and those of the earlier records are gone.
/// This holds of every ranking that held no entry of the participant before
/// the joining.
pub proof fn one_entry_after_joining_and_records(
    entries: Seq<RankingEntryView>,
    agent: Seq<u8>,
    joined: (Seq<u8>, int),
    records: Seq<(Seq<u8>, int)>,
)
    requires
        entries_of(entries, agent).len() == 0,
    ensures
        entries_of(ranking_after_records(entries, agent, joined, records), agent) == seq![
            RankingEntryView {
                agent,
                rating: latest_of(joined, records).1,
                entry_hash: latest_of(joined, records).0,
            },
        ],
    decreases records.len(),
{
    if records.len() == 0 {
        let entry = RankingEntryView { agent, rating: joined.1, entry_hash: joined.0 };
        assert(entries.push(entry).drop_last() =~= entries);
        assert(entries_of(entries, agent) =~= Seq::empty());
        assert(Seq::<RankingEntryView>::empty().push(entry) =~= seq![entry]);
    } else {
        let before = ranking_after_records(entries, agent, joined, records.drop_last());
        one_entry_after_joining_and_records(entries, agent, joined, records.drop_last());
        let was = latest_of(joined, records.drop_last());
        let old_entry = RankingEntryView { agent, rating: was.1, entry_hash: was.0 };
        let new_entry = RankingEntryView {
            agent,
            rating: records.last().1,
            entry_hash: records.last().0,
        };
        lemma_without_entry_of_agent(before, agent, was.0, was.1);
        let swept = without_entry(before, was.0, was.1);
        // The one entry of the participant is the one that the update names.
        let single = seq![old_entry];
        let none = Seq::<RankingEntryView>::empty();
        assert(single.drop_last() =~= none);
        assert(single.last() == old_entry);
        assert(without_entry(none, was.0, was.1) =~= none);
        assert(without_entry(single.drop_last(), was.0, was.1) =~= none);
        assert(without_entry(single, was.0, was.1) =~= none);
        assert(swept.push(new_entry).drop_last() =~= swept);
        assert(Seq::<RankingEntryView>::empty().push(new_entry) =~= seq![new_entry]);
    }
}

/// A question to the ranking: at most about `count` participants, in
/// descending order of rating, from the rating `cursor` downwards or from
/// the top.
#[derive(Clone, Copy, Debug, PartialEq, Eq, Structural)]
pub struct RankingQuery {
    pub descending: bool,
    pub count: usize,
    pub cursor: Option<i64>,
}

/// The question that a reader's request puts to the ranking. A rating above
/// every rating that the ranking can hold asks from the top of its range.
pub fn ranking_query(input: GetEloRankingChunkInput) -> (query: RankingQuery)
    ensures
        query.descending,
        query.count == input.agent_count,
        match input.from_elo {
            None => query.cursor is None,
            Some(elo) => query.cursor == Some(
                if elo <= i64::MAX {
                    elo as i64
                } else {
                    i64::MAX
                },
            ),
        },
{
    let cursor = match input.from_elo {
        None => None,
        Some(elo) => {
            let wide: u64 = elo as u64;
            if wide <= 0x7FFF_FFFF_FFFF_FFFF {
                Some(wide as i64)
            } else {
                Some(i64::MAX)
            }
        },
    };
    RankingQuery { descending: true, count: input.agent_count, cursor }
}

/// What an entry of the ranking says of its participant.
#[derive(Debug)]
pub enum RankingTag {
    /// The entry names no participant.
    Missing,
    /// The entry names this participant.
    Agent(Participant),
    /// The entry carries a name that cannot be read.
    Unreadable,
}

/// The entries that the ranking returned for one rating.
#[derive(Debug)]
pub struct RankingGroup {
    pub ranking: i64,
    pub tags: Vec<RankingTag>,
}

/// One row of a leaderboard: a rating, and the participants who hold it.
#[derive(Debug)]
pub struct EloRankingRow {
    pub rating: i64,
    pub agents: Vec<Participant>,
}

/// The participants of a list as mathematical values.
pub open spec fn view_agents(agents: Seq<Participant>) -> Seq<Seq<u8>> {
    agents.map_values(|p: Participant| p@)
}

/// The participants that the entries name, in their order. An entry
/// without a name is passed over; a name that cannot be read fails the
/// reading.
pub open spec fn tagged_agents(tags: Seq<RankingTag>) -> Result<Seq<Seq<u8>>, EloError>
    decreases tags.len(),
{
    if tags.len() == 0 {
        Ok(Seq::empty())
    } else {
        match tagged_agents(tags.drop_last()) {
            Err(e) => Err(e),
            Ok(rest) => match tags.last() {
                RankingTag::Missing => Ok(rest),
                RankingTag::Agent(p) => Ok(rest.push(p@)),
                RankingTag::Unreadable => Err(EloError::MalformedRecord),
            },
        }
    }
}

/// A reading that fails on the first `k` entries fails on all of them.
pub proof fn lemma_tagged_agents_fail_on(tags: Seq<RankingTag>, k: int)
    requires
        0 <= k <= tags.len(),
        tagged_agents(tags.take(k)) is Err,
    ensures
        tagged_agents(tags) == tagged_agents(tags.take(k)),
    decreases tags.len() - k,
{
    if k == tags.len() {
        assert(tags.take(k) =~= tags);
    } else {
        assert(tags.take(k + 1).drop_last() =~= tags.take(k));
        lemma_tagged_agents_fail_on(tags, k + 1);
    }
}

/// The participants that the entries of one rating name.
pub fn agents_of_group(tags: &Vec<RankingTag>) -> (agents: Result<Vec<Participant>, EloError>)
    ensures
        match tagged_agents(tags@) {
            Ok(list) => agents matches Ok(a) && view_agents(a@) == list,
            Err(e) => agents matches Err(f) && f == e,
        },
{
    let mut agents: Vec<Participant> = Vec::new();
    let n: usize = tags.len();
    let mut i: usize = 0;
    assert(tags@.take(0) =~= Seq::empty());
    assert(view_agents(agents@) =~= Seq::empty());
    while i < n
        invariant
            n == tags@.len(),
            i <= n,
            tagged_agents(tags@.take(i as int)) == Ok::<Seq<Seq<u8>>, EloError>(
                view_agents(agents@),
            ),
        decreases n - i,
    {
        let ghost before = view_agents(agents@);
        assert(tags@.take(i + 1).drop_last() =~= tags@.take(i as int));
        assert(tags@.take(i + 1).last() == tags@[i as int]);
        match &tags[i] {
            RankingTag::Missing => {},
            RankingTag::Agent(p) => {
                agents.push(p.duplicate());
                assert(view_agents(agents@) =~= before.push(p@));
            },
            RankingTag::Unreadable => {
                proof {
                    lemma_tagged_agents_fail_on(tags@, i + 1);
                }
                return Err(EloError::MalformedRecord);
            },
        }
        i = i + 1;
    }
    assert(tags@.take(n as int) =~= tags@);
    Ok(agents)
}

/// Turns what the ranking returned into the rows of a leaderboard: one row
/// for each rating, in the order in which the ranking gave them, with the
/// participants that its entries name. Fails with `MalformedRecord` exactly
/// if some entry carries a name that cannot be read.
pub fn get_elo_ranking_chunk(chunk: &Vec<RankingGroup>) -> (ranking: Result<
    Vec<EloRankingRow>,
    EloError,
>)
    ensures
        ranking matches Ok(rows) ==> {
            &&& rows@.len() == chunk@.len()
            &&& forall|i: int|
                0 <= i < rows@.len() ==> {
                    &&& (#[trigger] rows@[i]).rating == chunk@[i].ranking
                    &&& tagged_agents(chunk@[i].tags@) == Ok::<Seq<Seq<u8>>, EloError>(
                        view_agents(rows@[i].agents@),
                    )
                }
        },
        ranking matches Err(e) ==> e == EloError::MalformedRecord,
        ranking is Err <==> exists|i: int|
            0 <= i < chunk@.len() && tagged_agents((#[trigger] chunk@[i]).tags@) is Err,
{
    let mut rows: Vec<EloRankingRow> = Vec::new();
    let n: usize = chunk.len();
    let mut i: usize = 0;
    while i < n
        invariant
            n == chunk@.len(),
            i <= n,
            rows@.len() == i,
            forall|j: int|
                0 <= j < i ==> {
                    &&& (#[trigger] rows@[j]).rating == chunk@[j].ranking
                    &&& tagged_agents(chunk@[j].tags@) == Ok::<Seq<Seq<u8>>, EloError>(
                        view_agents(rows@[j].agents@),
                    )
                },
        decreases n - i,
    {
        match agents_of_group(&chunk[i].tags) {
            Ok(agents) => {
                rows.push(EloRankingRow { rating: chunk[i].ranking, agents });
            },
            Err(_) => {
                assert(tagged_agents(chunk@[i as int].tags@) is Err);
                return Err(EloError::MalformedRecord);
            },
        }
        i = i + 1;
    }
    assert forall|k: int| 0 <= k < chunk@.len() implies !(tagged_agents(
        (#[trigger] chunk@[k]).tags@,
    ) is Err) by {
        assert(rows@[k].rating == chunk@[k].ranking);
    }
    Ok(rows)
}

} // verus!
