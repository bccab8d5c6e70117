//! The chain of a player: the player's records in the order in which they
//! were committed, each linked to the one before it.

use crate::elo_rating::rating_inputs_spec;
use crate::elo_rating_system::EloRating;
use crate::game_result::handlers::assembled;
use crate::game_result::{link_to, rating_from_head, CommittedResultView};
use crate::score::Score;
use vstd::prelude::*;

verus! {

/// The head of a chain: its last record, or none for an empty chain.
pub open spec fn head_of(records: Seq<CommittedResultView>) -> Option<CommittedResultView> {
    if records.len() == 0 {
        None
    } else {
        Some(records.last())
    }
}

/// Whether the record names `agent` and declares `previous` as the agent's
/// previous record.
pub open spec fn declares(
    record: CommittedResultView,
    agent: Seq<u8>,
    previous: Option<Seq<u8>>,
) -> bool {
    match record.game_result.update_for(agent) {
        Some(update) => update.previous_game_result == previous,
        None => false,
    }
}

/// Whether `records` is a chain of `agent`: every record names the agent,
/// the first declares no previous record for the agent, and every other
/// declares the record before it.
pub open spec fn is_chain_of(agent: Seq<u8>, records: Seq<CommittedResultView>) -> bool {
    forall|i: int|
        0 <= i < records.len() ==> declares(
            #[trigger] records[i],
            agent,
            link_to(head_of(records.take(i))),
        )
}

/// Whether the record at `i` has a successor in the chain: a record that
/// declares it as the previous one of `agent`.
pub open spec fn has_successor(
    agent: Seq<u8>,
    records: Seq<CommittedResultView>,
    i: int,
) -> bool {
    exists|j: int|
        0 <= j < records.len() && declares(
            #[trigger] records[j],
            agent,
            Some(records[i].header_hash),
        )
}

/// Whether no two records of the chain have the same address.
pub open spec fn distinct_headers(records: Seq<CommittedResultView>) -> bool {
    forall|i: int, j: int|
        0 <= i < j < records.len() ==> (#[trigger] records[i]).header_hash != (
        #[trigger] records[j]).header_hash
}

/// A chain has exactly one record without a successor, its head: every
/// other record is declared by the one after it, and nothing declares the
/// last.
pub proof fn chain_has_one_head(agent: Seq<u8>, records: Seq<CommittedResultView>, i: int)
    requires
        is_chain_of(agent, records),
        distinct_headers(records),
        0 <= i < records.len(),
    ensures
        has_successor(agent, records, i) <==> i < records.len() - 1,
{
    if i < records.len() - 1 {
        assert(records.take(i + 1).last() == records[i]);
        assert(declares(records[i + 1], agent, Some(records[i].header_hash)));
    } else {
        if has_successor(agent, records, i) {
            let j = choose|j: int|
                0 <= j < records.len() && declares(
                    #[trigger] records[j],
                    agent,
                    Some(records[i].header_hash),
                );
            // The record at `j` declares the one before it, which is not the last.
            assert(j > 0);
            assert(records.take(j).last() == records[j - 1]);
            assert(records[j - 1].header_hash != records[i].header_hash);
        }
    }
}

/// A record that is built on the heads of two chains extends both: with the
/// new record at its end, each is a chain again, the new record is its head,
/// and the rating that the head gives each player is the new one.
pub proof fn building_on_the_heads_extends_both_chains(
    game_info: Seq<u8>,
    player_a: Seq<u8>,
    player_b: Seq<u8>,
    score_a: Score,
    chain_a: Seq<CommittedResultView>,
    chain_b: Seq<CommittedResultView>,
    header_hash: Seq<u8>,
    initial: EloRating,
    k: u32,
    ratings: (EloRating, EloRating),
)
    requires
        is_chain_of(player_a, chain_a),
        is_chain_of(player_b, chain_b),
        rating_inputs_spec(
            player_a,
            player_b,
            score_a,
            head_of(chain_a),
            head_of(chain_b),
            initial,
            k,
        ) is Ok,
    ensures
        ({
            let committed = CommittedResultView {
                header_hash,
                game_result: assembled(
                    game_info,
                    player_a,
                    player_b,
                    score_a,
                    head_of(chain_a),
                    head_of(chain_b),
                    ratings,
                ),
            };
            &&& is_chain_of(player_a, chain_a.push(committed))
            &&& is_chain_of(player_b, chain_b.push(committed))
            &&& head_of(chain_a.push(committed)) == Some(committed)
            &&& head_of(chain_b.push(committed)) == Some(committed)
            &&& rating_from_head(player_a, head_of(chain_a.push(committed)), initial as int)
                == Some(ratings.0 as int)
            &&& rating_from_head(player_b, head_of(chain_b.push(committed)), initial as int)
                == Some(ratings.1 as int)
        }),
{
    let committed = CommittedResultView {
        header_hash,
        game_result: assembled(
            game_info,
            player_a,
            player_b,
            score_a,
            head_of(chain_a),
            head_of(chain_b),
            ratings,
        ),
    };
    lemma_chain_grows(player_a, chain_a, committed);
    lemma_chain_grows(player_b, chain_b, committed);
}

/// A chain with a record at its end that names the player and declares the
/// head is a chain.
pub proof fn lemma_chain_grows(
    agent: Seq<u8>,
    records: Seq<CommittedResultView>,
    next: CommittedResultView,
)
    requires
        is_chain_of(agent, records),
        declares(next, agent, link_to(head_of(records))),
    ensures
        is_chain_of(agent, records.push(next)),
{
    let longer = records.push(next);
    assert forall|i: int| 0 <= i < longer.len() implies declares(
        #[trigger] longer[i],
        agent,
        link_to(head_of(longer.take(i))),
    ) by {
        if i < records.len() {
            assert(longer[i] == records[i]);
            assert(longer.take(i) =~= records.take(i));
        } else {
            assert(longer.take(i) =~= records);
        }
    }
}

} // verus!
