//! The links from a player to the player's records, put in order: each
//! record once, the earlier link first, and of two links of the same time
//! the one whose target has the smaller address.

use crate::game_result::handlers::LinkInfo;
use vstd::prelude::*;

verus! {

/// A [`LinkInfo`] as a mathematical value.
pub struct LinkInfoView {
    pub target: Seq<u8>,
    pub timestamp: int,
    pub create_link_hash: Seq<u8>,
}

impl View for LinkInfo {
    type V = LinkInfoView;

    open spec fn view(&self) -> LinkInfoView {
        LinkInfoView {
            target: self.target@,
            timestamp: self.timestamp as int,
            create_link_hash: self.create_link_hash@,
        }
    }
}

impl LinkInfo {
    pub fn duplicate(&self) -> (copy: LinkInfo)
        ensures
            copy@ == self@,
    {
        LinkInfo {
            target: self.target.duplicate(),
            timestamp: self.timestamp,
            create_link_hash: self.create_link_hash.duplicate(),
        }
    }
}

/// The links of a list as mathematical values.
pub open spec fn view_links(links: Seq<LinkInfo>) -> Seq<LinkInfoView> {
    links.map_values(|l: LinkInfo| l@)
}

/// Whether `a` comes before `b` in the order of a dictionary: at the first
/// place where they differ `a` has the smaller byte, or `a` ends there and
/// `b` goes on.
pub open spec fn bytes_before(a: Seq<u8>, b: Seq<u8>) -> bool
    decreases a.len(),
{
    if b.len() == 0 {
        false
    } else if a.len() == 0 {
        true
    } else if a[0] != b[0] {
        a[0] < b[0]
    } else {
        bytes_before(a.drop_first(), b.drop_first())
    }
}

/// No byte string comes before itself.
pub proof fn lemma_bytes_before_irreflexive(a: Seq<u8>)
    ensures
        !bytes_before(a, a),
    decreases a.len(),
{
    if a.len() > 0 {
        lemma_bytes_before_irreflexive(a.drop_first());
    }
}

/// Of two different byte strings one comes before the other.
pub proof fn lemma_bytes_before_total(a: Seq<u8>, b: Seq<u8>)
    requires
        a != b,
    ensures
        bytes_before(a, b) || bytes_before(b, a),
    decreases a.len(),
{
    if a.len() == 0 || b.len() == 0 {
        if a.len() == 0 && b.len() == 0 {
            assert(a =~= b);
        }
    } else if a[0] == b[0] {
        if a.drop_first() == b.drop_first() {
            assert(a =~= seq![a[0]] + a.drop_first());
            assert(b =~= seq![b[0]] + b.drop_first());
        }
        lemma_bytes_before_total(a.drop_first(), b.drop_first());
    }
}

/// What comes before something that comes before a third comes before the
/// third.
pub proof fn lemma_bytes_before_transitive(a: Seq<u8>, b: Seq<u8>, c: Seq<u8>)
    requires
        bytes_before(a, b),
        bytes_before(b, c),
    ensures
        bytes_before(a, c),
    decreases a.len(),
{
    if a.len() > 0 && a[0] == b[0] && b[0] == c[0] {
        lemma_bytes_before_transitive(a.drop_first(), b.drop_first(), c.drop_first());
    }
}

/// Whether `a` comes before `b` in the order of a dictionary.
pub fn bytes_less(a: &Vec<u8>, b: &Vec<u8>) -> (less: bool)
    ensures
        less == bytes_before(a@, b@),
{
    let n: usize = a.len();
    let m: usize = b.len();
    let mut i: usize = 0;
    assert(a@.skip(0) =~= a@);
    assert(b@.skip(0) =~= b@);
    while i < n && i < m
        invariant
            n == a@.len(),
            m == b@.len(),
            i <= n,
            i <= m,
            bytes_before(a@, b@) == bytes_before(a@.skip(i as int), b@.skip(i as int)),
        decreases n - i,
    {
        assert(a@.skip(i as int)[0] == a@[i as int]);
        assert(b@.skip(i as int)[0] == b@[i as int]);
        if a[i] != b[i] {
            return a[i] < b[i];
        }
        assert(a@.skip(i as int).drop_first() =~= a@.skip(i + 1));
        assert(b@.skip(i as int).drop_first() =~= b@.skip(i + 1));
        i = i + 1;
    }
    i < m
}

/// Whether the link `x` stands before the link `y`: it is earlier, or of
/// the same time and its target has the smaller address.
pub open spec fn link_before(x: LinkInfoView, y: LinkInfoView) -> bool {
    x.timestamp < y.timestamp || (x.timestamp == y.timestamp && bytes_before(x.target, y.target))
}

/// Whether the link `x` stands before the link `y`.
pub fn link_less(x: &LinkInfo, y: &LinkInfo) -> (less: bool)
    ensures
        less == link_before(x@, y@),
{
    x.timestamp < y.timestamp || (x.timestamp == y.timestamp && bytes_less(
        &x.target.bytes,
        &y.target.bytes,
    ))
}

/// Whether every link stands before all that follow it.
pub open spec fn strictly_ordered(links: Seq<LinkInfoView>) -> bool {
    forall|i: int, j: int| 0 <= i < j < links.len() ==> link_before(links[i], links[j])
}

/// Whether one of the links leads to `target`.
pub open spec fn leads_to(links: Seq<LinkInfoView>, target: Seq<u8>) -> bool {
    exists|i: int| 0 <= i < links.len() && (#[trigger] links[i]).target == target
}

/// The first link to each target, in the order of the list.
pub open spec fn first_occurrences(links: Seq<LinkInfoView>) -> Seq<LinkInfoView>
    decreases links.len(),
{
    if links.len() == 0 {
        Seq::empty()
    } else {
        let rest = first_occurrences(links.drop_last());
        if leads_to(links.drop_last(), links.last().target) {
            rest
        } else {
            rest.push(links.last())
        }
    }
}

/// Every first occurrence is a link of the list, and no two of them lead to
/// the same target.
pub proof fn lemma_first_occurrences(links: Seq<LinkInfoView>)
    ensures
        forall|k: int|
            0 <= k < first_occurrences(links).len() ==> links.contains(
                #[trigger] first_occurrences(links)[k],
            ),
        forall|i: int, j: int|
            0 <= i < j < first_occurrences(links).len() ==> (#[trigger] first_occurrences(
                links,
            )[i]).target != (#[trigger] first_occurrences(links)[j]).target,
        first_occurrences(links).len() <= links.len(),
    decreases links.len(),
{
    if links.len() > 0 {
        let front = links.drop_last();
        let rest = first_occurrences(front);
        let all = first_occurrences(links);
        lemma_first_occurrences(front);
        assert forall|k: int| 0 <= k < all.len() implies links.contains(#[trigger] all[k]) by {
            if k < rest.len() {
                let x = rest[k];
                assert(front.contains(x));
                let m = choose|m: int| 0 <= m < front.len() && front[m] == x;
                assert(links[m] == x);
            } else {
                assert(links[links.len() - 1] == all[k]);
            }
        }
        assert forall|i: int, j: int| 0 <= i < j < all.len() implies (#[trigger] all[i]).target != (
        #[trigger] all[j]).target by {
            if j < rest.len() {
                assert(rest[i].target != rest[j].target);
            } else {
                let x = rest[i];
                assert(front.contains(x));
                let m = choose|m: int| 0 <= m < front.len() && front[m] == x;
                assert(front[m].target == x.target);
            }
        }
    }
}

/// Whether a link before the one at `i` leads to the same target.
fn occurs_before(links: &Vec<LinkInfo>, i: usize) -> (seen: bool)
    requires
        i < links@.len(),
    ensures
        seen == leads_to(view_links(links@).take(i as int), links@[i as int].target@),
{
    let mut j: usize = 0;
    while j < i
        invariant
            i < links@.len(),
            j <= i,
            forall|k: int|
                0 <= k < j ==> (#[trigger] view_links(links@).take(i as int)[k]).target
                    != links@[i as int].target@,
        decreases i - j,
    {
        if links[j].target.same(&links[i].target) {
            assert(view_links(links@).take(i as int)[j as int].target == links@[i as int].target@);
            return true;
        }
        j = j + 1;
    }
    false
}

/// Keeps the first link to each record and drops the later ones.
pub fn filter_links_to_same_entry(links: &Vec<LinkInfo>) -> (kept: Vec<LinkInfo>)
    ensures
        view_links(kept@) == first_occurrences(view_links(links@)),
{
    let mut kept: Vec<LinkInfo> = Vec::new();
    let n: usize = links.len();
    let mut i: usize = 0;
    assert(view_links(links@).take(0) =~= Seq::empty());
    assert(view_links(kept@) =~= Seq::empty());
    while i < n
        invariant
            n == links@.len(),
            i <= n,
            view_links(kept@) == first_occurrences(view_links(links@).take(i as int)),
        decreases n - i,
    {
        let ghost all = view_links(links@);
        let ghost before = view_links(kept@);
        assert(all.take(i + 1).drop_last() =~= all.take(i as int));
        assert(all.take(i + 1).last() == links@[i as int]@);
        if !occurs_before(links, i) {
            kept.push(links[i].duplicate());
            assert(view_links(kept@) =~= before.push(links@[i as int]@));
        }
        i = i + 1;
    }
    assert(view_links(links@).take(n as int) =~= view_links(links@));
    kept
}

/// Of two links with different targets one stands before the other.
pub proof fn lemma_link_before_total(x: LinkInfoView, y: LinkInfoView)
    requires
        x.target != y.target,
    ensures
        link_before(x, y) || link_before(y, x),
{
    lemma_bytes_before_total(x.target, y.target);
}

/// What stands before something that stands before a third stands before
/// the third.
pub proof fn lemma_link_before_transitive(x: LinkInfoView, y: LinkInfoView, z: LinkInfoView)
    requires
        link_before(x, y),
        link_before(y, z),
    ensures
        link_before(x, z),
{
    if x.timestamp == y.timestamp && y.timestamp == z.timestamp {
        lemma_bytes_before_transitive(x.target, y.target, z.target);
    }
}

/// Puts `link` into an ordered list at its place.
fn insert_ordered(sorted: &mut Vec<LinkInfo>, link: LinkInfo)
    requires
        strictly_ordered(view_links(old(sorted)@)),
        !leads_to(view_links(old(sorted)@), link@.target),
    ensures
        strictly_ordered(view_links(final(sorted)@)),
        final(sorted)@.len() == old(sorted)@.len() + 1,
        forall|y: LinkInfoView|
            view_links(final(sorted)@).contains(y) <==> (view_links(old(sorted)@).contains(y) || y
                == link@),
{
    let ghost before = view_links(sorted@);
    let ghost x = link@;
    let n: usize = sorted.len();
    let mut p: usize = 0;
    while p < n && link_less(&sorted[p], &link)
        invariant
            n == sorted@.len(),
            p <= n,
            before == view_links(sorted@),
            x == link@,
            forall|k: int| 0 <= k < p ==> link_before(#[trigger] before[k], x),
        decreases n - p,
    {
        p = p + 1;
    }
    sorted.insert(p, link);
    let ghost after = view_links(sorted@);
    assert(after =~= before.insert(p as int, x));
    assert forall|i: int, j: int| 0 <= i < j < after.len() implies link_before(
        after[i],
        after[j],
    ) by {
        if j < p {
            assert(link_before(before[i], before[j]));
        } else if j == p {
            assert(link_before(before[i], x));
        } else if i == p {
            // The link at `p` before the insertion does not stand before
            // `link`, and leads elsewhere: so `link` stands before it.
            assert(before[p as int].target != x.target);
            lemma_link_before_total(before[p as int], x);
            if j - 1 > p {
                assert(link_before(before[p as int], before[j - 1]));
                lemma_link_before_transitive(x, before[p as int], before[j - 1]);
            }
        } else if i < p {
            assert(link_before(before[i], before[j - 1]));
        } else {
            assert(link_before(before[i - 1], before[j - 1]));
        }
    }
    assert forall|y: LinkInfoView| after.contains(y) <==> (before.contains(y) || y == x) by {
        if after.contains(y) {
            let k = choose|k: int| 0 <= k < after.len() && after[k] == y;
            if k < p {
                assert(before[k] == y);
            } else if k > p {
                assert(before[k - 1] == y);
            }
        }
        if before.contains(y) {
            let k = choose|k: int| 0 <= k < before.len() && before[k] == y;
            if k < p {
                assert(after[k] == y);
            } else {
                assert(after[k + 1] == y);
            }
        }
        if y == x {
            assert(after[p as int] == y);
        }
    }
}

/// The links of a player in order: the first link to each record, the
/// earlier link first, and of two links of the same time the one whose
/// target has the smaller address. The last of them leads to the head of
/// the player's chain.
pub fn get_game_results_links_for_agents(links: &Vec<LinkInfo>) -> (ordered: Vec<LinkInfo>)
    ensures
        strictly_ordered(view_links(ordered@)),
        ordered@.len() == first_occurrences(view_links(links@)).len(),
        forall|y: LinkInfoView|
            view_links(ordered@).contains(y) <==> first_occurrences(view_links(links@)).contains(y),
{
    let filtered = filter_links_to_same_entry(links);
    let ghost firsts = view_links(filtered@);
    proof {
        lemma_first_occurrences(view_links(links@));
    }
    let mut ordered: Vec<LinkInfo> = Vec::new();
    let n: usize = filtered.len();
    let mut i: usize = 0;
    assert(view_links(ordered@) =~= Seq::empty());
    while i < n
        invariant
            n == filtered@.len(),
            i <= n,
            firsts == view_links(filtered@),
            forall|a: int, b: int|
                0 <= a < b < firsts.len() ==> (#[trigger] firsts[a]).target != (
                #[trigger] firsts[b]).target,
            strictly_ordered(view_links(ordered@)),
            ordered@.len() == i,
            forall|y: LinkInfoView|
                view_links(ordered@).contains(y) <==> firsts.take(i as int).contains(y),
        decreases n - i,
    {
        let ghost before = view_links(ordered@);
        let link = filtered[i].duplicate();
        assert(link@ == firsts[i as int]);
        assert(!leads_to(before, link@.target)) by {
            if leads_to(before, link@.target) {
                let k = choose|k: int| 0 <= k < before.len() && (#[trigger] before[k]).target
                    == link@.target;
                assert(before.contains(before[k]));
                let earlier = firsts.take(i as int);
                assert(earlier.contains(before[k]));
                let m = choose|m: int| 0 <= m < earlier.len() && earlier[m] == before[k];
                assert(firsts[m].target != firsts[i as int].target);
            }
        }
        insert_ordered(&mut ordered, link);
        let ghost earlier = firsts.take(i as int);
        let ghost upto = firsts.take(i + 1);
        assert forall|y: LinkInfoView| view_links(ordered@).contains(y) <==> upto.contains(y) by {
            if upto.contains(y) {
                let m = choose|m: int| 0 <= m < upto.len() && upto[m] == y;
                if m < i {
                    assert(earlier[m] == y);
                }
            }
            if earlier.contains(y) {
                let m = choose|m: int| 0 <= m < earlier.len() && earlier[m] == y;
                assert(upto[m] == y);
            }
            if y == firsts[i as int] {
                assert(upto[i as int] == y);
            }
        }
        i = i + 1;
    }
    assert(firsts.take(n as int) =~= firsts);
    ordered
}

/// A list with a link has a first occurrence.
pub proof fn lemma_first_occurrences_nonempty(links: Seq<LinkInfoView>)
    requires
        links.len() > 0,
    ensures
        first_occurrences(links).len() > 0,
    decreases links.len(),
{
    if links.drop_last().len() > 0 {
        lemma_first_occurrences_nonempty(links.drop_last());
    }
}

/// The link that leads to the head of a player's chain: of the first links
/// to each record the one that stands after all others, so the latest, and
/// of several of that time the one whose target has the greatest address.
/// `None` for a player without links.
pub fn get_last_game_result_link(links: &Vec<LinkInfo>) -> (latest: Option<LinkInfo>)
    ensures
        links@.len() == 0 <==> latest is None,
        latest matches Some(l) ==> {
            &&& first_occurrences(view_links(links@)).contains(l@)
            &&& forall|x: LinkInfoView|
                first_occurrences(view_links(links@)).contains(x) && x != l@ ==> link_before(
                    x,
                    l@,
                )
        },
{
    let ordered = get_game_results_links_for_agents(links);
    let n: usize = ordered.len();
    proof {
        lemma_first_occurrences(view_links(links@));
        if links@.len() > 0 {
            lemma_first_occurrences_nonempty(view_links(links@));
        }
    }
    if n == 0 {
        return None;
    }
    let latest = ordered[n - 1].duplicate();
    let ghost all = view_links(ordered@);
    assert(all[n - 1] == latest@);
    assert(all.contains(latest@));
    assert forall|x: LinkInfoView|
        first_occurrences(view_links(links@)).contains(x) && x != latest@ implies link_before(
        x,
        latest@,
    ) by {
        assert(all.contains(x));
        let k = choose|k: int| 0 <= k < all.len() && all[k] == x;
        assert(link_before(all[k], all[n - 1]));
    }
    Some(latest)
}

} // verus!
