use vstd::prelude::*;

use crate::config::{Config, DirectoryModel};
use crate::name::{name_lt, names_of, ChannelName};
use crate::name_map::{strictly_sorted, NameMap};
use crate::opener::SlackOpener;

verus! {

/// A channel as the remote listing reports it.
#[derive(Debug, Clone)]
pub struct RemoteChannel {
    pub name: String,
    pub id: String,
    /// Number of members; unknown when absent.
    pub member_count: Option<u64>,
}

/// A channel is kept unless it is known to have no members.
pub open spec fn is_kept(c: RemoteChannel) -> bool {
    c.member_count != Some(0u64)
}

/// The directory built from the remote listing: kept channels only, a later entry replacing an
/// earlier one of the same name.
pub open spec fn candidate(remote: Seq<RemoteChannel>) -> Map<Seq<char>, Seq<char>>
    decreases remote.len(),
{
    if remote.len() == 0 {
        Map::empty()
    } else {
        let rest = candidate(remote.drop_last());
        if is_kept(remote.last()) {
            rest.insert(remote.last().name@, remote.last().id@)
        } else {
            rest
        }
    }
}

/// The labels of `from` that `other` lacks.
pub open spec fn missing_names(
    from: Map<Seq<char>, Seq<char>>,
    other: Map<Seq<char>, Seq<char>>,
) -> Set<Seq<char>> {
    from.dom().difference(other.dom())
}

/// The directory after synchronization: same team and aliases, channels from the remote.
pub open spec fn reconciled(d: DirectoryModel, remote: Seq<RemoteChannel>) -> DirectoryModel {
    DirectoryModel { team_id: d.team_id, aliases: d.aliases, channels: candidate(remote) }
}

/// Names added and removed by a synchronization, each sorted.
#[derive(Debug, Clone)]
pub struct ChannelDiff {
    pub added: Vec<ChannelName>,
    pub removed: Vec<ChannelName>,
}

impl ChannelDiff {
    /// `added` and `removed` are exactly the sorted names that `next` gains and loses against
    /// `current`.
    pub open spec fn describes(
        &self,
        current: Map<Seq<char>, Seq<char>>,
        next: Map<Seq<char>, Seq<char>>,
    ) -> bool {
        &&& strictly_sorted(names_of(self.added@))
        &&& strictly_sorted(names_of(self.removed@))
        &&& names_of(self.added@).to_set() == missing_names(next, current)
        &&& names_of(self.removed@).to_set() == missing_names(current, next)
    }
}

/// A name is in the candidate directory exactly when some kept channel carries it.
pub proof fn lemma_candidate_domain(remote: Seq<RemoteChannel>, k: Seq<char>)
    ensures
        candidate(remote).contains_key(k) <==> exists|j: int|
            0 <= j < remote.len() && #[trigger] remote[j].name@ == k && is_kept(remote[j]),
    decreases remote.len(),
{
    if remote.len() > 0 {
        let rest = remote.drop_last();
        lemma_candidate_domain(rest, k);
        if candidate(remote).contains_key(k) {
            if !(is_kept(remote.last()) && remote.last().name@ == k) {
                let j = choose|j: int|
                    0 <= j < rest.len() && #[trigger] rest[j].name@ == k && is_kept(rest[j]);
                assert(remote[j] == rest[j]);
            } else {
                assert(remote[remote.len() - 1].name@ == k);
            }
        }
        if exists|j: int|
            0 <= j < remote.len() && #[trigger] remote[j].name@ == k && is_kept(remote[j]) {
            let j = choose|j: int|
                0 <= j < remote.len() && #[trigger] remote[j].name@ == k && is_kept(remote[j]);
            if j < remote.len() - 1 {
                assert(rest[j] == remote[j]);
            }
        }
    }
}

/// Every entry of the candidate directory is the name and identifier of a kept channel.
pub proof fn lemma_candidate_entry_source(remote: Seq<RemoteChannel>, k: Seq<char>)
    requires
        candidate(remote).contains_key(k),
    ensures
        exists|j: int|
            0 <= j < remote.len() && #[trigger] remote[j].name@ == k && is_kept(remote[j])
                && remote[j].id@ == candidate(remote)[k],
    decreases remote.len(),
{
    let rest = remote.drop_last();
    let last = remote.len() - 1;
    if is_kept(remote.last()) && remote.last().name@ == k {
        assert(remote[last].name@ == k);
    } else {
        lemma_candidate_entry_source(rest, k);
        let j = choose|j: int|
            0 <= j < rest.len() && #[trigger] rest[j].name@ == k && is_kept(rest[j])
                && rest[j].id@ == candidate(rest)[k];
        assert(remote[j] == rest[j]);
    }
}

/// A channel reported with no members contributes nothing: its name is present only where
/// another kept channel carries it, and every entry comes from a channel not known to be empty.
/// A channel of unknown size is kept.
pub proof fn lemma_zero_member_filtering(remote: Seq<RemoteChannel>, i: int)
    requires
        0 <= i < remote.len(),
    ensures
        remote[i].member_count is None ==> candidate(remote).contains_key(remote[i].name@),
        remote[i].member_count == Some(0u64) && (forall|j: int|
            0 <= j < remote.len() && #[trigger] remote[j].name@ == remote[i].name@
                ==> remote[j].member_count == Some(0u64)) ==> !candidate(remote).contains_key(
            remote[i].name@,
        ),
        forall|k: Seq<char>| #[trigger]
            candidate(remote).contains_key(k) ==> exists|j: int|
                0 <= j < remote.len() && remote[j].name@ == k && remote[j].member_count != Some(
                    0u64,
                ) && remote[j].id@ == candidate(remote)[k],
{
    lemma_candidate_domain(remote, remote[i].name@);
    assert forall|k: Seq<char>| #[trigger] candidate(remote).contains_key(k) implies exists|j: int|
        0 <= j < remote.len() && remote[j].name@ == k && remote[j].member_count != Some(0u64)
            && remote[j].id@ == candidate(remote)[k] by {
        lemma_candidate_entry_source(remote, k);
    }
}

/// Synchronizing twice against the same listing gives the same directory, and the second
/// time nothing is added or removed.
pub proof fn lemma_reconcile_idempotent(d: DirectoryModel, remote: Seq<RemoteChannel>)
    ensures
        reconciled(reconciled(d, remote), remote) == reconciled(d, remote),
        missing_names(candidate(remote), reconciled(d, remote).channels) == Set::<Seq<char>>::empty(),
        missing_names(reconciled(d, remote).channels, candidate(remote)) == Set::<Seq<char>>::empty(),
{
    assert(missing_names(candidate(remote), reconciled(d, remote).channels) =~= Set::<
        Seq<char>,
    >::empty());
    assert(missing_names(reconciled(d, remote).channels, candidate(remote)) =~= Set::<
        Seq<char>,
    >::empty());
}

/// The channel directory built from a remote listing.
pub fn channels_from_remote(remote: &Vec<RemoteChannel>) -> (r: NameMap)
    ensures
        r.wf(),
        r@ == candidate(remote@),
{
    let mut r = NameMap::new();
    let mut i: usize = 0;
    while i < remote.len()
        invariant
            r.wf(),
            i <= remote@.len(),
            r@ == candidate(remote@.subrange(0, i as int)),
        decreases remote.len() - i,
    {
        let c = &remote[i];
        let kept = match c.member_count {
            Some(n) => n > 0,
            None => true,
        };
        if kept {
            r.insert(ChannelName::from_text(c.name.as_str()), c.id.clone());
        }
        proof {
            assert(remote@.subrange(0, i + 1).drop_last() =~= remote@.subrange(0, i as int));
        }
        i = i + 1;
    }
    assert(remote@.subrange(0, i as int) =~= remote@);
    r
}

/// The labels of `from` missing from `other`, in order.
fn names_missing(from: &NameMap, other: &NameMap) -> (r: Vec<ChannelName>)
    requires
        from.wf(),
        other.wf(),
    ensures
        strictly_sorted(names_of(r@)),
        names_of(r@).to_set() == missing_names(from@, other@),
{
    proof {
        from.lemma_view();
    }
    let ghost ns = from.names();
    let mut r: Vec<ChannelName> = Vec::new();
    let mut i: usize = 0;
    while i < from.len()
        invariant
            from.wf(),
            other.wf(),
            ns == from.names(),
            i <= ns.len(),
            strictly_sorted(names_of(r@)),
            forall|a: int, j: int|
                0 <= a < r@.len() && i <= j < ns.len() ==> name_lt(
                    #[trigger] names_of(r@)[a],
                    #[trigger] ns[j],
                ),
            forall|k: Seq<char>| #[trigger]
                names_of(r@).contains(k) <==> (ns.subrange(0, i as int).contains(k)
                    && !other@.contains_key(k)),
        decreases ns.len() - i,
    {
        let name = from.name_at(i);
        let ghost r0 = names_of(r@);
        if !other.contains_key(name) {
            let ghost before = names_of(r@);
            r.push(name.duplicate());
            proof {
                assert(names_of(r@) =~= before.push(ns[i as int]));
                assert forall|a: int, j: int|
                    0 <= a < r@.len() && i + 1 <= j < ns.len() implies name_lt(
                    #[trigger] names_of(r@)[a],
                    #[trigger] ns[j],
                ) by {
                    if a == r@.len() - 1 {
                        assert(name_lt(ns[i as int], ns[j]));
                    } else {
                        assert(names_of(r@)[a] == before[a]);
                    }
                }
                assert forall|a: int, b: int|
                    0 <= a < b < names_of(r@).len() implies name_lt(
                    #[trigger] names_of(r@)[a],
                    #[trigger] names_of(r@)[b],
                ) by {
                    if b == r@.len() - 1 {
                        assert(names_of(r@)[a] == before[a]);
                    } else {
                        assert(names_of(r@)[a] == before[a]);
                        assert(names_of(r@)[b] == before[b]);
                    }
                }
            }
        }
        proof {
            let sub0 = ns.subrange(0, i as int);
            let sub1 = ns.subrange(0, i + 1);
            assert(sub1 =~= sub0.push(ns[i as int]));
            let rn = names_of(r@);
            assert forall|k: Seq<char>|
                #[trigger] rn.contains(k) <==> (sub1.contains(k) && !other@.contains_key(k)) by {
                if rn.contains(k) {
                    let a = choose|a: int| 0 <= a < rn.len() && rn[a] == k;
                    if a < r0.len() {
                        assert(r0[a] == k);
                        assert(r0.contains(k));
                        let b = choose|b: int| 0 <= b < sub0.len() && sub0[b] == k;
                        assert(sub1[b] == k);
                    } else {
                        assert(sub1[i as int] == k);
                    }
                }
                if sub1.contains(k) && !other@.contains_key(k) {
                    let b = choose|b: int| 0 <= b < sub1.len() && sub1[b] == k;
                    if b < i {
                        assert(sub0[b] == k);
                        assert(r0.contains(k));
                        let a = choose|a: int| 0 <= a < r0.len() && r0[a] == k;
                        assert(rn[a] == k);
                    } else {
                        assert(rn[rn.len() - 1] == k);
                    }
                }
            }
        }
        i = i + 1;
    }
    proof {
        assert(ns.subrange(0, i as int) =~= ns);
        assert(names_of(r@).to_set() =~= missing_names(from@, other@));
    }
    r
}

/// The names that `next` gains and loses against `current`.
pub fn diff_channels(current: &NameMap, next: &NameMap) -> (r: ChannelDiff)
    requires
        current.wf(),
        next.wf(),
    ensures
        r.describes(current@, next@),
{
    ChannelDiff { added: names_missing(next, current), removed: names_missing(current, next) }
}

/// Synchronizes a configuration with a remote listing: the new configuration keeps the team and
/// aliases and takes its channels from the listing; the diff says what changed.
pub fn reconcile(current: &Config, remote: &Vec<RemoteChannel>) -> (r: (Config, ChannelDiff))
    requires
        current.wf(),
    ensures
        r.0.wf(),
        r.0@ == reconciled(current@, remote@),
        r.1.describes(current@.channels, candidate(remote@)),
{
    let channels = channels_from_remote(remote);
    let diff = diff_channels(&current.channels, &channels);
    let base = current.duplicate();
    let next = Config { team_id: base.team_id, aliases: base.aliases, channels };
    (next, diff)
}

impl SlackOpener {
    /// The configuration that replaces this one's channels with `channels`, and what that
    /// adds and removes.
    pub fn update_config(&self, channels: NameMap) -> (r: (Config, ChannelDiff))
        requires
            self.wf(),
            channels.wf(),
        ensures
            r.0.wf(),
            r.0@ == (DirectoryModel { channels: channels@, ..self@ }),
            r.1.describes(self@.channels, channels@),
    {
        let current = self.config();
        let diff = diff_channels(&current.channels, &channels);
        let base = current.duplicate();
        (Config { team_id: base.team_id, aliases: base.aliases, channels }, diff)
    }
}

} // verus!
