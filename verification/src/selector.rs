//! Path selection that prefers the IPC transport for co-located peers.
//!
//! Paths are ranked by tier (IPC, then direct, then relay) and, within a
//! tier, by biased RTT. The currently selected path is sticky within its
//! tier: a candidate must improve on it by at least
//! [`RTT_SWITCHING_MIN_NS`] before selection switches. Across tiers the
//! switch is immediate.

use vstd::prelude::*;

use iroh_base::CustomAddr;

use crate::addr::{
    custom_addr_from_parts, custom_addr_transport_id, data_of, id_of, is_ipc_transport_id,
};
use crate::IPC_TRANSPORT_ID;

verus! {

/// How much direct IPv6 paths are preferred over IPv4, as an RTT advantage
/// in nanoseconds (3 ms, as iroh's default selector does).
pub const IPV6_RTT_ADVANTAGE_NS: i128 = 3_000_000;

/// Minimum biased-RTT improvement, in nanoseconds (5 ms), before selection
/// switches away from the current path within the same tier.
pub const RTT_SWITCHING_MIN_NS: i128 = 5_000_000;

/// Biased RTT given to a path whose stats cannot be read: half of
/// `i128::MAX`, so it ranks last within its tier without affecting the
/// order of tiers.
pub const UNKNOWN_RTT_NS: i128 = 85070591730234615865843651857942052863;

/// The largest number of nanoseconds a `std::time::Duration` can hold
/// (`u64::MAX` seconds and 999,999,999 nanoseconds): no measured RTT
/// exceeds it.
pub const MAX_RTT_NANOS: u128 = 18446744073709551615999999999;

/// Path preference tier: lower is better.
#[derive(Debug, Clone, Copy, PartialEq, Eq, PartialOrd, Ord, Structural)]
pub enum Tier {
    /// A path on this crate's IPC transport: co-located, always preferred.
    Ipc,
    /// A direct path: UDP (v4/v6) or a non-IPC custom transport.
    Direct,
    /// A relayed path: backup only.
    Relay,
}

impl Tier {
    /// The position of the tier in the preference order (0 is best).
    pub open spec fn level(self) -> int {
        match self {
            Tier::Ipc => 0,
            Tier::Direct => 1,
            Tier::Relay => 2,
        }
    }

    /// Executable form of [`Tier::level`].
    pub fn order(&self) -> (r: u8)
        ensures
            r == self.level(),
    {
        match self {
            Tier::Ipc => 0,
            Tier::Direct => 1,
            Tier::Relay => 2,
        }
    }
}

/// Sort key for one candidate path: tier first, then biased RTT in
/// nanoseconds; lower is better.
#[derive(Debug, Clone, Copy, PartialEq, Eq, PartialOrd, Ord, Structural)]
pub struct RankKey {
    pub tier: Tier,
    pub biased_rtt_ns: i128,
}

/// `a` ranks strictly better than `b`: a better tier, or the same tier and a
/// lower biased RTT.
pub open spec fn ranks_before(a: RankKey, b: RankKey) -> bool {
    ||| a.tier.level() < b.tier.level()
    ||| (a.tier == b.tier && a.biased_rtt_ns < b.biased_rtt_ns)
}

/// `b` is the first of the best-ranked keys: no key ranks before it, and it
/// ranks strictly before every key that comes earlier.
pub open spec fn is_first_best(keys: Seq<RankKey>, b: int) -> bool {
    &&& 0 <= b < keys.len()
    &&& forall|j: int| 0 <= j < keys.len() ==> !ranks_before(#[trigger] keys[j], keys[b])
    &&& forall|j: int| 0 <= j < b ==> ranks_before(keys[b], #[trigger] keys[j])
}

/// The index of the first best-ranked key (meaningful when `keys` is not
/// empty).
pub open spec fn first_best(keys: Seq<RankKey>) -> int {
    choose|b: int| is_first_best(keys, b)
}

/// The selection rule: `None` keeps the current selection unchanged.
///
/// - no candidates: nothing is selected;
/// - no current selection: the first best-ranked candidate is selected;
/// - the current path is the best one: keep it;
/// - the best candidate is in a better tier than the current path: switch;
/// - it is in the same tier and its biased RTT improves on the current
///   path's by at least [`RTT_SWITCHING_MIN_NS`]: switch;
/// - otherwise keep the current path.
pub open spec fn pick_spec(current: Option<usize>, keys: Seq<RankKey>) -> Option<usize> {
    if keys.len() == 0 {
        None
    } else {
        let b = first_best(keys);
        match current {
            None => Some(b as usize),
            Some(c) => {
                if c == b {
                    None
                } else if keys[b].tier.level() < keys[c as int].tier.level() {
                    Some(b as usize)
                } else if keys[b].tier == keys[c as int].tier && keys[c as int].biased_rtt_ns
                    - keys[b].biased_rtt_ns >= RTT_SWITCHING_MIN_NS {
                    Some(b as usize)
                } else {
                    None
                }
            },
        }
    }
}

/// The inputs on which the selection rule is computed without panicking:
/// a current index, where there are candidates, names one of them, and,
/// when the first best key is in the current key's tier, the RTT
/// improvement measured between them fits in an `i128`.
pub open spec fn pick_defined(current: Option<usize>, keys: Seq<RankKey>) -> bool {
    keys.len() > 0 ==> match current {
        None => true,
        Some(c) => {
            &&& c < keys.len()
            &&& keys[c as int].tier == keys[first_best(keys)].tier ==> keys[c as int].biased_rtt_ns
                - keys[first_best(keys)].biased_rtt_ns <= i128::MAX
        },
    }
}

/// Strictly-better ranking is a strict total order on keys.
pub proof fn lemma_ranks_before_order(a: RankKey, b: RankKey, c: RankKey)
    ensures
        !ranks_before(a, a),
        ranks_before(a, b) && ranks_before(b, c) ==> ranks_before(a, c),
        a == b || ranks_before(a, b) || ranks_before(b, a),
        !(ranks_before(a, b) && ranks_before(b, a)),
{
}

/// Every non-empty list of keys has exactly one first best-ranked key.
pub proof fn lemma_first_best(keys: Seq<RankKey>)
    requires
        keys.len() > 0,
    ensures
        is_first_best(keys, first_best(keys)),
        forall|b: int| is_first_best(keys, b) ==> b == first_best(keys),
    decreases keys.len(),
{
    let w = first_best_witness(keys);
    assert(is_first_best(keys, w));
    assert forall|b: int| is_first_best(keys, b) implies b == first_best(keys) by {
        lemma_first_best_unique(keys, b, first_best(keys));
    }
}

proof fn lemma_first_best_unique(keys: Seq<RankKey>, b1: int, b2: int)
    requires
        is_first_best(keys, b1),
        is_first_best(keys, b2),
    ensures
        b1 == b2,
{
    if b1 < b2 {
        assert(ranks_before(keys[b2], keys[b1]));
    } else if b2 < b1 {
        assert(ranks_before(keys[b1], keys[b2]));
    }
}

proof fn first_best_witness(keys: Seq<RankKey>) -> (b: int)
    requires
        keys.len() > 0,
    ensures
        is_first_best(keys, b),
    decreases keys.len(),
{
    if keys.len() == 1 {
        0
    } else {
        let init = keys.drop_last();
        let p = first_best_witness(init);
        let n = keys.len() - 1;
        assert forall|j: int| 0 <= j < n implies #[trigger] keys[j] == init[j] by {}
        if ranks_before(keys[n], keys[p]) {
            assert forall|j: int| 0 <= j < keys.len() implies !ranks_before(
                #[trigger] keys[j],
                keys[n],
            ) by {
                lemma_ranks_before_order(keys[j], keys[n], keys[p]);
                if j < n {
                    assert(!ranks_before(init[j], init[p]));
                }
            }
            assert forall|j: int| 0 <= j < n implies ranks_before(keys[n], #[trigger] keys[j]) by {
                assert(!ranks_before(init[j], init[p]));
                lemma_ranks_before_order(keys[n], keys[p], keys[j]);
                lemma_ranks_before_order(keys[p], keys[j], keys[n]);
            }
            n
        } else {
            assert forall|j: int| 0 <= j < keys.len() implies !ranks_before(
                #[trigger] keys[j],
                keys[p],
            ) by {
                if j < n {
                    assert(!ranks_before(init[j], init[p]));
                }
            }
            assert forall|j: int| 0 <= j < p implies ranks_before(keys[p], #[trigger] keys[j]) by {
                assert(ranks_before(init[p], init[j]));
            }
            p
        }
    }
}

impl RankKey {
    /// Executable form of [`ranks_before`].
    pub fn ranks_before(&self, other: &RankKey) -> (r: bool)
        ensures
            r == ranks_before(*self, *other),
    {
        let a = self.tier.order();
        let b = other.tier.order();
        a < b || (a == b && self.biased_rtt_ns < other.biased_rtt_ns)
    }
}

/// The selection decision: which candidate (by index) should be selected,
/// or `None` to keep the current selection unchanged (see [`pick_spec`]).
pub fn pick_index(current: Option<usize>, keys: &[RankKey]) -> (r: Option<usize>)
    requires
        pick_defined(current, keys@),
    ensures
        r == pick_spec(current, keys@),
{
    if keys.len() == 0 {
        return None;
    }
    let mut best: usize = 0;
    let mut i: usize = 1;
    while i < keys.len()
        invariant
            1 <= i <= keys.len(),
            best < i,
            forall|j: int| 0 <= j < i ==> !ranks_before(#[trigger] keys@[j], keys@[best as int]),
            forall|j: int| 0 <= j < best ==> ranks_before(keys@[best as int], #[trigger] keys@[j]),
        decreases keys.len() - i,
    {
        if keys[i].ranks_before(&keys[best]) {
            proof {
                assert forall|j: int| 0 <= j <= i implies !ranks_before(
                    #[trigger] keys@[j],
                    keys@[i as int],
                ) by {
                    lemma_ranks_before_order(keys@[j], keys@[i as int], keys@[best as int]);
                }
                assert forall|j: int| 0 <= j < i implies ranks_before(
                    keys@[i as int],
                    #[trigger] keys@[j],
                ) by {
                    lemma_ranks_before_order(keys@[i as int], keys@[best as int], keys@[j]);
                    lemma_ranks_before_order(keys@[best as int], keys@[j], keys@[i as int]);
                }
            }
            best = i;
        }
        i += 1;
    }
    proof {
        lemma_first_best(keys@);
        assert(is_first_best(keys@, best as int));
    }
    let current = match current {
        None => {
            return Some(best);
        },
        Some(c) => c,
    };
    if best == current {
        return None;
    }
    let best_key = keys[best];
    let current_key = keys[current];
    if best_key.tier.order() < current_key.tier.order() {
        return Some(best);
    }
    if best_key.tier == current_key.tier {
        let improvement_ns = current_key.biased_rtt_ns - best_key.biased_rtt_ns;
        if improvement_ns >= RTT_SWITCHING_MIN_NS {
            return Some(best);
        }
    }
    None
}

/// Whenever a selection is made, it is a best-ranked candidate other than
/// the current path: no candidate ranks before it.
pub proof fn lemma_selection_is_best(current: Option<usize>, keys: Seq<RankKey>, b: usize)
    requires
        keys.len() <= usize::MAX,
        pick_spec(current, keys) == Some(b),
    ensures
        b < keys.len(),
        current != Some(b),
        forall|j: int| 0 <= j < keys.len() ==> !ranks_before(#[trigger] keys[j], keys[b as int]),
{
    lemma_first_best(keys);
}

/// With no current selection, the first best-ranked candidate is selected,
/// and something is selected whenever there is a candidate.
pub proof fn lemma_no_current_selects_best(keys: Seq<RankKey>)
    requires
        keys.len() > 0,
    ensures
        pick_spec(None, keys) == Some(first_best(keys) as usize),
        is_first_best(keys, first_best(keys)),
{
    lemma_first_best(keys);
}

/// An IPC path wins over every other path, whatever the RTTs: when one is
/// open and the current path (if any) is not an IPC path, an IPC path is
/// selected.
pub proof fn lemma_ipc_path_wins(current: Option<usize>, keys: Seq<RankKey>, ipc: int)
    requires
        keys.len() <= usize::MAX,
        0 <= ipc < keys.len(),
        keys[ipc].tier == Tier::Ipc,
        match current {
            None => true,
            Some(c) => c < keys.len() && keys[c as int].tier != Tier::Ipc,
        },
    ensures
        pick_spec(current, keys) matches Some(b) && b < keys.len() && keys[b as int].tier
            == Tier::Ipc,
{
    lemma_first_best(keys);
    let b = first_best(keys);
    assert(!ranks_before(keys[ipc], keys[b]));
}

/// A relayed path is backup only: it is never selected while any path of a
/// higher tier is open.
pub proof fn lemma_relay_only_as_backup(current: Option<usize>, keys: Seq<RankKey>, other: int)
    requires
        keys.len() <= usize::MAX,
        0 <= other < keys.len(),
        keys[other].tier != Tier::Relay,
    ensures
        pick_spec(current, keys) matches Some(b) ==> keys[b as int].tier != Tier::Relay,
{
    lemma_first_best(keys);
    let b = first_best(keys);
    assert(!ranks_before(keys[other], keys[b]));
}

/// Switching across tiers is immediate: when a candidate is in a better
/// tier than the current path, the best candidate is selected, whatever the
/// RTTs.
pub proof fn lemma_cross_tier_switch_is_immediate(c: usize, keys: Seq<RankKey>, better: int)
    requires
        keys.len() <= usize::MAX,
        c < keys.len(),
        0 <= better < keys.len(),
        keys[better].tier.level() < keys[c as int].tier.level(),
    ensures
        pick_spec(Some(c), keys) == Some(first_best(keys) as usize),
{
    lemma_first_best(keys);
    let b = first_best(keys);
    assert(!ranks_before(keys[better], keys[b]));
}

/// Within a tier the current path is sticky: selection switches to a path
/// of the same tier only when its biased RTT improves on the current path's
/// by at least [`RTT_SWITCHING_MIN_NS`].
pub proof fn lemma_same_tier_hysteresis(c: usize, keys: Seq<RankKey>, b: usize)
    requires
        keys.len() <= usize::MAX,
        c < keys.len(),
        pick_spec(Some(c), keys) == Some(b),
        keys[b as int].tier == keys[c as int].tier,
    ensures
        keys[c as int].biased_rtt_ns - keys[b as int].biased_rtt_ns >= RTT_SWITCHING_MIN_NS,
{
    lemma_first_best(keys);
}

/// The same-tier switching rule, for every tier (IPC included): when the
/// first best-ranked candidate `b` is in the current path's tier and its
/// biased RTT is lower than the current path's by at least
/// [`RTT_SWITCHING_MIN_NS`] (5 ms), `b` is selected; when it is lower by less,
/// the current path is kept. Here `b` is described directly: no candidate
/// has a better tier, or the same tier and a lower biased RTT, and every
/// earlier candidate is worse than it.
pub proof fn lemma_same_tier_switch_rule(c: usize, keys: Seq<RankKey>, b: usize)
    requires
        keys.len() <= usize::MAX,
        c < keys.len(),
        b < keys.len(),
        b != c,
        forall|j: int|
            0 <= j < keys.len() ==> (#[trigger] keys[j]).tier.level() > keys[b as int].tier.level()
                || (keys[j].tier == keys[b as int].tier && keys[j].biased_rtt_ns
                >= keys[b as int].biased_rtt_ns),
        forall|j: int|
            0 <= j < b ==> (#[trigger] keys[j]).tier.level() > keys[b as int].tier.level() || (
            keys[j].tier == keys[b as int].tier && keys[j].biased_rtt_ns
                > keys[b as int].biased_rtt_ns),
        keys[b as int].tier == keys[c as int].tier,
    ensures
        keys[c as int].biased_rtt_ns - keys[b as int].biased_rtt_ns >= 5_000_000 ==> pick_spec(
            Some(c),
            keys,
        ) == Some(b),
        keys[c as int].biased_rtt_ns - keys[b as int].biased_rtt_ns < 5_000_000 ==> pick_spec(
            Some(c),
            keys,
        ) is None,
{
    assert(is_first_best(keys, b as int));
    lemma_first_best(keys);
}

/// With no current selection, the selected candidate is the first one of
/// the best tier present with the lowest biased RTT in that tier.
pub proof fn lemma_no_current_picks_first_lowest(keys: Seq<RankKey>, b: usize)
    requires
        keys.len() <= usize::MAX,
        b < keys.len(),
        forall|j: int|
            0 <= j < keys.len() ==> (#[trigger] keys[j]).tier.level() > keys[b as int].tier.level()
                || (keys[j].tier == keys[b as int].tier && keys[j].biased_rtt_ns
                >= keys[b as int].biased_rtt_ns),
        forall|j: int|
            0 <= j < b ==> (#[trigger] keys[j]).tier.level() > keys[b as int].tier.level() || (
            keys[j].tier == keys[b as int].tier && keys[j].biased_rtt_ns
                > keys[b as int].biased_rtt_ns),
    ensures
        pick_spec(None, keys) == Some(b),
{
    assert(is_first_best(keys, b as int));
    lemma_first_best(keys);
}

/// The current path is kept when it is itself the first best-ranked
/// candidate.
pub proof fn lemma_best_current_is_kept(keys: Seq<RankKey>, c: usize)
    requires
        keys.len() <= usize::MAX,
        c < keys.len(),
        forall|j: int|
            0 <= j < keys.len() ==> (#[trigger] keys[j]).tier.level() > keys[c as int].tier.level()
                || (keys[j].tier == keys[c as int].tier && keys[j].biased_rtt_ns
                >= keys[c as int].biased_rtt_ns),
        forall|j: int|
            0 <= j < c ==> (#[trigger] keys[j]).tier.level() > keys[c as int].tier.level() || (
            keys[j].tier == keys[c as int].tier && keys[j].biased_rtt_ns
                > keys[c as int].biased_rtt_ns),
    ensures
        pick_spec(Some(c), keys) is None,
{
    assert(is_first_best(keys, c as int));
    lemma_first_best(keys);
}

/// A selection is stable: once a path has been selected, selecting again
/// among the same candidates keeps it.
pub proof fn lemma_selection_is_stable(current: Option<usize>, keys: Seq<RankKey>, b: usize)
    requires
        keys.len() <= usize::MAX,
        pick_spec(current, keys) == Some(b),
    ensures
        pick_spec(Some(b), keys) is None,
{
    lemma_first_best(keys);
}

/// Missing stats rank a path last within its tier but keep its tier: a path
/// of the same tier with a measured RTT ranks before it.
pub proof fn lemma_missing_stats_rank_last_in_tier(
    remote: RemoteAddr,
    other: RemoteAddr,
    rtt_nanos: u128,
)
    requires
        rtt_nanos <= MAX_RTT_NANOS,
        tier_of(other) == tier_of(remote),
    ensures
        rank_spec(remote, None).tier == tier_of(remote),
        ranks_before(rank_spec(other, Some(rtt_nanos)), rank_spec(remote, None)),
{
}

/// An IPv6 path is credited [`IPV6_RTT_ADVANTAGE_NS`] over an IPv4 path
/// with the same measured RTT.
pub proof fn lemma_ipv6_advantage(rtt_nanos: u128)
    requires
        rtt_nanos <= MAX_RTT_NANOS,
    ensures
        rank_spec(RemoteAddr::Ip { is_ipv6: true }, Some(rtt_nanos)).biased_rtt_ns
            == rank_spec(RemoteAddr::Ip { is_ipv6: false }, Some(rtt_nanos)).biased_rtt_ns
            - IPV6_RTT_ADVANTAGE_NS,
        rank_spec(RemoteAddr::Ip { is_ipv6: true }, Some(rtt_nanos)).tier == Tier::Direct,
        rank_spec(RemoteAddr::Ip { is_ipv6: false }, Some(rtt_nanos)).tier == Tier::Direct,
{
}

/// What path selection reads of a path's remote address.
#[derive(Debug, Clone, Copy, PartialEq, Eq, Structural)]
pub enum RemoteAddr {
    /// A UDP path to an IP socket address.
    Ip { is_ipv6: bool },
    /// A path through a relay server.
    Relay,
    /// A path on a custom transport with the given transport id.
    Custom { transport_id: u64 },
}

impl RemoteAddr {
    /// The remote of a path on the custom transport address `addr`.
    pub fn custom(addr: &CustomAddr) -> (r: RemoteAddr)
        ensures
            custom_addr_from_parts(id_of(*addr), data_of(*addr)) == *addr,
            r == (RemoteAddr::Custom { transport_id: id_of(*addr) }),
            forall|id: u64, data: Seq<u8>|
                #[trigger] custom_addr_from_parts(id, data) == *addr ==> r == (RemoteAddr::Custom {
                    transport_id: id,
                }),
    {
        RemoteAddr::Custom { transport_id: custom_addr_transport_id(addr) }
    }
}

/// The tier of a path to `remote`.
pub open spec fn tier_of(remote: RemoteAddr) -> Tier {
    match remote {
        RemoteAddr::Custom { transport_id } => if transport_id == IPC_TRANSPORT_ID {
            Tier::Ipc
        } else {
            Tier::Direct
        },
        RemoteAddr::Ip { .. } => Tier::Direct,
        RemoteAddr::Relay => Tier::Relay,
    }
}

/// The RTT bias of a path to `remote`, in nanoseconds: IPv6 paths are
/// credited [`IPV6_RTT_ADVANTAGE_NS`].
pub open spec fn rtt_bias_of(remote: RemoteAddr) -> int {
    match remote {
        RemoteAddr::Ip { is_ipv6: true } => -IPV6_RTT_ADVANTAGE_NS,
        _ => 0,
    }
}

/// The rank of a path to `remote` with measured RTT `rtt_nanos`, if any.
pub open spec fn rank_spec(remote: RemoteAddr, rtt_nanos: Option<u128>) -> RankKey {
    RankKey {
        tier: tier_of(remote),
        biased_rtt_ns: match rtt_nanos {
            Some(n) => (n + rtt_bias_of(remote)) as i128,
            None => UNKNOWN_RTT_NS,
        },
    }
}

/// What a rank is, for every remote and measured RTT: the tier is IPC for a
/// custom address with this transport's id, relay for a relay, direct for
/// anything else; the biased RTT is the measured RTT, less 3 ms for an IPv6
/// path and unchanged for every other path (relays included), and half of
/// `i128::MAX` when no RTT was measured.
pub proof fn lemma_rank_meaning(remote: RemoteAddr, rtt_nanos: u128)
    requires
        rtt_nanos <= MAX_RTT_NANOS,
    ensures
        rank_spec(remote, Some(rtt_nanos)).biased_rtt_ns == rtt_nanos - (if remote == (RemoteAddr::Ip {
            is_ipv6: true,
        }) {
            3_000_000int
        } else {
            0int
        }),
        rank_spec(remote, None).biased_rtt_ns == 85070591730234615865843651857942052863,
        rank_spec(remote, Some(rtt_nanos)).tier == rank_spec(remote, None).tier,
        (rank_spec(remote, None).tier == Tier::Ipc) == (remote == (RemoteAddr::Custom {
            transport_id: IPC_TRANSPORT_ID,
        })),
        (rank_spec(remote, None).tier == Tier::Relay) == (remote == RemoteAddr::Relay),
{
}

/// Within one remote's tier a lower measured RTT ranks strictly before a
/// higher one, and any measured RTT ranks before a missing one.
pub proof fn lemma_lower_rtt_ranks_first(remote: RemoteAddr, lower: u128, higher: u128)
    requires
        lower < higher <= MAX_RTT_NANOS,
    ensures
        rank_spec(remote, Some(lower)).tier == rank_spec(remote, Some(higher)).tier,
        rank_spec(remote, Some(lower)).biased_rtt_ns < rank_spec(remote, Some(higher)).biased_rtt_ns,
        rank_spec(remote, Some(higher)).biased_rtt_ns < rank_spec(remote, None).biased_rtt_ns,
        ranks_before(rank_spec(remote, Some(lower)), rank_spec(remote, Some(higher))),
        ranks_before(rank_spec(remote, Some(higher)), rank_spec(remote, None)),
{
}

/// A measured RTT, if any, is one a `Duration` can hold.
pub open spec fn rtt_in_range(rtt_nanos: Option<u128>) -> bool {
    rtt_nanos matches Some(n) ==> n <= MAX_RTT_NANOS
}

impl RankKey {
    /// Classify a path by its remote address and (optional) measured RTT in
    /// nanoseconds.
    pub fn rank(remote: &RemoteAddr, rtt_nanos: Option<u128>) -> (r: RankKey)
        requires
            rtt_in_range(rtt_nanos),
        ensures
            r == rank_spec(*remote, rtt_nanos),
            -IPV6_RTT_ADVANTAGE_NS <= r.biased_rtt_ns <= UNKNOWN_RTT_NS,
    {
        let (tier, bias_ns): (Tier, i128) = match remote {
            RemoteAddr::Custom { transport_id } => {
                if is_ipc_transport_id(*transport_id) {
                    (Tier::Ipc, 0)
                } else {
                    (Tier::Direct, 0)
                }
            },
            RemoteAddr::Ip { is_ipv6 } => {
                if *is_ipv6 {
                    (Tier::Direct, -IPV6_RTT_ADVANTAGE_NS)
                } else {
                    (Tier::Direct, 0)
                }
            },
            RemoteAddr::Relay => (Tier::Relay, 0),
        };
        let biased_rtt_ns: i128 = match rtt_nanos {
            Some(n) => {
                let n: i128 = n as i128;
                n + bias_ns
            },
            None => UNKNOWN_RTT_NS,
        };
        RankKey { tier, biased_rtt_ns }
    }
}

/// What path selection reads of one candidate path.
#[derive(Debug, Clone, Copy, PartialEq, Eq, Structural)]
pub struct PathCandidate {
    /// The path's remote address.
    pub remote: RemoteAddr,
    /// The path's measured RTT in nanoseconds, when its stats can be read.
    pub rtt_nanos: Option<u128>,
    /// Whether this is the currently selected path.
    pub is_current: bool,
}

/// `i` is the first candidate marked as the current path.
pub open spec fn is_first_current(paths: Seq<PathCandidate>, i: int) -> bool {
    &&& 0 <= i < paths.len()
    &&& paths[i].is_current
    &&& forall|j: int| 0 <= j < i ==> !(#[trigger] paths[j]).is_current
}

/// The position of the current path among the candidates: the first one
/// marked current, if any.
pub open spec fn current_position(paths: Seq<PathCandidate>) -> Option<usize> {
    if exists|i: int| is_first_current(paths, i) {
        Some((choose|i: int| is_first_current(paths, i)) as usize)
    } else {
        None
    }
}

/// The rank keys of the candidates, in order.
pub open spec fn ranks_of(paths: Seq<PathCandidate>) -> Seq<RankKey> {
    paths.map_values(|p: PathCandidate| rank_spec(p.remote, p.rtt_nanos))
}

/// Every measured RTT among the candidates is one a `Duration` can hold.
pub open spec fn rtts_in_range(paths: Seq<PathCandidate>) -> bool {
    forall|i: int| 0 <= i < paths.len() ==> rtt_in_range(#[trigger] paths[i].rtt_nanos)
}

/// A path selector that selects the IPC (local-socket) path whenever one is
/// open to the peer, and otherwise behaves like iroh's default selector.
///
/// Selection ranks paths by tier, then by biased RTT within the tier:
///
/// 1. IPC: any path on this crate's custom transport. A co-located peer's
///    socket path always wins: on the same machine every path has
///    microsecond-scale RTT and a fixed bias dwarfs the real differences.
/// 2. Direct: UDP paths (IPv6 with a 3 ms RTT advantage over IPv4) and
///    custom transports other than IPC.
/// 3. Relay: backup only, never selected while any higher-tier path is
///    open, whatever its RTT.
///
/// Within a tier the currently selected path is sticky: a candidate must
/// improve on it by at least 5 ms of biased RTT before selection switches.
/// Across tiers switching is immediate.
#[derive(Debug, Default, Clone, Copy)]
pub struct PreferIpcTransport;

impl PreferIpcTransport {
    /// The index of the path to select among `paths`, or `None` to keep the
    /// current selection unchanged.
    pub fn select(&self, paths: &[PathCandidate]) -> (r: Option<usize>)
        requires
            rtts_in_range(paths@),
        ensures
            r == pick_spec(current_position(paths@), ranks_of(paths@)),
    {
        let mut keys: Vec<RankKey> = Vec::new();
        let mut current: Option<usize> = None;
        let mut i: usize = 0;
        while i < paths.len()
            invariant
                i <= paths@.len(),
                rtts_in_range(paths@),
                keys@.len() == i,
                forall|j: int| 0 <= j < i ==> #[trigger] keys@[j] == rank_spec(
                    paths@[j].remote,
                    paths@[j].rtt_nanos,
                ),
                forall|j: int|
                    0 <= j < i ==> -IPV6_RTT_ADVANTAGE_NS <= #[trigger] keys@[j].biased_rtt_ns
                        <= UNKNOWN_RTT_NS,
                match current {
                    None => forall|j: int| 0 <= j < i ==> !(#[trigger] paths@[j]).is_current,
                    Some(c) => is_first_current(paths@, c as int),
                },
            decreases paths@.len() - i,
        {
            let p = paths[i];
            assert(rtt_in_range(paths@[i as int].rtt_nanos));
            keys.push(RankKey::rank(&p.remote, p.rtt_nanos));
            if current.is_none() && p.is_current {
                current = Some(i);
            }
            i += 1;
        }
        proof {
            assert(keys@ == ranks_of(paths@));
            match current {
                None => {
                    assert(!exists|k: int| is_first_current(paths@, k));
                },
                Some(c) => {
                    assert forall|k: int| is_first_current(paths@, k) implies k == c by {
                        if k < c {
                            assert(!paths@[k].is_current);
                        } else if c < k {
                            assert(!paths@[c as int].is_current);
                        }
                    }
                    assert(current_position(paths@) == Some(c));
                },
            }
            if keys@.len() > 0 {
                lemma_first_best(keys@);
            }
        }
        pick_index(current, keys.as_slice())
    }
}

/// A path on the IPC transport is preferred whenever one is open: when the
/// current path (if any) is not on the IPC transport, the selector picks a
/// path on it.
pub proof fn lemma_select_prefers_ipc(paths: Seq<PathCandidate>, ipc: int)
    requires
        paths.len() <= usize::MAX,
        0 <= ipc < paths.len(),
        paths[ipc].remote == (RemoteAddr::Custom { transport_id: IPC_TRANSPORT_ID }),
        current_position(paths) matches Some(c) ==> tier_of(paths[c as int].remote) != Tier::Ipc,
    ensures
        pick_spec(current_position(paths), ranks_of(paths)) matches Some(b) && tier_of(
            paths[b as int].remote,
        ) == Tier::Ipc,
{
    let keys = ranks_of(paths);
    if exists|i: int| is_first_current(paths, i) {
        let c = choose|i: int| is_first_current(paths, i);
        assert(current_position(paths) == Some(c as usize));
    }
    assert(keys[ipc].tier == Tier::Ipc);
    lemma_ipc_path_wins(current_position(paths), keys, ipc);
    let b = pick_spec(current_position(paths), keys).unwrap();
    assert(keys[b as int] == rank_spec(paths[b as int].remote, paths[b as int].rtt_nanos));
}

} // verus!
