//! The samples from which the server learns how far a client's clock is behind.
use std::collections::BTreeMap;
use vstd::prelude::*;

verus! {

/// One look at a client's clock.
#[derive(Debug, Clone, Copy, PartialEq, Eq, Structural)]
pub struct Sample {
    /// How long the question and its answer were on their way: how far off the delta can be.
    pub rtt_nanos: u128,
    /// How far the client's clock was found to be behind.
    pub delta_nanos: u128,
}

/// The deltas by the round trips at which they were found. Of two samples with one round trip the
/// later counts.
pub open spec fn by_rtt(samples: Seq<Sample>) -> Map<u128, u128>
    decreases samples.len(),
{
    if samples.len() == 0 {
        Map::empty()
    } else {
        by_rtt(samples.drop_last()).insert(samples.last().rtt_nanos, samples.last().delta_nanos)
    }
}

/// `order` holds one sample for each round trip among `samples`, the longest round trip first.
pub open spec fn is_blend_order(samples: Seq<Sample>, order: Seq<Sample>) -> bool {
    &&& forall|i: int, j: int|
        0 <= i < j < order.len() ==> (#[trigger] order[i]).rtt_nanos > (
        #[trigger] order[j]).rtt_nanos
    &&& forall|i: int|
        0 <= i < order.len() ==> by_rtt(samples).contains_pair(
            (#[trigger] order[i]).rtt_nanos,
            order[i].delta_nanos,
        )
    &&& forall|rtt: u128|
        #[trigger] by_rtt(samples).contains_key(rtt) ==> exists|i: int|
            0 <= i < order.len() && (#[trigger] order[i]).rtt_nanos == rtt
}

/// The deltas by the round trips at which they were found.
fn collect_by_rtt(samples: &Vec<Sample>) -> (map: BTreeMap<u128, u128>)
    ensures
        map@ == by_rtt(samples@),
{
    let mut map: BTreeMap<u128, u128> = BTreeMap::new();
    let mut k: usize = 0;
    assert(samples@.take(0) =~= seq![]);
    while k < samples.len()
        invariant
            k <= samples.len(),
            map@ == by_rtt(samples@.take(k as int)),
        decreases samples.len() - k,
    {
        map.insert(samples[k].rtt_nanos, samples[k].delta_nanos);
        k = k + 1;
        assert(samples@.take(k as int).drop_last() =~= samples@.take(k - 1));
    }
    assert(samples@.take(k as int) =~= samples@);
    map
}

/// The entries of a map, the smallest key first.
fn rising_entries(map: &BTreeMap<u128, u128>) -> (rising: Vec<Sample>)
    ensures
        forall|i: int, j: int|
            0 <= i < j < rising@.len() ==> (#[trigger] rising@[i]).rtt_nanos < (
            #[trigger] rising@[j]).rtt_nanos,
        forall|i: int|
            0 <= i < rising@.len() ==> map@.contains_pair(
                (#[trigger] rising@[i]).rtt_nanos,
                rising@[i].delta_nanos,
            ),
        forall|rtt: u128|
            #[trigger] map@.contains_key(rtt) ==> exists|i: int|
                0 <= i < rising@.len() && (#[trigger] rising@[i]).rtt_nanos == rtt,
{
    let mut rising: Vec<Sample> = Vec::new();
    let iter = map.iter();
    let ghost pairs = vstd::std_specs::iter::IteratorSpec::remaining(&iter);
    for entry in entries: iter
        invariant
            entries.seq() == pairs,
            rising@.len() == entries.index(),
            forall|i: int|
                0 <= i < rising@.len() ==> (#[trigger] rising@[i]).rtt_nanos == *pairs[i].0
                    && rising@[i].delta_nanos == *pairs[i].1,
    {
        rising.push(Sample { rtt_nanos: *entry.0, delta_nanos: *entry.1 });
    }
    proof {
        let keys = pairs.map_values(|kv: (&u128, &u128)| *kv.0);
        assert forall|i: int, j: int| 0 <= i < j < rising@.len() implies (
        #[trigger] rising@[i]).rtt_nanos < (#[trigger] rising@[j]).rtt_nanos by {
            assert(keys[i] == *pairs[i].0 && keys[j] == *pairs[j].0);
            assert(vstd::std_specs::cmp::OrdSpec::cmp_spec(&keys[i], &keys[j]) is Less);
        }
        assert forall|i: int| 0 <= i < rising@.len() implies map@.contains_pair(
            (#[trigger] rising@[i]).rtt_nanos,
            rising@[i].delta_nanos,
        ) by {
            assert(map@.contains_key(*pairs[i].0));
        }
        assert forall|rtt: u128| #[trigger] map@.contains_key(rtt) implies exists|i: int|
            0 <= i < rising@.len() && (#[trigger] rising@[i]).rtt_nanos == rtt by {
            assert(pairs.contains((&rtt, &map@[rtt])));
            let i = pairs.index_of((&rtt, &map@[rtt]));
            assert(rising@[i].rtt_nanos == rtt);
        }
    }
    rising
}

/// The samples in the order in which they are blended into one delta: the longest round trip
/// first, so that the shortest, which is the most exact, weighs most.
pub fn blend_order(samples: &Vec<Sample>) -> (order: Vec<Sample>)
    ensures
        is_blend_order(samples@, order@),
{
    let map = collect_by_rtt(samples);
    let mut rising = rising_entries(&map);
    let ghost entries = rising@;
    let mut order: Vec<Sample> = Vec::new();
    while rising.len() > 0
        invariant
            rising@.len() + order@.len() == entries.len(),
            rising@ == entries.take(rising@.len() as int),
            forall|i: int|
                0 <= i < order@.len() ==> #[trigger] order@[i] == entries[entries.len() - 1 - i],
        decreases rising.len(),
    {
        let last = rising.pop().unwrap();
        order.push(last);
    }
    proof {
        assert forall|rtt: u128| #[trigger] by_rtt(samples@).contains_key(rtt) implies exists|i: int|
            0 <= i < order@.len() && (#[trigger] order@[i]).rtt_nanos == rtt by {
            let j = choose|j: int|
                0 <= j < entries.len() && (#[trigger] entries[j]).rtt_nanos == rtt;
            assert(order@[entries.len() - 1 - j] == entries[j]);
        }
    }
    order
}

/// Two blend orders of the same samples agree as far as both go.
proof fn lemma_blend_orders_agree(
    samples: Seq<Sample>,
    a: Seq<Sample>,
    b: Seq<Sample>,
    upto: int,
)
    requires
        is_blend_order(samples, a),
        is_blend_order(samples, b),
        0 <= upto <= a.len(),
        upto <= b.len(),
    ensures
        forall|i: int| 0 <= i < upto ==> #[trigger] a[i] == b[i],
    decreases upto,
{
    if upto > 0 {
        let k = upto - 1;
        lemma_blend_orders_agree(samples, a, b, k);
        assert(by_rtt(samples).contains_key(a[k].rtt_nanos));
        assert(by_rtt(samples).contains_key(b[k].rtt_nanos));
        let in_b = choose|i: int|
            0 <= i < b.len() && (#[trigger] b[i]).rtt_nanos == a[k].rtt_nanos;
        let in_a = choose|i: int|
            0 <= i < a.len() && (#[trigger] a[i]).rtt_nanos == b[k].rtt_nanos;
        assert(in_b < k ==> a[in_b] == b[in_b]);
        assert(in_a < k ==> a[in_a] == b[in_a]);
        assert(a[k].rtt_nanos == b[k].rtt_nanos);
    }
}

/// No blend order is longer than another of the same samples.
proof fn lemma_blend_order_is_no_longer(samples: Seq<Sample>, a: Seq<Sample>, b: Seq<Sample>)
    requires
        is_blend_order(samples, a),
        is_blend_order(samples, b),
    ensures
        a.len() <= b.len(),
{
    if a.len() > b.len() {
        lemma_blend_orders_agree(samples, a, b, b.len() as int);
        let next = a[b.len() as int];
        assert(by_rtt(samples).contains_key(next.rtt_nanos));
        let i = choose|i: int| 0 <= i < b.len() && (#[trigger] b[i]).rtt_nanos == next.rtt_nanos;
        assert(a[i] == b[i]);
    }
}

/// The samples have one blend order only.
pub proof fn law_blend_order_is_unique(samples: Seq<Sample>, a: Seq<Sample>, b: Seq<Sample>)
    requires
        is_blend_order(samples, a),
        is_blend_order(samples, b),
    ensures
        a == b,
{
    lemma_blend_order_is_no_longer(samples, a, b);
    lemma_blend_order_is_no_longer(samples, b, a);
    lemma_blend_orders_agree(samples, a, b, a.len() as int);
    assert(a =~= b);
}

/// Every round trip that was sampled is looked up with the delta that was sampled last at it.
proof fn lemma_by_rtt(samples: Seq<Sample>, i: int)
    requires
        0 <= i < samples.len(),
    ensures
        by_rtt(samples).contains_key(samples[i].rtt_nanos),
        (forall|j: int|
            i < j < samples.len() ==> (#[trigger] samples[j]).rtt_nanos != samples[i].rtt_nanos)
            ==> by_rtt(samples)[samples[i].rtt_nanos] == samples[i].delta_nanos,
    decreases samples.len(),
{
    let n = samples.len() - 1;
    if i < n {
        let less = samples.drop_last();
        lemma_by_rtt(less, i);
        if forall|j: int|
            i < j < samples.len() ==> (#[trigger] samples[j]).rtt_nanos != samples[i].rtt_nanos {
            assert(samples[n].rtt_nanos != samples[i].rtt_nanos);
            assert forall|j: int| i < j < less.len() implies (#[trigger] less[j]).rtt_nanos
                != less[i].rtt_nanos by {
                assert(samples[j].rtt_nanos != samples[i].rtt_nanos);
            }
        }
    }
}

/// Where there are samples there is one to start the blend with. The last one, which weighs most,
/// had the shortest round trip of all, and no later sample had the same.
pub proof fn law_blend_ends_with_the_shortest_trip(samples: Seq<Sample>, order: Seq<Sample>)
    requires
        is_blend_order(samples, order),
        samples.len() > 0,
    ensures
        order.len() > 0,
        forall|i: int|
            0 <= i < samples.len() ==> order.last().rtt_nanos <= (#[trigger] samples[i]).rtt_nanos,
        forall|i: int|
            0 <= i < samples.len() && (#[trigger] samples[i]).rtt_nanos == order.last().rtt_nanos
                && (forall|j: int|
                i < j < samples.len() ==> (#[trigger] samples[j]).rtt_nanos
                    != order.last().rtt_nanos) ==> order.last().delta_nanos
                == samples[i].delta_nanos,
{
    lemma_by_rtt(samples, 0);
    assert forall|i: int| 0 <= i < samples.len() implies order.last().rtt_nanos <= (
    #[trigger] samples[i]).rtt_nanos by {
        lemma_by_rtt(samples, i);
        let k = choose|k: int|
            0 <= k < order.len() && (#[trigger] order[k]).rtt_nanos == samples[i].rtt_nanos;
        assert(k < order.len() - 1 ==> order[k].rtt_nanos > order[order.len() - 1].rtt_nanos);
    }
    assert forall|i: int|
        0 <= i < samples.len() && (#[trigger] samples[i]).rtt_nanos == order.last().rtt_nanos && (
        forall|j: int|
            i < j < samples.len() ==> (#[trigger] samples[j]).rtt_nanos
                != order.last().rtt_nanos) implies order.last().delta_nanos
        == samples[i].delta_nanos by {
        lemma_by_rtt(samples, i);
        assert(by_rtt(samples).contains_pair(
            order[order.len() - 1].rtt_nanos,
            order[order.len() - 1].delta_nanos,
        ));
    }
}

/// A round trip is looked up only where it was sampled, with a delta that was sampled at it.
proof fn lemma_by_rtt_was_sampled(samples: Seq<Sample>, rtt: u128)
    requires
        by_rtt(samples).contains_key(rtt),
    ensures
        samples.contains(Sample { rtt_nanos: rtt, delta_nanos: by_rtt(samples)[rtt] }),
    decreases samples.len(),
{
    let sample = Sample { rtt_nanos: rtt, delta_nanos: by_rtt(samples)[rtt] };
    let n = samples.len() - 1;
    if samples[n].rtt_nanos == rtt {
        assert(samples[n] == sample);
    } else {
        let less = samples.drop_last();
        lemma_by_rtt_was_sampled(less, rtt);
        let j = less.index_of(sample);
        assert(samples[j] == sample);
    }
}

/// What is blended is what was sampled, and nothing else: every entry is one of the samples; of the
/// samples with its round trip it is the last; every round trip that was sampled has its entry; and
/// the round trips fall.
pub proof fn law_only_samples_are_blended(samples: Seq<Sample>, order: Seq<Sample>)
    requires
        is_blend_order(samples, order),
    ensures
        forall|i: int| 0 <= i < order.len() ==> samples.contains(#[trigger] order[i]),
        forall|i: int, j: int|
            0 <= i < order.len() && 0 <= j < samples.len() && (#[trigger] order[i]).rtt_nanos == (
            #[trigger] samples[j]).rtt_nanos && order[i] != samples[j] ==> exists|k: int|
                j < k < samples.len() && (#[trigger] samples[k]).rtt_nanos == order[i].rtt_nanos,
        forall|sample: Sample| #[trigger]
            samples.contains(sample) ==> exists|i: int|
                0 <= i < order.len() && (#[trigger] order[i]).rtt_nanos == sample.rtt_nanos,
        forall|i: int, j: int|
            0 <= i < j < order.len() ==> (#[trigger] order[i]).rtt_nanos > (
            #[trigger] order[j]).rtt_nanos,
{
    assert forall|i: int| 0 <= i < order.len() implies samples.contains(#[trigger] order[i]) by {
        assert(by_rtt(samples).contains_pair(order[i].rtt_nanos, order[i].delta_nanos));
        lemma_by_rtt_was_sampled(samples, order[i].rtt_nanos);
    }
    assert forall|i: int, j: int|
        0 <= i < order.len() && 0 <= j < samples.len() && (#[trigger] order[i]).rtt_nanos == (
        #[trigger] samples[j]).rtt_nanos && order[i] != samples[j] implies exists|k: int|
        j < k < samples.len() && (#[trigger] samples[k]).rtt_nanos == order[i].rtt_nanos by {
        lemma_by_rtt(samples, j);
        assert(by_rtt(samples).contains_pair(order[i].rtt_nanos, order[i].delta_nanos));
    }
    assert forall|sample: Sample| #[trigger] samples.contains(sample) implies exists|i: int|
        0 <= i < order.len() && (#[trigger] order[i]).rtt_nanos == sample.rtt_nanos by {
        lemma_by_rtt(samples, samples.index_of(sample));
    }
}

} // verus!
