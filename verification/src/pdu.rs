use std::collections::HashMap;
use crate::text::text_is;
use vstd::prelude::*;

verus! {

broadcast use vstd::std_specs::hash::group_hash_axioms;

/// Size in bytes of the packet buffer that each subscribed channel owns.
pub const ASSET_PACKET_MAX_SIZE: usize = 4096;

/// A channel on which an asset publishes PDU data to this conductor.
pub struct AssetPubPduType {
    pub asset_name: String,
    pub robo_name: String,
    pub pdu_size: i32,
    pub method_type: String,
    pub channel_id: i32,
}

/// Where the data of a subscribed channel is delivered.
pub struct AsssetSubPduOptionType {
    pub udp_ip_port: String,
}

/// A channel whose PDU data this conductor sends to a subscriber.
pub struct AssetSubPduType {
    pub asset_name: String,
    pub robo_name: String,
    pub pdu_size: i32,
    pub buffer: [u8; ASSET_PACKET_MAX_SIZE],
    pub method_type: String,
    pub options: AsssetSubPduOptionType,
    pub channel_id: i32,
}

/// The PDU channels known to this conductor, each keyed by the real channel
/// id that the Hakoniwa core gave it.
pub struct PduChannels {
    pub sub_channels: HashMap<i32, AssetSubPduType>,
    pub pub_channels: HashMap<i32, AssetPubPduType>,
}

impl PduChannels {
    /// A registry with no channel.
    pub fn new() -> (channels: PduChannels)
        ensures
            channels.sub_channels@ == Map::<i32, AssetSubPduType>::empty(),
            channels.pub_channels@ == Map::<i32, AssetPubPduType>::empty(),
    {
        PduChannels { sub_channels: HashMap::new(), pub_channels: HashMap::new() }
    }
}

/// A change of one of the registry's maps.
pub enum ChannelOp<V> {
    /// Register `V` under the id unless the id is taken.
    Create(i32, V),
    /// Forget the id.
    Remove(i32),
}

/// The map after `op`.
pub open spec fn channel_step<V>(m: Map<i32, V>, op: ChannelOp<V>) -> Map<i32, V> {
    match op {
        ChannelOp::Create(id, v) => if m.contains_key(id) {
            m
        } else {
            m.insert(id, v)
        },
        ChannelOp::Remove(id) => m.remove(id),
    }
}

/// The map after `ops`, in order.
pub open spec fn channel_steps<V>(m: Map<i32, V>, ops: Seq<ChannelOp<V>>) -> Map<i32, V>
    decreases ops.len(),
{
    if ops.len() == 0 {
        m
    } else {
        channel_step(channel_steps(m, ops.drop_last()), ops.last())
    }
}

/// A registered channel stays as it is through any creations and through
/// removals of other ids.
pub proof fn lemma_channel_kept<V>(m: Map<i32, V>, ops: Seq<ChannelOp<V>>, k: i32)
    requires
        m.contains_key(k),
        forall|i: int| 0 <= i < ops.len() ==> ops[i] != ChannelOp::<V>::Remove(k),
    ensures
        channel_steps(m, ops).contains_key(k),
        channel_steps(m, ops)[k] == m[k],
    decreases ops.len(),
{
    if ops.len() > 0 {
        lemma_channel_kept(m, ops.drop_last(), k);
        assert(ops.last() != ChannelOp::<V>::Remove(k));
    }
}

/// `added` lists each key of `m` once, in some order.
pub open spec fn lists_each_key_once<V>(added: Seq<i32>, m: Map<i32, V>) -> bool {
    &&& added.no_duplicates()
    &&& added.to_set() == m.dom()
}

/// Appends to `v` the real id of every subscribed channel, each once, in
/// the order in which the registry walks them.
pub fn get_subscribers(channels: &PduChannels, v: &mut Vec<i32>)
    ensures
        final(v)@.len() == old(v)@.len() + channels.sub_channels@.dom().len(),
        final(v)@.subrange(0, old(v)@.len() as int) == old(v)@,
        lists_each_key_once(
            final(v)@.subrange(old(v)@.len() as int, final(v)@.len() as int),
            channels.sub_channels@,
        ),
{
    let ghost start = v@;
    let ghost keys = vstd::std_specs::iter::IteratorSpec::remaining(&vstd::std_specs::hash::spec_keys_iter(&channels.sub_channels));
    for k in it: channels.sub_channels.keys()
        invariant
            v@.len() == start.len() + it.index(),
            v@.subrange(0, start.len() as int) == start,
            forall|j: int| 0 <= j < it.index() ==> v@[start.len() + j] == *it.seq()[j],
            it.seq() == keys,
    {
        v.push(*k);
    }
    proof {
        let added = v@.subrange(start.len() as int, v@.len() as int);
        assert(added =~= keys.unref());
        assert(added.no_duplicates()) by {
            assert forall|a: int, b: int| 0 <= a < added.len() && 0 <= b < added.len() && a != b
                implies added[a] != added[b] by {
                assert(keys[a] != keys[b]);
            }
        }
    }
}


/// `p` is a freshly created subscribed channel with the given fields and a
/// zeroed packet buffer.
pub open spec fn is_new_sub_pdu(
    p: AssetSubPduType,
    asset_name: String,
    robo_name: String,
    channel_id: i32,
    pdu_size: i32,
    udp_ip_port: String,
    method_type: String,
) -> bool {
    &&& p.asset_name == asset_name
    &&& p.robo_name == robo_name
    &&& p.channel_id == channel_id
    &&& p.pdu_size == pdu_size
    &&& p.options.udp_ip_port == udp_ip_port
    &&& p.method_type == method_type
    &&& forall|i: int| 0 <= i < ASSET_PACKET_MAX_SIZE ==> #[trigger] p.buffer@[i] == 0u8
}

/// Registers the subscribed channel `real_id` unless it is already
/// registered; says whether it registered it.
pub fn create_asset_sub_pdu(
    channels: &mut PduChannels,
    real_id: i32,
    asset_name: String,
    robo_name: String,
    channel_id: i32,
    pdu_size: i32,
    udp_ip_port: String,
    method_type: String,
) -> (created: bool)
    ensures
        created == !old(channels).sub_channels@.contains_key(real_id),
        final(channels).pub_channels@ == old(channels).pub_channels@,
        !created ==> final(channels).sub_channels@ == old(channels).sub_channels@,
        final(channels).sub_channels@ == channel_step(
            old(channels).sub_channels@,
            ChannelOp::Create(real_id, final(channels).sub_channels@[real_id]),
        ),
        created ==> final(channels).sub_channels@.dom() == old(channels).sub_channels@.dom().insert(real_id),
        created ==> final(channels).sub_channels@.remove(real_id) == old(channels).sub_channels@,
        created ==> is_new_sub_pdu(
            final(channels).sub_channels@[real_id],
            asset_name,
            robo_name,
            channel_id,
            pdu_size,
            udp_ip_port,
            method_type,
        ),
{
    if channels.sub_channels.contains_key(&real_id) {
        return false;
    }
    let pdu = AssetSubPduType {
        asset_name: asset_name,
        robo_name: robo_name,
        options: AsssetSubPduOptionType { udp_ip_port: udp_ip_port },
        pdu_size: pdu_size,
        buffer: [0u8; ASSET_PACKET_MAX_SIZE],
        method_type: method_type,
        channel_id: channel_id,
    };
    channels.sub_channels.insert(real_id, pdu);
    proof {
        assert(channels.sub_channels@.remove(real_id) =~= old(channels).sub_channels@);
        assert(channels.sub_channels@.dom() =~= old(channels).sub_channels@.dom().insert(real_id));
    }
    true
}

/// `p` is a freshly created published channel with the given fields.
pub open spec fn is_new_pub_pdu(
    p: AssetPubPduType,
    asset_name: String,
    robo_name: String,
    channel_id: i32,
    pdu_size: i32,
    method_type: String,
) -> bool {
    &&& p.asset_name == asset_name
    &&& p.robo_name == robo_name
    &&& p.channel_id == channel_id
    &&& p.pdu_size == pdu_size
    &&& p.method_type == method_type
}

/// Registers the published channel `real_id` unless it is already
/// registered; says whether it registered it.
pub fn create_asset_pub_pdu(
    channels: &mut PduChannels,
    real_id: i32,
    asset_name: String,
    robo_name: String,
    channel_id: i32,
    pdu_size: i32,
    method_type: String,
) -> (created: bool)
    ensures
        created == !old(channels).pub_channels@.contains_key(real_id),
        final(channels).pub_channels@ == channel_step(
            old(channels).pub_channels@,
            ChannelOp::Create(
                real_id,
                AssetPubPduType { asset_name, robo_name, pdu_size, method_type, channel_id },
            ),
        ),
        final(channels).sub_channels@ == old(channels).sub_channels@,
        !created ==> final(channels).pub_channels@ == old(channels).pub_channels@,
        created ==> final(channels).pub_channels@ == old(channels).pub_channels@.insert(
            real_id,
            AssetPubPduType { asset_name, robo_name, pdu_size, method_type, channel_id },
        ),
{
    if channels.pub_channels.contains_key(&real_id) {
        return false;
    }
    let pdu = AssetPubPduType {
        asset_name: asset_name,
        robo_name: robo_name,
        pdu_size: pdu_size,
        method_type: method_type,
        channel_id: channel_id,
    };
    channels.pub_channels.insert(real_id, pdu);
    true
}

/// Forgets the published channel `real_id`.
pub fn remove_asset_pub_pdu(channels: &mut PduChannels, real_id: i32)
    ensures
        final(channels).pub_channels@ == channel_step(old(channels).pub_channels@, ChannelOp::Remove(real_id)),
        final(channels).sub_channels@ == old(channels).sub_channels@,
{
    channels.pub_channels.remove(&real_id);
}

/// Forgets the subscribed channel `real_id`.
pub fn remove_asset_sub_pdu(channels: &mut PduChannels, real_id: i32)
    ensures
        final(channels).sub_channels@ == channel_step(old(channels).sub_channels@, ChannelOp::Remove(real_id)),
        final(channels).pub_channels@ == old(channels).pub_channels@,
{
    channels.sub_channels.remove(&real_id);
}

/// The PDU size of the subscribed channel `real_id`, or -1 when no such
/// channel is registered.
pub open spec fn sub_pdu_size(m: Map<i32, AssetSubPduType>, real_id: i32) -> i32 {
    if m.contains_key(real_id) {
        m[real_id].pdu_size
    } else {
        -1i32
    }
}

/// The channel id and robot name of the published channel `real_id`, or
/// `(-1, "")` when no such channel is registered.
pub open spec fn pub_channel_robo_name(m: Map<i32, AssetPubPduType>, real_id: i32) -> (i32, Seq<char>) {
    if m.contains_key(real_id) {
        (m[real_id].channel_id, m[real_id].robo_name@)
    } else {
        (-1i32, Seq::empty())
    }
}

/// The PDU size of the subscribed channel `real_id`, or -1 when no such
/// channel is registered.
pub fn get_asset_sub_pdu_size(channels: &PduChannels, real_id: i32) -> (size: i32)
    ensures
        size == sub_pdu_size(channels.sub_channels@, real_id),
{
    match channels.sub_channels.get(&real_id) {
        Some(p) => p.pdu_size,
        None => -1,
    }
}

/// The channel id and robot name of the published channel `real_id`, or
/// `(-1, "")` when no such channel is registered.
pub fn get_asset_pub_pdu_channel_robo_name(channels: &PduChannels, real_id: i32) -> (res: (
    i32,
    String,
))
    ensures
        (res.0, res.1@) == pub_channel_robo_name(channels.pub_channels@, real_id),
{
    match channels.pub_channels.get(&real_id) {
        Some(p) => (p.channel_id, p.robo_name.clone()),
        None => (-1, String::new()),
    }
}

/// A subscribed channel reads back, once created, with the size it was
/// created with, while every other channel reads as before; a second
/// creation under its id is refused, since the id is now taken.
pub proof fn lemma_sub_pdu_read_after_create(
    before: Map<i32, AssetSubPduType>,
    after: Map<i32, AssetSubPduType>,
    real_id: i32,
    asset_name: String,
    robo_name: String,
    channel_id: i32,
    pdu_size: i32,
    udp_ip_port: String,
    method_type: String,
    other: i32,
)
    requires
        !before.contains_key(real_id),
        after.dom() == before.dom().insert(real_id),
        after.remove(real_id) == before,
        is_new_sub_pdu(after[real_id], asset_name, robo_name, channel_id, pdu_size, udp_ip_port, method_type),
        other != real_id,
    ensures
        sub_pdu_size(after, real_id) == pdu_size,
        sub_pdu_size(after, other) == sub_pdu_size(before, other),
        after.contains_key(real_id),
{
    assert(after.remove(real_id).contains_key(other) == after.contains_key(other));
    if after.contains_key(other) {
        assert(after.remove(real_id)[other] == after[other]);
    }
}

/// A published channel reads back, once created, with the channel id and
/// robot name it was created with, while every other channel reads as
/// before.
pub proof fn lemma_pub_pdu_read_after_create(
    before: Map<i32, AssetPubPduType>,
    real_id: i32,
    asset_name: String,
    robo_name: String,
    channel_id: i32,
    pdu_size: i32,
    method_type: String,
    other: i32,
)
    requires
        other != real_id,
    ensures
        ({
            let after = before.insert(
                real_id,
                AssetPubPduType { asset_name, robo_name, pdu_size, method_type, channel_id },
            );
            &&& pub_channel_robo_name(after, real_id) == (channel_id, robo_name@)
            &&& pub_channel_robo_name(after, other) == pub_channel_robo_name(before, other)
            &&& after.contains_key(real_id)
        }),
{
}

/// A published channel reads back with the channel id and robot name it
/// was created with through any later creations and removals that leave
/// its id alone.
pub proof fn lemma_pub_read_back_kept(
    before: Map<i32, AssetPubPduType>,
    ops: Seq<ChannelOp<AssetPubPduType>>,
    real_id: i32,
    asset_name: String,
    robo_name: String,
    channel_id: i32,
    pdu_size: i32,
    method_type: String,
)
    requires
        !before.contains_key(real_id),
        forall|i: int| 0 <= i < ops.len() ==> ops[i] != ChannelOp::<AssetPubPduType>::Remove(real_id),
    ensures
        ({
            let created = channel_step(
                before,
                ChannelOp::Create(
                    real_id,
                    AssetPubPduType { asset_name, robo_name, pdu_size, method_type, channel_id },
                ),
            );
            pub_channel_robo_name(channel_steps(created, ops), real_id) == (channel_id, robo_name@)
        }),
{
    let p = AssetPubPduType { asset_name, robo_name, pdu_size, method_type, channel_id };
    let created = channel_step(before, ChannelOp::Create(real_id, p));
    lemma_channel_kept(created, ops, real_id);
}

/// A subscribed channel reads back with the size it was created with
/// through any later creations and removals that leave its id alone.
pub proof fn lemma_sub_size_kept(
    created: Map<i32, AssetSubPduType>,
    ops: Seq<ChannelOp<AssetSubPduType>>,
    real_id: i32,
    pdu_size: i32,
)
    requires
        created.contains_key(real_id),
        created[real_id].pdu_size == pdu_size,
        forall|i: int| 0 <= i < ops.len() ==> ops[i] != ChannelOp::<AssetSubPduType>::Remove(real_id),
    ensures
        sub_pdu_size(channel_steps(created, ops), real_id) == pdu_size,
{
    lemma_channel_kept(created, ops, real_id);
}

/// A removed channel reads as absent: size -1, channel id -1 and an empty
/// robot name.
pub proof fn lemma_read_after_remove(
    subs: Map<i32, AssetSubPduType>,
    pubs: Map<i32, AssetPubPduType>,
    real_id: i32,
)
    ensures
        sub_pdu_size(subs.remove(real_id), real_id) == -1,
        pub_channel_robo_name(pubs.remove(real_id), real_id) == (-1i32, Seq::<char>::empty()),
{
}

/// Publishes channel `real_id` once the core has created its logical
/// channel (`lchannel_created`); says whether the channel now stands
/// registered anew.
pub fn asset_create_pdu_channel(
    channels: &mut PduChannels,
    lchannel_created: bool,
    real_id: i32,
    asset_name: String,
    robo_name: String,
    channel_id: i32,
    pdu_size: i32,
    method_type: String,
) -> (created: bool)
    ensures
        created == (lchannel_created && !old(channels).pub_channels@.contains_key(real_id)),
        final(channels).sub_channels@ == old(channels).sub_channels@,
        !created ==> final(channels).pub_channels@ == old(channels).pub_channels@,
        created ==> final(channels).pub_channels@ == old(channels).pub_channels@.insert(
            real_id,
            AssetPubPduType { asset_name, robo_name, pdu_size, method_type, channel_id },
        ),
{
    if !lchannel_created {
        return false;
    }
    create_asset_pub_pdu(channels, real_id, asset_name, robo_name, channel_id, pdu_size, method_type)
}

/// The entries of a map as its iterator hands them out: each once, each an
/// entry of the map, every entry present.
pub open spec fn walks_map<V>(pairs: Seq<(&i32, &V)>, m: Map<i32, V>) -> bool {
    &&& pairs.no_duplicates()
    &&& forall|i: int|
        0 <= i < pairs.len() ==> #[trigger] m.contains_key(*pairs[i].0) && m[*pairs[i].0]
            == *pairs[i].1
    &&& forall|k: i32| #[trigger] m.contains_key(k) ==> pairs.contains((&k, &m[k]))
}

/// Two steps of a walk over a map that hand out the same key are one step.
pub proof fn lemma_walk_keys_unique<V>(pairs: Seq<(&i32, &V)>, m: Map<i32, V>, a: int, b: int)
    requires
        walks_map(pairs, m),
        0 <= a < pairs.len(),
        0 <= b < pairs.len(),
        *pairs[a].0 == *pairs[b].0,
    ensures
        a == b,
{
    assert(m.contains_key(*pairs[a].0));
    assert(m.contains_key(*pairs[b].0));
    assert(pairs[a] == pairs[b]);
}

/// The real ids of the subscribed channels whose method is `method_type`.
pub open spec fn sub_ids_using(m: Map<i32, AssetSubPduType>, method_type: Seq<char>) -> Set<i32> {
    Set::new(|k: i32| m.contains_key(k) && m[k].method_type@ == method_type)
}

/// The real ids of the subscribed channels whose method is `method_type`,
/// each once, in the order in which the registry walks them.
pub fn subscribers_using(channels: &PduChannels, method_type: &str) -> (ids: Vec<i32>)
    ensures
        ids@.no_duplicates(),
        ids@.to_set() == sub_ids_using(channels.sub_channels@, method_type@),
{
    let ghost m = channels.sub_channels@;
    let ghost pairs = vstd::std_specs::iter::IteratorSpec::remaining(
        &vstd::std_specs::hash::spec_hash_map_iter(&channels.sub_channels),
    );
    let mut ids: Vec<i32> = Vec::new();
    for entry in it: channels.sub_channels.iter()
        invariant
            it.seq() == pairs,
            walks_map(pairs, m),
            m == channels.sub_channels@,
            ids@.no_duplicates(),
            forall|k: i32|
                ids@.contains(k) <==> exists|i: int|
                    0 <= i < it.index() && *pairs[i].0 == k && (#[trigger] pairs[i]).1.method_type@
                        == method_type@,
    {
        let ghost idx = it.index();
        let ghost old_ids = ids@;
        assert(entry == pairs[idx]);
        let real_id = *entry.0;
        let pdu = entry.1;
        if text_is(&pdu.method_type, method_type) {
            proof {
                assert(!old_ids.contains(real_id)) by {
                    if old_ids.contains(real_id) {
                        let i = choose|i: int|
                            0 <= i < idx && *pairs[i].0 == real_id && (#[trigger] pairs[i]).1.method_type@
                                == method_type@;
                        lemma_walk_keys_unique(pairs, m, i, idx);
                    }
                }
            }
            ids.push(real_id);
        }
        proof {
            assert forall|k: i32|
                ids@.contains(k) <==> exists|i: int|
                    0 <= i < idx + 1 && *pairs[i].0 == k && (#[trigger] pairs[i]).1.method_type@
                        == method_type@ by {
                if exists|i: int|
                    0 <= i < idx + 1 && *pairs[i].0 == k && (#[trigger] pairs[i]).1.method_type@
                        == method_type@ {
                    let i = choose|i: int|
                        0 <= i < idx + 1 && *pairs[i].0 == k && (#[trigger] pairs[i]).1.method_type@
                            == method_type@;
                    if i < idx {
                        assert(old_ids.contains(k));
                        let j = choose|j: int| 0 <= j < old_ids.len() && old_ids[j] == k;
                        assert(ids@[j] == k);
                    } else {
                        assert(ids@[ids@.len() - 1] == k);
                    }
                }
                if ids@.contains(k) {
                    if old_ids.contains(k) {
                        let i = choose|i: int|
                            0 <= i < idx && *pairs[i].0 == k && (#[trigger] pairs[i]).1.method_type@
                                == method_type@;
                        assert(0 <= i < idx + 1);
                    } else {
                        assert(k == real_id);
                    }
                }
            }
        }
    }
    proof {
        assert(ids@.to_set() =~= sub_ids_using(m, method_type@)) by {
            assert forall|k: i32| #[trigger] sub_ids_using(m, method_type@).contains(k) implies ids@.contains(k) by {
                assert(pairs.contains((&k, &m[k])));
                let i = choose|i: int| 0 <= i < pairs.len() && pairs[i] == (&k, &m[k]);
                assert(*pairs[i].0 == k);
            }
        }
    }
    ids
}

} // verus!
