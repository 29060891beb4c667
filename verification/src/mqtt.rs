use crate::text::{decimal_text, lemma_parse_decimal_roundtrip, push_decimal, spec_parse_i32, text_is};
use crate::pdu::{lemma_walk_keys_unique, walks_map, AssetPubPduType, PduChannels};
use vstd::prelude::*;

verus! {

broadcast use vstd::std_specs::hash::group_hash_axioms;

/// The MQTT broker that this conductor talks to.
pub struct MqttOptions {
    pub url: String,
    pub portno: i32,
}

/// The MQTT broker setting: none until one is set; the first one set stays.
pub struct MqttSettings {
    options: Vec<MqttOptions>,
}

impl View for MqttSettings {
    /// The broker's URL and port, once one is set.
    type V = Option<(Seq<char>, i32)>;

    closed spec fn view(&self) -> Option<(Seq<char>, i32)> {
        if self.options@.len() == 0 {
            None
        } else {
            Some((self.options@[0].url@, self.options@[0].portno))
        }
    }
}

impl MqttSettings {
    /// At most one broker is stored, and its URL is built from an address
    /// and its port.
    #[verifier::type_invariant]
    spec fn reachable(self) -> bool {
        &&& self.options@.len() <= 1
        &&& is_reachable_setting(self@)
    }

    /// No broker set.
    pub fn new() -> (settings: MqttSettings)
        ensures
            settings@ == None::<(Seq<char>, i32)>,
    {
        MqttSettings { options: Vec::new() }
    }
}

/// The URL of the broker at `ipaddr` and `port`: `mqtt://<ipaddr>:<port>`.
pub open spec fn mqtt_url_text(ipaddr: Seq<char>, port: i32) -> Seq<char> {
    "mqtt://"@ + ipaddr + ":"@ + decimal_text(port as int)
}

/// The topic on which the data of channel `channel_id` of robot `robo_name`
/// travels: `hako_mqtt_<robo_name>_<channel_id>`.
pub open spec fn mqtt_topic_text(robo_name: Seq<char>, channel_id: i32) -> Seq<char> {
    "hako_mqtt_"@ + robo_name + "_"@ + decimal_text(channel_id as int)
}

/// A topic is `hako_mqtt_`, the robot name and `_`, then a last field that
/// reads back as the channel id, for every id, 0 and negative ones
/// included.
pub proof fn lemma_topic_carries_channel(robo_name: Seq<char>, channel_id: i32)
    ensures
        mqtt_topic_text(robo_name, channel_id).take(11 + robo_name.len() as int) == "hako_mqtt_"@ + robo_name
            + "_"@,
        spec_parse_i32(mqtt_topic_text(robo_name, channel_id).skip(11 + robo_name.len() as int))
            == Some(channel_id),
{
    reveal_strlit("hako_mqtt_");
    reveal_strlit("_");
    let head = "hako_mqtt_"@ + robo_name + "_"@;
    let t = mqtt_topic_text(robo_name, channel_id);
    assert(head.len() == 11 + robo_name.len());
    assert(t.take(11 + robo_name.len() as int) =~= head);
    assert(t.skip(11 + robo_name.len() as int) =~= decimal_text(channel_id as int));
    lemma_parse_decimal_roundtrip(channel_id);
}

/// Sets the broker to `ipaddr` and `port` unless one is set already.
pub fn set_mqtt_url(settings: &mut MqttSettings, ipaddr: String, port: i32)
    ensures
        final(settings)@ == after_set(old(settings)@, ipaddr@, port),
{
    proof {
        use_type_invariant(&*settings);
    }
    if settings.options.len() == 0 {
        let mut url = String::new();
        url.append("mqtt://");
        url.append(ipaddr.as_str());
        url.append(":");
        push_decimal(&mut url, port);
        let mut options: Vec<MqttOptions> = Vec::new();
        options.push(MqttOptions { url: url, portno: port });
        proof {
            lemma_enabled_iff_url_set(None, ipaddr@, port);
        }
        settings.options = options;
    }
}

/// The broker's port, or -1 when none is set.
pub open spec fn spec_mqtt_port(v: Option<(Seq<char>, i32)>) -> i32 {
    match v {
        Some(o) => o.1,
        None => -1i32,
    }
}

/// The broker's URL, or `None` (the text) when none is set.
pub open spec fn spec_mqtt_url(v: Option<(Seq<char>, i32)>) -> Seq<char> {
    match v {
        Some(o) => o.0,
        None => "None"@,
    }
}

/// The setting that `set_mqtt_url` leaves behind.
pub open spec fn after_set(v: Option<(Seq<char>, i32)>, ipaddr: Seq<char>, port: i32) -> Option<
    (Seq<char>, i32),
> {
    match v {
        Some(o) => Some(o),
        None => Some((mqtt_url_text(ipaddr, port), port)),
    }
}

/// Once a broker is set, MQTT is enabled and the settings report the port
/// and URL that were set; setting another broker afterwards changes nothing.
pub proof fn lemma_first_broker_stays(ipaddr: Seq<char>, port: i32, ipaddr2: Seq<char>, port2: i32)
    ensures
        after_set(None, ipaddr, port) is Some,
        spec_mqtt_port(after_set(None, ipaddr, port)) == port,
        spec_mqtt_url(after_set(None, ipaddr, port)) == "mqtt://"@ + ipaddr + ":"@ + decimal_text(
            port as int,
        ),
        after_set(after_set(None, ipaddr, port), ipaddr2, port2) == after_set(None, ipaddr, port),
        spec_mqtt_port(None) == -1,
{
}

/// A setting that `MqttSettings::new` and `set_mqtt_url` can leave: none,
/// or a broker URL built from an address and the broker's port.
pub open spec fn is_reachable_setting(v: Option<(Seq<char>, i32)>) -> bool {
    match v {
        None => true,
        Some(o) => exists|ip: Seq<char>| o.0 == #[trigger] mqtt_url_text(ip, o.1),
    }
}

/// MQTT is enabled exactly when the broker URL reads other than `None`: the
/// settings start with no broker, each `set_mqtt_url` keeps them reachable,
/// and a reachable setting is enabled iff its URL is not `None`.
pub proof fn lemma_enabled_iff_url_set(v: Option<(Seq<char>, i32)>, ipaddr: Seq<char>, port: i32)
    ensures
        is_reachable_setting(None),
        is_reachable_setting(v) ==> is_reachable_setting(after_set(v, ipaddr, port)),
        is_reachable_setting(v) ==> ((v is Some) <==> spec_mqtt_url(v) != "None"@),
{
    reveal_strlit("mqtt://");
    reveal_strlit("None");
    if v is None {
        let set = after_set(v, ipaddr, port)->0;
        assert(set.0 == mqtt_url_text(ipaddr, set.1));
        assert(exists|ip: Seq<char>| set.0 == #[trigger] mqtt_url_text(ip, set.1));
        assert(is_reachable_setting(after_set(v, ipaddr, port)));
    }
    if v is Some {
        assert(after_set(v, ipaddr, port) == v);
    }
    if is_reachable_setting(v) && v is Some {
        let o = v->0;
        let ip = choose|ip: Seq<char>| o.0 == #[trigger] mqtt_url_text(ip, o.1);
        assert(mqtt_url_text(ip, o.1).len() >= 7);
        assert("None"@.len() == 4);
    }
}

/// The broker's port, or -1 when none is set.
pub fn get_mqtt_port(settings: &MqttSettings) -> (port: i32)
    ensures
        port == spec_mqtt_port(settings@),
{
    if settings.options.len() == 0 {
        return -1;
    }
    settings.options[0].portno
}

/// Says whether a broker is set.
pub fn is_enabled(settings: &MqttSettings) -> (enabled: bool)
    ensures
        enabled == settings@ is Some,
        enabled == (spec_mqtt_url(settings@) != "None"@),
{
    proof {
        use_type_invariant(settings);
        lemma_enabled_iff_url_set(settings@, Seq::empty(), 0);
    }
    settings.options.len() != 0
}

/// The broker's URL, or `None` (the text) when none is set.
pub fn get_mqtt_url(settings: &MqttSettings) -> (url: String)
    ensures
        url@ == spec_mqtt_url(settings@),
{
    if settings.options.len() == 0 {
        return String::from_str("None");
    }
    settings.options[0].url.clone()
}

/// The topic of channel `channel_id` of robot `robo_name`.
pub fn mqtt_topic(robo_name: &String, channel_id: i32) -> (topic: String)
    ensures
        topic@ == mqtt_topic_text(robo_name@, channel_id),
        topic@.take(11 + robo_name@.len() as int) == "hako_mqtt_"@ + robo_name@ + "_"@,
        spec_parse_i32(topic@.skip(11 + robo_name@.len() as int)) == Some(channel_id),
{
    let mut topic = String::new();
    topic.append("hako_mqtt_");
    topic.append(robo_name.as_str());
    topic.append("_");
    push_decimal(&mut topic, channel_id);
    proof {
        lemma_topic_carries_channel(robo_name@, channel_id);
    }
    topic
}


/// A channel with this method travels over MQTT.
pub open spec fn is_mqtt_method(method_type: Seq<char>) -> bool {
    method_type == "MQTT"@
}

/// The real ids of the published channels that travel over MQTT.
pub open spec fn mqtt_pub_ids(m: Map<i32, AssetPubPduType>) -> Set<i32> {
    Set::new(|k: i32| m.contains_key(k) && is_mqtt_method(m[k].method_type@))
}

/// Appends to `topics` the topic of every published channel that travels
/// over MQTT, each once, in the order in which the registry walks them,
/// and to `qoss` a quality of service of 1 for each.
pub fn create_topics(channels: &PduChannels, topics: &mut Vec<String>, qoss: &mut Vec<i32>)
    ensures
        final(topics)@.subrange(0, old(topics)@.len() as int) == old(topics)@,
        final(qoss)@.subrange(0, old(qoss)@.len() as int) == old(qoss)@,
        exists|ids: Seq<i32>|
            {
                &&& ids.no_duplicates()
                &&& ids.to_set() == mqtt_pub_ids(channels.pub_channels@)
                &&& final(topics)@.len() == old(topics)@.len() + ids.len()
                &&& final(qoss)@.len() == old(qoss)@.len() + ids.len()
                &&& forall|j: int|
                    0 <= j < ids.len() ==> {
                        let p = channels.pub_channels@[#[trigger] ids[j]];
                        &&& final(topics)@[old(topics)@.len() + j]@ == mqtt_topic_text(
                            p.robo_name@,
                            p.channel_id,
                        )
                        &&& final(qoss)@[old(qoss)@.len() + j] == 1
                    }
            },
{
    let ghost m = channels.pub_channels@;
    let ghost pairs = vstd::std_specs::iter::IteratorSpec::remaining(
        &vstd::std_specs::hash::spec_hash_map_iter(&channels.pub_channels),
    );
    let ghost t0 = topics@;
    let ghost q0 = qoss@;
    let ghost mut ids: Seq<i32> = Seq::empty();
    for entry in it: channels.pub_channels.iter()
        invariant
            it.seq() == pairs,
            walks_map(pairs, m),
            m == channels.pub_channels@,
            topics@.len() == t0.len() + ids.len(),
            qoss@.len() == q0.len() + ids.len(),
            topics@.subrange(0, t0.len() as int) == t0,
            qoss@.subrange(0, q0.len() as int) == q0,
            ids.no_duplicates(),
            forall|k: i32|
                ids.contains(k) <==> exists|i: int|
                    0 <= i < it.index() && *pairs[i].0 == k && is_mqtt_method(
                        (#[trigger] pairs[i]).1.method_type@,
                    ),
            forall|j: int|
                0 <= j < ids.len() ==> {
                    let p = m[#[trigger] ids[j]];
                    &&& m.contains_key(ids[j])
                    &&& topics@[t0.len() + j]@ == mqtt_topic_text(p.robo_name@, p.channel_id)
                    &&& qoss@[q0.len() + j] == 1
                },
    {
        let ghost idx = it.index();
        let ghost old_ids = ids;
        assert(entry == pairs[idx]);
        let real_id = *entry.0;
        let pdu = entry.1;
        if text_is(&pdu.method_type, "MQTT") {
            topics.push(mqtt_topic(&pdu.robo_name, pdu.channel_id));
            qoss.push(1);
            proof {
                assert(!ids.contains(real_id)) by {
                    if ids.contains(real_id) {
                        let i = choose|i: int|
                            0 <= i < idx && *pairs[i].0 == real_id && is_mqtt_method(
                                (#[trigger] pairs[i]).1.method_type@,
                            );
                        lemma_walk_keys_unique(pairs, m, i, idx);
                    }
                }
                ids = ids.push(real_id);
            }
        }
        proof {
            assert forall|k: i32|
                ids.contains(k) <==> exists|i: int|
                    0 <= i < idx + 1 && *pairs[i].0 == k && is_mqtt_method(
                        (#[trigger] pairs[i]).1.method_type@,
                    ) by {
                if exists|i: int|
                    0 <= i < idx + 1 && *pairs[i].0 == k && is_mqtt_method(
                        (#[trigger] pairs[i]).1.method_type@,
                    ) {
                    let i = choose|i: int|
                        0 <= i < idx + 1 && *pairs[i].0 == k && is_mqtt_method(
                            (#[trigger] pairs[i]).1.method_type@,
                        );
                    if i < idx {
                        assert(old_ids.contains(k));
                        let j = choose|j: int| 0 <= j < old_ids.len() && old_ids[j] == k;
                        assert(ids[j] == k);
                    } else {
                        assert(ids[ids.len() - 1] == k);
                    }
                }
                if ids.contains(k) {
                    if old_ids.contains(k) {
                        let i = choose|i: int|
                            0 <= i < idx && *pairs[i].0 == k && is_mqtt_method(
                                (#[trigger] pairs[i]).1.method_type@,
                            );
                        assert(0 <= i < idx + 1);
                    } else {
                        assert(k == real_id);
                        assert(is_mqtt_method(pairs[idx].1.method_type@));
                    }
                }
            }
        }
    }
    proof {
        assert(ids.to_set() =~= mqtt_pub_ids(m)) by {
            assert forall|k: i32| #[trigger] mqtt_pub_ids(m).contains(k) implies ids.contains(k) by {
                assert(pairs.contains((&k, &m[k])));
                let i = choose|i: int| 0 <= i < pairs.len() && pairs[i] == (&k, &m[k]);
                assert(*pairs[i].0 == k);
            }
        }
    }
}

/// The real id of a published MQTT channel whose topic is `topic`, or -1
/// when there is none; where several match, the first that the registry
/// walks.
pub fn get_channel_id(channels: &PduChannels, topic: String) -> (real_id: i32)
    ensures
        (exists|k: i32|
            #[trigger] mqtt_pub_ids(channels.pub_channels@).contains(k) && mqtt_topic_text(
                channels.pub_channels@[k].robo_name@,
                channels.pub_channels@[k].channel_id,
            ) == topic@) ==> {
            &&& mqtt_pub_ids(channels.pub_channels@).contains(real_id)
            &&& mqtt_topic_text(
                channels.pub_channels@[real_id].robo_name@,
                channels.pub_channels@[real_id].channel_id,
            ) == topic@
        },
        !(exists|k: i32|
            #[trigger] mqtt_pub_ids(channels.pub_channels@).contains(k) && mqtt_topic_text(
                channels.pub_channels@[k].robo_name@,
                channels.pub_channels@[k].channel_id,
            ) == topic@) ==> real_id == -1,
{
    let ghost m = channels.pub_channels@;
    let ghost pairs = vstd::std_specs::iter::IteratorSpec::remaining(
        &vstd::std_specs::hash::spec_hash_map_iter(&channels.pub_channels),
    );
    for entry in it: channels.pub_channels.iter()
        invariant
            it.seq() == pairs,
            walks_map(pairs, m),
            m == channels.pub_channels@,
            forall|i: int|
                0 <= i < it.index() ==> !(is_mqtt_method((#[trigger] pairs[i]).1.method_type@)
                    && mqtt_topic_text(pairs[i].1.robo_name@, pairs[i].1.channel_id) == topic@),
    {
        let ghost idx = it.index();
        assert(entry == pairs[idx]);
        let pdu = entry.1;
        if text_is(&pdu.method_type, "MQTT") {
            let combined = mqtt_topic(&pdu.robo_name, pdu.channel_id);
            if topic == combined {
                proof {
                    assert(m.contains_key(*pairs[idx].0));
                    assert(mqtt_pub_ids(m).contains(*entry.0));
                }
                return *entry.0;
            }
        }
    }
    proof {
        assert forall|k: i32| #[trigger] mqtt_pub_ids(m).contains(k) implies mqtt_topic_text(
            m[k].robo_name@,
            m[k].channel_id,
        ) != topic@ by {
            assert(pairs.contains((&k, &m[k])));
            let i = choose|i: int| 0 <= i < pairs.len() && pairs[i] == (&k, &m[k]);
            assert(*pairs[i].1 == m[k]);
        }
    }
    -1
}

} // verus!
