use hakoniwa_conductor::mqtt::{
    create_topics, get_channel_id, get_mqtt_port, get_mqtt_url, is_enabled, mqtt_topic,
    set_mqtt_url, MqttSettings,
};
use hakoniwa_conductor::pdu::{
    asset_create_pdu_channel, create_asset_pub_pdu, create_asset_sub_pdu,
    get_asset_pub_pdu_channel_robo_name, get_asset_sub_pdu_size, get_subscribers,
    remove_asset_pub_pdu, remove_asset_sub_pdu, subscribers_using, PduChannels,
    ASSET_PACKET_MAX_SIZE,
};
use hakoniwa_conductor::udp::{decode_pdu_packet, encode_subscriber_packet, i32_to_le_bytes, read_i32_le};

fn s(t: &str) -> String {
    t.to_string()
}

fn sub(channels: &mut PduChannels, real_id: i32, robo: &str, ch: i32, size: i32, method: &str) -> bool {
    create_asset_sub_pdu(channels, real_id, s("Client"), s(robo), ch, size, s("127.0.0.1:51001"), s(method))
}

fn publ(channels: &mut PduChannels, real_id: i32, robo: &str, ch: i32, size: i32, method: &str) -> bool {
    create_asset_pub_pdu(channels, real_id, s("Client"), s(robo), ch, size, s(method))
}

#[test]
fn sub_channel_created_once_and_read_back() {
    let mut c = PduChannels::new();
    assert_eq!(get_asset_sub_pdu_size(&c, 3), -1);
    assert!(sub(&mut c, 3, "TB3RoboModel", 2, 256, "UDP"));
    assert_eq!(get_asset_sub_pdu_size(&c, 3), 256);
    assert!(!sub(&mut c, 3, "Other", 9, 8, "MQTT"));
    assert_eq!(get_asset_sub_pdu_size(&c, 3), 256);
    let p = c.sub_channels.get(&3).unwrap();
    assert_eq!(p.robo_name, "TB3RoboModel");
    assert_eq!(p.options.udp_ip_port, "127.0.0.1:51001");
    assert!(p.buffer.iter().all(|b| *b == 0));
    assert_eq!(p.buffer.len(), ASSET_PACKET_MAX_SIZE);
    remove_asset_sub_pdu(&mut c, 3);
    assert_eq!(get_asset_sub_pdu_size(&c, 3), -1);
    assert!(sub(&mut c, 3, "Other", 9, 8, "MQTT"));
    assert_eq!(get_asset_sub_pdu_size(&c, 3), 8);
}

#[test]
fn pub_channel_created_once_and_read_back() {
    let mut c = PduChannels::new();
    assert_eq!(get_asset_pub_pdu_channel_robo_name(&c, 1), (-1, String::new()));
    assert!(publ(&mut c, 1, "TB3RoboModel", 1, 256, "UDP"));
    assert!(!publ(&mut c, 1, "X", 5, 5, "UDP"));
    assert_eq!(get_asset_pub_pdu_channel_robo_name(&c, 1), (1, s("TB3RoboModel")));
    remove_asset_pub_pdu(&mut c, 1);
    assert_eq!(get_asset_pub_pdu_channel_robo_name(&c, 1), (-1, String::new()));
    assert!(c.sub_channels.is_empty());
}

#[test]
fn pdu_channel_needs_its_logical_channel() {
    let mut c = PduChannels::new();
    assert!(!asset_create_pdu_channel(&mut c, false, 4, s("A"), s("R"), 1, 16, s("UDP")));
    assert!(c.pub_channels.is_empty());
    assert!(asset_create_pdu_channel(&mut c, true, 4, s("A"), s("R"), 1, 16, s("UDP")));
    assert!(!asset_create_pdu_channel(&mut c, true, 4, s("A"), s("R"), 1, 16, s("UDP")));
    assert_eq!(get_asset_pub_pdu_channel_robo_name(&c, 4), (1, s("R")));
}

#[test]
fn subscribers_are_listed_once_each() {
    let mut c = PduChannels::new();
    sub(&mut c, 0, "R", 2, 16, "UDP");
    sub(&mut c, 7, "R", 3, 16, "MQTT");
    sub(&mut c, 9, "S", 1, 16, "UDP");
    let mut v = vec![100];
    get_subscribers(&c, &mut v);
    assert_eq!(v[0], 100);
    let mut rest = v[1..].to_vec();
    rest.sort();
    assert_eq!(rest, vec![0, 7, 9]);
    let mut udp = subscribers_using(&c, "UDP");
    udp.sort();
    assert_eq!(udp, vec![0, 9]);
    assert_eq!(subscribers_using(&c, "MQTT"), vec![7]);
    assert!(subscribers_using(&c, "TCP").is_empty());
}

#[test]
fn le_fields_read_back() {
    for v in [0i32, 1, -1, 256, 0x12345678, i32::MIN, i32::MAX] {
        let b = i32_to_le_bytes(v);
        assert_eq!(b, v.to_le_bytes());
        assert_eq!(read_i32_le(&b, 0), v);
    }
}

#[test]
fn encoded_packet_decodes_back() {
    let mut c = PduChannels::new();
    sub(&mut c, 0, "TB3RoboModel", 2, 5, "UDP");
    let p = c.sub_channels.get_mut(&0).unwrap();
    p.buffer[40] = 0xee;
    let data = [1u8, 2, 3, 4, 5, 6, 7];
    assert!(encode_subscriber_packet(p, 2, &data, 5));
    let buf = p.buffer;
    assert_eq!(&buf[0..4], &2i32.to_le_bytes());
    assert_eq!(&buf[4..8], &5i32.to_le_bytes());
    assert_eq!(&buf[8..12], &12i32.to_le_bytes());
    assert_eq!(&buf[12..24], b"TB3RoboModel");
    assert_eq!(&buf[24..29], &[1, 2, 3, 4, 5]);
    assert_eq!(buf[29], 0);
    assert_eq!(buf[40], 0xee);
    let r = decode_pdu_packet(&buf).unwrap();
    assert_eq!(r.channel_id, 2);
    assert_eq!(r.pdu_size, 5);
    assert_eq!(r.robo_name, "TB3RoboModel");
    assert_eq!(r.data, data[..5].to_vec());
}

#[test]
fn oversized_packet_is_not_written() {
    let mut c = PduChannels::new();
    sub(&mut c, 0, "R", 2, 5, "UDP");
    let p = c.sub_channels.get_mut(&0).unwrap();
    let data = vec![9u8; ASSET_PACKET_MAX_SIZE];
    assert!(!encode_subscriber_packet(p, 2, &data, ASSET_PACKET_MAX_SIZE - 12));
    assert!(p.buffer.iter().all(|b| *b == 0));
    assert!(encode_subscriber_packet(p, 2, &data, ASSET_PACKET_MAX_SIZE - 13));
    assert_eq!(p.buffer[ASSET_PACKET_MAX_SIZE - 1], 9);
}

#[test]
fn malformed_packets_are_rejected() {
    assert!(decode_pdu_packet(&[0u8; 11]).is_none());
    let mut buf = vec![0u8; 20];
    buf[8..12].copy_from_slice(&(-1i32).to_le_bytes());
    assert!(decode_pdu_packet(&buf).is_none());
    buf[8..12].copy_from_slice(&9i32.to_le_bytes());
    assert!(decode_pdu_packet(&buf).is_none());
    buf[8..12].copy_from_slice(&8i32.to_le_bytes());
    buf[12..20].copy_from_slice(b"abcdefgh");
    let r = decode_pdu_packet(&buf).unwrap();
    assert_eq!(r.robo_name, "abcdefgh");
    assert!(r.data.is_empty());
    buf[4..8].copy_from_slice(&(-1i32).to_le_bytes());
    let r = decode_pdu_packet(&buf).unwrap();
    assert_eq!(r.pdu_size, -1);
    assert!(r.data.is_empty());
    buf[4..8].copy_from_slice(&1i32.to_le_bytes());
    assert!(decode_pdu_packet(&buf).is_none());
}

#[test]
fn datagram_yields_name_and_data_as_sent() {
    let dgram = [2u8, 0, 0, 0, 3, 0, 0, 0, 1, 0, 0, 0, b'R', b'A', b'B', b'C'];
    let r = decode_pdu_packet(&dgram).unwrap();
    assert_eq!(r.channel_id, 2);
    assert_eq!(r.pdu_size, 3);
    assert_eq!(r.robo_name, "R");
    assert_eq!(r.data, vec![b'A', b'B', b'C']);
    assert!(decode_pdu_packet(&dgram[..15]).is_none());
}

#[test]
fn mqtt_settings_keep_first_broker() {
    let mut m = MqttSettings::new();
    assert!(!is_enabled(&m));
    assert_eq!(get_mqtt_port(&m), -1);
    assert_eq!(get_mqtt_url(&m), "None");
    assert_eq!(is_enabled(&m), get_mqtt_url(&m) != "None");
    set_mqtt_url(&mut m, s("172.20.0.10"), 1883);
    assert!(is_enabled(&m));
    assert_eq!(is_enabled(&m), get_mqtt_url(&m) != "None");
    assert_eq!(get_mqtt_port(&m), 1883);
    assert_eq!(get_mqtt_url(&m), "mqtt://172.20.0.10:1883");
    set_mqtt_url(&mut m, s("10.0.0.1"), 1884);
    assert_eq!(get_mqtt_port(&m), 1883);
    assert_eq!(get_mqtt_url(&m), "mqtt://172.20.0.10:1883");
}

#[test]
fn mqtt_topics_name_and_find_channels() {
    assert_eq!(mqtt_topic(&s("TB3RoboModel"), 1), "hako_mqtt_TB3RoboModel_1");
    let mut c = PduChannels::new();
    publ(&mut c, 10, "R", 1, 16, "MQTT");
    publ(&mut c, 11, "R", 2, 16, "UDP");
    publ(&mut c, 12, "S", 1, 16, "MQTT");
    let mut topics = vec![s("keep")];
    let mut qoss = vec![0];
    create_topics(&c, &mut topics, &mut qoss);
    assert_eq!(topics[0], "keep");
    assert_eq!(qoss, vec![0, 1, 1]);
    let mut added = topics[1..].to_vec();
    added.sort();
    assert_eq!(added, vec![s("hako_mqtt_R_1"), s("hako_mqtt_S_1")]);
    assert_eq!(get_channel_id(&c, s("hako_mqtt_R_1")), 10);
    assert_eq!(get_channel_id(&c, s("hako_mqtt_S_1")), 12);
    assert_eq!(get_channel_id(&c, s("hako_mqtt_R_2")), -1);
    assert_eq!(get_channel_id(&c, s("nothing")), -1);
}

#[test]
fn channel_reads_back_through_other_operations() {
    let mut c = PduChannels::new();
    assert!(publ(&mut c, 5, "TB3RoboModel", 1, 256, "UDP"));
    assert!(sub(&mut c, 5, "TB3RoboModel", 2, 128, "UDP"));
    assert!(publ(&mut c, 6, "R", 2, 16, "MQTT"));
    assert!(!publ(&mut c, 5, "X", 9, 9, "MQTT"));
    remove_asset_pub_pdu(&mut c, 6);
    remove_asset_sub_pdu(&mut c, 7);
    assert!(sub(&mut c, 8, "S", 3, 8, "UDP"));
    assert_eq!(get_asset_pub_pdu_channel_robo_name(&c, 5), (1, s("TB3RoboModel")));
    assert_eq!(get_asset_sub_pdu_size(&c, 5), 128);
    assert_eq!(get_asset_pub_pdu_channel_robo_name(&c, 6), (-1, String::new()));
}
