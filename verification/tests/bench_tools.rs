use reliable_broadcast::bench::{
    get_msg_payload, peer_id_from_payload, Cli, CongestionControl, Msg, PubPeerStatistics,
    Reliability, ShortConfig, SubMode, ZOk,
};
use reliable_broadcast::config::IoConfig;
use reliable_broadcast::zenoh_io::{SampleKind, ZnReceiverConfig, ZnSenderConfig};
use reliable_broadcast::Error;

#[test]
fn it_works() {
    let result = 2 + 2;
    assert_eq!(result, 4);
}

fn test_cli() -> Cli {
    Cli {
        output_dir: String::from("./"),
        peer_id: 3,
        total_put_number: 2,
        round_timeout: 100,
        init_time: 1000,
        num_msgs_per_peer: 3,
        payload_size: 8,
        multipeer_mode: false,
        pub_sub_separate: false,
        locators: vec![],
        remote_pub_peers: 1,
        delay_startup: 0,
        pub_interval: 1,
        pub_disable: false,
        sub_disable: false,
        sub_mode: Some(SubMode::Push),
        reliability: Some(Reliability::Reliable),
        congestion_control: Some(CongestionControl::Block),
        echo_interval: Some(10),
        round_interval: Some(100),
        max_rounds: Some(5),
        extra_rounds: Some(1),
    }
}

#[test]
fn cli_derived_intervals() {
    let cli = test_cli();
    assert_eq!(cli.test_timeout(), 100);
    assert_eq!(cli.round_interval(), 100);
    assert_eq!(cli.echo_interval(), 10);
    assert_eq!(cli.publish_interval(), 100 * 5 + 50);
    assert_eq!(cli.start_time_from_now(2_000), 3_000);
    assert_eq!(cli.total_msg_num(), (2 + 1) * 3);
}

#[test]
fn short_config_projects_the_cli() {
    let cli = test_cli();
    let short = ShortConfig::from(cli);
    assert_eq!(short.peer_id, 3);
    assert_eq!(short.total_put_number, 2);
    assert_eq!(short.num_msgs_per_peer, 3);
    assert_eq!(short.payload_size, 8);
    assert_eq!(short.round_timeout, 100);
    assert_eq!(short.init_time, 1000);
}

#[test]
fn statistics_start_empty() {
    let stats = PubPeerStatistics::new();
    assert_eq!(stats.msg_cnt, 0);
    assert!(stats.latency_vec.is_empty());
    let by_default = PubPeerStatistics::default();
    assert_eq!(by_default.msg_cnt, 0);
    assert!(by_default.latency_vec.is_empty());
}

#[test]
fn payload_repeats_little_endian_identity() {
    let payload = get_msg_payload(16, 0x0102030405060708);
    assert_eq!(payload, vec![8, 7, 6, 5, 4, 3, 2, 1, 8, 7, 6, 5, 4, 3, 2, 1]);
    let short = get_msg_payload(3, 0x0102030405060708);
    assert_eq!(short, vec![8, 7, 6]);
}

#[test]
fn payload_round_trips_the_peer_identity() {
    let payload = get_msg_payload(8, 424_242);
    assert_eq!(peer_id_from_payload(&payload), 424_242);
    let longer = get_msg_payload(32, u64::MAX - 5);
    assert_eq!(peer_id_from_payload(&longer), u64::MAX - 5);
}

#[test]
fn zok_wraps_a_success() {
    let r: Result<u32, Error> = ZOk(5);
    assert_eq!(r, Ok(5));
}

#[test]
fn message_payload_wrapper_keeps_bytes() {
    let msg = Msg(vec![1, 2, 3]);
    assert_eq!(msg.0, vec![1, 2, 3]);
}

#[test]
fn io_config_kind_predicates() {
    let dds = reliable_broadcast::config::DdsConfig {
        topic: String::from("mytopic"),
        durability: reliable_broadcast::config::Durability::Volatile,
        reliability: reliable_broadcast::config::DdsReliability::BestEffort,
        history: reliable_broadcast::config::History::KeepLast { depth: 1 },
    };
    let rust_dds = IoConfig::RustDds(dds.clone());
    assert!(rust_dds.is_rust_dds());
    assert!(!rust_dds.is_zenoh());
    assert!(!rust_dds.is_cyclone_dds());
    let cyclone = IoConfig::CycloneDds(dds);
    assert!(cyclone.is_cyclone_dds());
    assert!(!cyclone.is_rust_dds());
}

#[test]
fn transport_configs_default_to_the_safe_choices() {
    let tx = ZnSenderConfig::default();
    assert_eq!(tx.congestion_control, reliable_broadcast::config::CongestionControl::Block);
    assert_eq!(tx.kind, SampleKind::Put);
    let rx = ZnReceiverConfig::default();
    assert_eq!(rx.reliability, reliable_broadcast::config::Reliability::BestEffort);
    assert_eq!(rx.sub_mode, reliable_broadcast::config::SubMode::Push);
}

#[test]
fn textual_payload_stamps_and_pads() {
    let text = reliable_broadcast::session::get_msg_payload(12, 5);
    assert_eq!(text, "00000005....");
    let exact = reliable_broadcast::session::get_msg_payload(8, 12_345_678);
    assert_eq!(exact, "12345678");
    let clipped = reliable_broadcast::session::get_msg_payload(3, 17);
    assert_eq!(clipped, "00000017");
}
