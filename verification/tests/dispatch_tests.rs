use waterfall::config::{AuxConfig, DataOverride, NetworkProtocol, Strategy};
use waterfall::dispatch::{
    client_hook, dispatch, execute_l4_bypasses, execute_l5_bypasses, jitter_delay,
    make_fake_hello, Emission, HopCounter, Peer,
};
use waterfall::packet::make_random_vec;
use waterfall::sni::{check_whitelist, whitelist_matches};

fn base_config() -> AuxConfig {
    AuxConfig {
        bind_host: String::from("127.0.0.1"),
        bind_port: 7878,
        bind_iface: String::new(),
        bind_iface_mtu: 8400,
        bind_iface_ipv4: String::from("192.18.0.0"),
        bind_iface_ipv6: String::from("fc00::1"),
        fake_packet_ttl: 3,
        fake_packet_sni: String::from("yandex.ru"),
        fake_as_oob: false,
        fake_packet_send_http: false,
        fake_packet_host: String::from("yandex.ru"),
        fake_packet_override_data: DataOverride { active: false, data: vec![0u8] },
        fake_packet_double: false,
        fake_packet_reversed: false,
        fake_packet_random: false,
        so_recv_size: 65535,
        so_send_size: 65535,
        so_opt_cutoff: 500,
        l7_packet_jitter_max: 0,
        disable_sack: false,
        fake_clienthello: false,
        fake_clienthello_sni: String::from("yandex.ru"),
        oob_streamhell_data: String::from(".@nt1_r3@ss3mbly_101.yandex"),
        http_host_cmix: false,
        http_host_rmspace: false,
        http_host_space: false,
        http_domain_cmix: false,
        disorder_packet_ttl: 8,
        default_ttl: 128,
        out_of_band_charid: 213,
        packet_hop: u64::MAX,
        whitelist_sni: false,
        whitelist_sni_list: vec![],
        strategies: vec![],
    }
}

fn tcp() -> Peer {
    Peer { transport: NetworkProtocol::TCP, port: Some(443) }
}

fn one(method: &str, offset: &str) -> DataOverride<Strategy> {
    DataOverride {
        active: true,
        data: Strategy::from(String::from(method), String::from(offset), false, "tcp", "", None),
    }
}

fn run(method: &str, offset: &str, conf: &AuxConfig, data: &[u8]) -> (Vec<Emission>, Vec<u8>) {
    dispatch(&vec![one(method, offset)], conf, &(0, 0), &tcp(), data.to_vec())
}

fn client_hello(name: &[u8], at: usize, total: usize) -> Vec<u8> {
    let mut buffer: Vec<u8> = vec![0xFF; total];
    buffer[0] = 0x16;
    buffer[1] = 0x03;
    buffer[2] = 0x01;
    buffer[5] = 0x01;
    buffer[at] = 0;
    buffer[at + 1] = 0;
    buffer[at + 2] = 0;
    buffer[at + 3] = name.len() as u8 + 5;
    buffer[at + 4] = 0;
    buffer[at + 5] = name.len() as u8 + 3;
    buffer[at + 6] = 0;
    buffer[at + 7] = 0;
    buffer[at + 8] = name.len() as u8;
    buffer[at + 9..at + 9 + name.len()].copy_from_slice(name);
    buffer
}

const DATA: [u8; 10] = [0, 1, 2, 3, 4, 5, 6, 7, 8, 9];

#[test]
fn no_strategy_writes_nothing_and_returns_the_buffer() {
    let conf = base_config();
    let (emissions, left) = dispatch(&vec![], &conf, &(0, 0), &tcp(), DATA.to_vec());
    assert_eq!(emissions, vec![]);
    assert_eq!(left, DATA.to_vec());
    let (emissions, left) = client_hook(&conf, &tcp(), &DATA);
    assert_eq!(emissions, vec![]);
    assert_eq!(left, DATA.to_vec());
}

#[test]
fn single_split_writes_the_first_part_and_returns_the_rest() {
    let (emissions, left) = run("--tcp_split", "5+", &base_config(), &DATA);
    assert_eq!(emissions, vec![Emission::Plain(vec![0, 1, 2, 3, 4])]);
    assert_eq!(left, vec![5, 6, 7, 8, 9]);
}

#[test]
fn index_outside_the_buffer_is_a_silent_no_op() {
    for offset in ["0+", "10+", "11+", "-1+", "x"] {
        for method in ["--tcp_split", "--tcp_meltdown", "--tls_record_frag", "--tcp_disorder2"] {
            let (emissions, left) = run(method, offset, &base_config(), &DATA);
            assert_eq!(emissions, vec![], "{} {}", method, offset);
            assert_eq!(left, DATA.to_vec());
        }
    }
}

#[test]
fn disorder_sends_the_first_part_as_a_ghost() {
    let (emissions, left) = run("--tcp_disorder", "3+", &base_config(), &DATA);
    assert_eq!(emissions, vec![Emission::Expiring(vec![0, 1, 2])]);
    assert_eq!(left, vec![3, 4, 5, 6, 7, 8, 9]);
}

#[test]
fn disorder2_sends_both_parts() {
    let (emissions, left) = run("--tcp_disorder2", "3+", &base_config(), &DATA);
    assert_eq!(
        emissions,
        vec![Emission::Plain(vec![0, 1, 2]), Emission::Expiring(vec![3, 4, 5, 6, 7, 8, 9])]
    );
    assert_eq!(left, Vec::<u8>::new());
}

#[test]
fn fake_sends_a_ghost_and_a_decoy() {
    let mut conf = base_config();
    let (emissions, left) = run("--tcp_fake_disordered", "4+", &conf, &DATA);
    assert_eq!(
        emissions,
        vec![Emission::Expiring(vec![0, 1, 2, 3]), Emission::Decoy(vec![4, 5, 6, 7, 8, 9])]
    );
    assert_eq!(left, vec![4, 5, 6, 7, 8, 9]);
    conf.fake_packet_reversed = true;
    let (emissions, _) = run("--tcp_fake_disordered", "4+", &conf, &DATA);
    assert_eq!(
        emissions,
        vec![Emission::Expiring(vec![0, 1, 2, 3]), Emission::Decoy(vec![0, 1, 2, 3])]
    );
    conf.fake_packet_override_data = DataOverride { active: true, data: vec![42] };
    let (emissions, _) = run("--tcp_fake_disordered", "4+", &conf, &DATA);
    assert_eq!(emissions, vec![Emission::Expiring(vec![0, 1, 2, 3]), Emission::Decoy(vec![42])]);
}

#[test]
fn fake_insert_sends_the_first_part_and_a_decoy() {
    let mut conf = base_config();
    conf.fake_packet_override_data = DataOverride { active: true, data: vec![42] };
    let (emissions, left) = run("--tcp_fake_insert", "4+", &conf, &DATA);
    assert_eq!(emissions, vec![Emission::Plain(vec![0, 1, 2, 3]), Emission::Decoy(vec![42])]);
    assert_eq!(left, vec![4, 5, 6, 7, 8, 9]);
}

#[test]
fn fake2_insert_takes_its_decoy_from_the_second_part() {
    let mut conf = base_config();
    conf.fake_packet_reversed = true;
    let (emissions, left) = run("--tcp_fake2_insert", "8+", &conf, &DATA);
    assert_eq!(emissions, vec![
        Emission::Plain(vec![0, 1, 2, 3, 4, 5, 6, 7]),
        Emission::Decoy(vec![8, 9])
    ]);
    assert_eq!(left, vec![8, 9]);
}

#[test]
fn fake2_disorder_sends_three_writes_and_leaves_nothing() {
    let (emissions, left) = run("--tcp_fake2_disordered", "8+", &base_config(), &DATA);
    assert_eq!(
        emissions,
        vec![
            Emission::Plain(vec![0, 1, 2, 3, 4, 5, 6, 7]),
            Emission::Decoy(vec![8, 9]),
            Emission::Expiring(vec![8, 9]),
        ]
    );
    assert_eq!(left, Vec::<u8>::new());
}

#[test]
fn fake_surround_puts_the_first_part_between_two_decoys() {
    let (emissions, left) = run("--tcp_fake_surround", "8+", &base_config(), &DATA);
    assert_eq!(
        emissions,
        vec![
            Emission::Decoy(vec![8, 9]),
            Emission::Plain(vec![0, 1, 2, 3, 4, 5, 6, 7]),
            Emission::Decoy(vec![8, 9]),
        ]
    );
    assert_eq!(left, vec![8, 9]);
}

#[test]
fn meltdown_sends_everything_as_a_ghost() {
    for method in ["--tcp_meltdown", "--udp_meltdown"] {
        let (emissions, left) = run(method, "1+", &base_config(), &DATA);
        assert_eq!(emissions, vec![Emission::Expiring(DATA.to_vec())]);
        assert_eq!(left, Vec::<u8>::new());
    }
}

#[test]
fn oob_appends_the_marker() {
    let (emissions, left) = run("--tcp_out_of_band", "2+", &base_config(), &DATA);
    assert_eq!(emissions, vec![Emission::OutOfBand(vec![0, 1, 213])]);
    assert_eq!(left, vec![2, 3, 4, 5, 6, 7, 8, 9]);
}

#[test]
fn oob2_also_sends_the_second_part_as_a_ghost() {
    let mut conf = base_config();
    conf.out_of_band_charid = 7;
    let (emissions, left) = run("--tcp_out_of_band_disorder2", "2+", &conf, &DATA);
    assert_eq!(
        emissions,
        vec![Emission::OutOfBand(vec![0, 1, 7]), Emission::Expiring(vec![2, 3, 4, 5, 6, 7, 8, 9])]
    );
    assert_eq!(left, Vec::<u8>::new());
}

#[test]
fn disoob_sends_the_marked_part_with_the_hop_limit_forced() {
    let (emissions, left) = run("--tcp_out_of_band_disorder", "2+", &base_config(), &DATA);
    assert_eq!(emissions, vec![Emission::ExpiringOutOfBand(vec![0, 1, 213])]);
    assert_eq!(left, vec![2, 3, 4, 5, 6, 7, 8, 9]);
}

#[test]
fn oob_stream_hell_sends_the_decoy_text_byte_by_byte() {
    let mut conf = base_config();
    conf.oob_streamhell_data = String::from("aé");
    let (emissions, left) = run("--tcp_out_of_band_hell", "2+", &conf, &DATA);
    assert_eq!(
        emissions,
        vec![
            Emission::Plain(vec![0, 1]),
            Emission::OutOfBand(vec![b'a']),
            Emission::OutOfBand(vec![0xC3]),
            Emission::OutOfBand(vec![0xA9]),
        ]
    );
    assert_eq!(left, vec![2, 3, 4, 5, 6, 7, 8, 9]);
}

#[test]
fn trail_and_unknown_methods_do_nothing() {
    for method in ["--udp_0trail", "--nothing"] {
        let (emissions, left) = run(method, "2+", &base_config(), &DATA);
        assert_eq!(emissions, vec![]);
        assert_eq!(left, DATA.to_vec());
    }
}

#[test]
fn tls_fragment_rewrites_the_buffer_and_writes_nothing() {
    let record = vec![0x16, 0x03, 0x01, 0, 4, 1, 2, 3, 4];
    let (emissions, left) = run("--tls_record_frag", "1+", &base_config(), &record);
    assert_eq!(emissions, vec![]);
    assert_eq!(left, vec![0x16, 0x03, 0x01, 0, 1, 1, 0x16, 0x03, 0x01, 0, 3, 2, 3, 4]);
    let (emissions, left) = run("--tls_record_frag", "5+", &base_config(), &record);
    assert_eq!(emissions, vec![]);
    assert_eq!(left, record);
    let (_, left) = run("--tls_record_frag", "1+", &base_config(), &DATA);
    assert_eq!(left, DATA.to_vec());
}

#[test]
fn strategies_are_threaded_in_order() {
    let conf = base_config();
    let list = vec![one("--tcp_split", "3+"), one("--tcp_disorder", "2+"), one("--tcp_split", "9+")];
    let (emissions, left) = dispatch(&list, &conf, &(0, 0), &tcp(), DATA.to_vec());
    assert_eq!(emissions, vec![Emission::Plain(vec![0, 1, 2]), Emission::Expiring(vec![3, 4])]);
    assert_eq!(left, vec![5, 6, 7, 8, 9]);
    let list = vec![one("--tls_record_frag", "1+"), one("--tcp_split", "6+")];
    let record = vec![0x16, 0x03, 0x01, 0, 4, 1, 2, 3, 4];
    let (emissions, left) = dispatch(&list, &conf, &(0, 0), &tcp(), record);
    assert_eq!(emissions, vec![Emission::Plain(vec![0x16, 0x03, 0x01, 0, 1, 1])]);
    assert_eq!(left, vec![0x16, 0x03, 0x01, 0, 3, 2, 3, 4]);
}

#[test]
fn strategy_relative_to_the_name_needs_a_name() {
    let conf = base_config();
    let list = vec![one("--tcp_split", "2+s")];
    let (emissions, left) = dispatch(&list, &conf, &(0, 0), &tcp(), DATA.to_vec());
    assert_eq!(emissions, vec![]);
    assert_eq!(left, DATA.to_vec());
    let (emissions, left) = dispatch(&list, &conf, &(3, 6), &tcp(), DATA.to_vec());
    assert_eq!(emissions, vec![Emission::Plain(vec![0, 1, 2, 3, 4])]);
    assert_eq!(left, vec![5, 6, 7, 8, 9]);
    let back = vec![one("--tcp_split", "-2+s")];
    let (emissions, _) = dispatch(&back, &conf, &(3, 6), &tcp(), DATA.to_vec());
    assert_eq!(emissions, vec![Emission::Plain(vec![0])]);
    let (emissions, _) = dispatch(&back, &conf, &(2, 6), &tcp(), DATA.to_vec());
    assert_eq!(emissions, vec![]);
}

#[test]
fn protocol_filter_is_enforced() {
    let conf = base_config();
    let mut strategy = one("--tcp_split", "5+");
    strategy.data.filter_protocol = Some(NetworkProtocol::UDP);
    let (emissions, left) = dispatch(&vec![strategy.clone()], &conf, &(0, 0), &tcp(), DATA.to_vec());
    assert_eq!(emissions, vec![]);
    assert_eq!(left, DATA.to_vec());
    let udp = Peer { transport: NetworkProtocol::UDP, port: None };
    let (emissions, _) = dispatch(&vec![strategy.clone()], &conf, &(0, 0), &udp, DATA.to_vec());
    assert_eq!(emissions.len(), 1);
    strategy.data.filter_protocol = None;
    let (emissions, _) = dispatch(&vec![strategy], &conf, &(0, 0), &tcp(), DATA.to_vec());
    assert_eq!(emissions.len(), 1);
}

#[test]
fn port_filter_is_enforced() {
    let conf = base_config();
    let strategy = DataOverride {
        active: true,
        data: Strategy::from(
            String::from("--tcp_split"),
            String::from("5+"),
            false,
            "tcp",
            "80-443",
            None,
        ),
    };
    let at = |port: Option<u16>| {
        let peer = Peer { transport: NetworkProtocol::TCP, port };
        dispatch(&vec![strategy.clone()], &conf, &(0, 0), &peer, DATA.to_vec()).0.len()
    };
    assert_eq!(at(Some(80)), 1);
    assert_eq!(at(Some(443)), 1);
    assert_eq!(at(Some(79)), 0);
    assert_eq!(at(Some(444)), 0);
    assert_eq!(at(None), 1);
}

#[test]
fn allow_list_looks_for_an_entry_in_the_name() {
    let data = client_hello(b"www.example.com", 30, 80);
    let list = Some(vec![String::from("nothing"), String::from("example")]);
    assert!(check_whitelist(&list, &(39, 54), &data));
    assert!(!check_whitelist(&Some(vec![String::from("examplf")]), &(39, 54), &data));
    assert!(!check_whitelist(&Some(vec![]), &(39, 54), &data));
    assert!(!check_whitelist(&list, &(0, 0), &data));
    assert!(check_whitelist(&None, &(0, 0), &data));
    assert!(check_whitelist(&None, &(39, 54), &data));
    assert!(check_whitelist(&list, &(39, 80), &data));
    assert!(!check_whitelist(&list, &(39, 81), &data));
    assert!(!check_whitelist(&list, &(39, 90), &data));
    assert!(check_whitelist(&Some(vec![String::new()]), &(39, 54), &data));
}

#[test]
fn allow_list_takes_a_name_that_ends_with_the_data() {
    let mut data: Vec<u8> = vec![0];
    data.extend_from_slice(b"example.com");
    let list = Some(vec![String::from("example.com")]);
    assert!(check_whitelist(&list, &(1, 12), &data));
    assert!(!check_whitelist(&list, &(1, 13), &data));
    assert!(!check_whitelist(&list, &(2, 12), &data));
    assert!(check_whitelist(&Some(vec![String::from("ample.com")]), &(2, 12), &data));
}

#[test]
fn allow_list_reads_the_name_lossily() {
    let data: Vec<u8> = vec![b'a', 0xFF, b'b', 0];
    assert!(check_whitelist(&Some(vec![String::from("a\u{FFFD}b")]), &(0, 3), &data));
    assert!(!check_whitelist(&Some(vec![String::from("ab")]), &(0, 3), &data));
    assert!(whitelist_matches(&vec![String::from("b.c")], "a.b.c.d"));
    assert!(!whitelist_matches(&vec![String::from("b.d")], "a.b.c.d"));
}

#[test]
fn allow_list_filter_is_enforced() {
    let conf = base_config();
    let data = client_hello(b"www.example.com", 30, 80);
    let with = |entry: &str| DataOverride {
        active: true,
        data: Strategy::from(
            String::from("--tcp_split"),
            String::from("5+"),
            false,
            "tcp",
            "",
            Some(vec![String::from(entry)]),
        ),
    };
    let (emissions, _) = dispatch(&vec![with("example")], &conf, &(39, 54), &tcp(), data.clone());
    assert_eq!(emissions, vec![Emission::Plain(data[..5].to_vec())]);
    let (emissions, left) = dispatch(&vec![with("other")], &conf, &(39, 54), &tcp(), data.clone());
    assert_eq!(emissions, vec![]);
    assert_eq!(left, data);
    let (emissions, _) = dispatch(&vec![with("example")], &conf, &(0, 0), &tcp(), data.clone());
    assert_eq!(emissions, vec![]);
}

#[test]
fn prologue_and_epilogue_surround_the_strategies() {
    let mut conf = base_config();
    conf.strategies = vec![one("--tcp_split", "5+")];
    conf.fake_clienthello = true;
    conf.fake_clienthello_sni = String::from("ya.ru");
    conf.disable_sack = true;
    conf.fake_packet_random = true;
    let mut data = DATA.to_vec();
    let emissions = execute_l4_bypasses(&conf, &tcp(), &mut data, &(2, 4));
    let hello = make_fake_hello(&conf);
    assert_eq!(hello.len(), 56 + 5);
    assert_eq!(&hello[..6], &[0x16, 0x03, 0x01, 0x00, 0xa5, 0x01]);
    assert_eq!(&hello[11..44], &[0u8; 33][..]);
    assert_eq!(&hello[44..56], &[0, 2, 0, 0x0a, 1, 0, 0, 16, 0, 0, 0, 0x28][..]);
    assert_eq!(&hello[56..], b"ya.ru");
    assert_eq!(
        emissions,
        vec![
            Emission::Decoy(hello),
            Emission::Plain(vec![0, 1, 2, 3, 4]),
            Emission::DisableSack,
            Emission::Decoy(make_random_vec(32, 0xDEAD)),
        ]
    );
    assert_eq!(data, vec![5, 6, 7, 8, 9]);
    let mut data = DATA.to_vec();
    let emissions = execute_l4_bypasses(&conf, &tcp(), &mut data, &(0, 0));
    assert_eq!(emissions.len(), 3);
    assert_eq!(emissions[0], Emission::Plain(vec![0, 1, 2, 3, 4]));
}

#[test]
fn hook_locates_the_name_before_the_edits() {
    let mut conf = base_config();
    conf.strategies = vec![one("--tcp_split", "1+s")];
    let data = client_hello(b"example.com", 30, 80);
    let (emissions, left) = client_hook(&conf, &tcp(), &data);
    assert_eq!(emissions, vec![Emission::Plain(data[..40].to_vec())]);
    assert_eq!(left, data[40..].to_vec());
    conf.http_host_space = true;
    conf.strategies = vec![];
    let (emissions, left) = client_hook(&conf, &tcp(), b"Host: a");
    assert_eq!(emissions, vec![]);
    assert_eq!(left, b"Host:  a".to_vec());
    assert_eq!(execute_l5_bypasses(b"Host: a", &conf), b"Host:  a".to_vec());
}

#[test]
fn counter_stops_the_dispatch_at_its_cap() {
    let mut conf = base_config();
    conf.strategies = vec![one("--tcp_split", "5+")];
    let mut counter = HopCounter::new(2);
    for hop in 1..=2u64 {
        let (emissions, left) = counter.intercept(&conf, &tcp(), &DATA);
        assert_eq!(emissions, vec![Emission::Plain(vec![0, 1, 2, 3, 4])]);
        assert_eq!(left, vec![5, 6, 7, 8, 9]);
        assert_eq!(counter.hops, hop);
    }
    for _ in 0..5 {
        let (emissions, left) = counter.intercept(&conf, &tcp(), &DATA);
        assert_eq!(emissions, vec![]);
        assert_eq!(left, DATA.to_vec());
        assert_eq!(counter.hops, 2);
        assert_eq!(counter.max_hops, 2);
    }
}

#[test]
fn exhausted_counter_hands_back_every_buffer_whatever_is_configured() {
    let mut conf = base_config();
    conf.strategies = vec![one("--tcp_meltdown", "1+"), one("--tls_record_frag", "1+")];
    conf.fake_clienthello = true;
    conf.disable_sack = true;
    conf.fake_packet_random = true;
    conf.http_host_space = true;
    let mut counter = HopCounter { hops: 7, max_hops: 7 };
    for data in [&b"Host: a"[..], &DATA[..], &client_hello(b"example.com", 30, 80)[..], &[][..]] {
        let (emissions, left) = counter.intercept(&conf, &tcp(), data);
        assert_eq!(emissions, vec![]);
        assert_eq!(left, data.to_vec());
        assert_eq!((counter.hops, counter.max_hops), (7, 7));
    }
    let mut past = HopCounter { hops: 9, max_hops: 7 };
    let (emissions, left) = past.intercept(&conf, &tcp(), &DATA);
    assert_eq!(emissions, vec![]);
    assert_eq!(left, DATA.to_vec());
    assert_eq!(past.hops, 9);
}

#[test]
fn counter_does_not_count_an_empty_buffer() {
    let conf = base_config();
    let mut counter = HopCounter::new(1);
    let (emissions, left) = counter.intercept(&conf, &tcp(), &[]);
    assert_eq!(emissions, vec![]);
    assert_eq!(left, Vec::<u8>::new());
    assert_eq!(counter.hops, 0);
    let mut closed = HopCounter::new(0);
    let (emissions, left) = closed.intercept(&conf, &tcp(), &DATA);
    assert_eq!(emissions, vec![]);
    assert_eq!(left, DATA.to_vec());
}

#[test]
fn jitter_is_a_part_of_its_bound() {
    assert_eq!(jitter_delay(7, 100), 12);
    assert_eq!(jitter_delay(0, 256), 110);
    assert_eq!(jitter_delay(0, 0), 0);
    assert_eq!(jitter_delay(0, u64::MAX), ((110u128 * u64::MAX as u128) / 256) as u64);
}
