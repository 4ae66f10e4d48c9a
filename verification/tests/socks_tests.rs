use waterfall::doh::{answer_data, answers_in, get_first_ip, member, Json};
use waterfall::socks::{find_udp_payload_start, IpParser};

#[test]
fn udp_payload_follows_the_address() {
    assert_eq!(find_udp_payload_start(&[0, 0, 0, 1, 9, 9, 9, 9, 0, 80, 7]), 10);
    assert_eq!(find_udp_payload_start(&[0, 0, 0, 3, 5, b'a']), 12);
    assert_eq!(find_udp_payload_start(&[0, 0, 0, 3, 255]), 262);
    assert_eq!(find_udp_payload_start(&[0, 0, 0, 4]), 22);
    assert_eq!(find_udp_payload_start(&[0, 0, 0, 3]), 0);
    assert_eq!(find_udp_payload_start(&[0, 0, 0, 9]), 0);
    assert_eq!(find_udp_payload_start(&[0, 0, 0]), 0);
    assert_eq!(find_udp_payload_start(&[]), 0);
}

#[test]
fn request_with_an_ipv4_address() {
    let parsed = IpParser::parse(&[5, 1, 0, 1, 10, 20, 30, 40, 0x01, 0xBB]);
    assert_eq!(
        parsed,
        IpParser {
            host_raw: vec![10, 20, 30, 40],
            host_unprocessed: vec![10, 20, 30, 40],
            port: 443,
            dest_addr_type: 1,
            is_udp: false,
        }
    );
    assert_eq!(parsed.reply(), vec![5, 0, 0, 1, 10, 20, 30, 40, 0x01, 0xBB]);
}

#[test]
fn request_with_a_domain_name() {
    let mut request = vec![5, 3, 0, 3, 5];
    request.extend_from_slice(b"ya.ru");
    request.extend_from_slice(&[0x1F, 0x90, 9, 9]);
    let parsed = IpParser::parse(&request);
    assert_eq!(
        parsed,
        IpParser {
            host_raw: vec![0, 0, 0, 0],
            host_unprocessed: b"ya.ru".to_vec(),
            port: 8080,
            dest_addr_type: 3,
            is_udp: true,
        }
    );
    assert_eq!(parsed.reply(), vec![5, 0, 0, 3, 5, b'y', b'a', b'.', b'r', b'u', 0x1F, 0x90]);
    let resolved = parsed.with_host(vec![1, 2, 3, 4]);
    assert_eq!(resolved.host_raw, vec![1, 2, 3, 4]);
    assert_eq!(resolved.host_unprocessed, b"ya.ru".to_vec());
    assert_eq!(resolved.port, 8080);
}

#[test]
fn request_with_a_domain_name_that_is_cut_short() {
    let parsed = IpParser::parse(&[5, 1, 0, 3, 20, b'a', b'b', b'c', 0, 80]);
    assert_eq!(
        parsed,
        IpParser {
            host_raw: vec![0, 0, 0, 0],
            host_unprocessed: vec![],
            port: 0,
            dest_addr_type: 3,
            is_udp: false,
        }
    );
}

#[test]
fn request_with_an_ipv6_address() {
    let mut request = vec![5, 1, 0, 4];
    let address: Vec<u8> = (1u8..=16).collect();
    request.extend_from_slice(&address);
    request.extend_from_slice(&[0, 80]);
    let parsed = IpParser::parse(&request);
    assert_eq!(parsed.host_raw, address);
    assert_eq!(parsed.host_unprocessed, address);
    assert_eq!(parsed.port, 80);
    request.truncate(21);
    let parsed = IpParser::parse(&request);
    assert_eq!(parsed.host_raw, vec![0; 16]);
    assert_eq!(parsed.host_unprocessed, vec![0; 16]);
    assert_eq!(parsed.port, 0);
    assert_eq!(parsed.dest_addr_type, 4);
}

#[test]
fn request_that_is_too_short_or_of_an_unknown_kind() {
    let parsed = IpParser::parse(&[5, 3, 0, 1, 1, 2, 3, 4, 0]);
    assert_eq!(
        parsed,
        IpParser { host_raw: vec![], host_unprocessed: vec![], port: 0, dest_addr_type: 0, is_udp: false }
    );
    let parsed = IpParser::parse(&[5, 3, 0, 7, 1, 2, 3, 4, 0, 80]);
    assert_eq!(
        parsed,
        IpParser { host_raw: vec![], host_unprocessed: vec![], port: 0, dest_addr_type: 7, is_udp: true }
    );
    assert_eq!(parsed.reply(), vec![5, 0, 0, 7, 0, 0]);
}

#[test]
fn answer_lists_the_data_of_its_items() {
    let body = br#"{"Status":0,"Answer":[{"name":"a","type":5,"data":"b.example."},{"type":1},{"data":7},{"name":"b","data":"93.184.216.34"}]}"#;
    assert_eq!(
        answer_data(body.to_vec()),
        Ok(vec![String::from("b.example."), String::from("93.184.216.34")])
    );
    assert_eq!(answer_data(br#"{"Answer":[]}"#.to_vec()), Ok(vec![]));
}

#[test]
fn answer_errors_have_their_messages() {
    assert_eq!(answer_data(vec![0xFF, 0xFE]), Err(String::from("Malformed request body")));
    assert_eq!(answer_data(b"{".to_vec()), Err(String::from("JSON Parse error")));
    assert_eq!(answer_data(b"{} x".to_vec()), Err(String::from("JSON Parse error")));
    assert_eq!(answer_data(b"".to_vec()), Err(String::from("JSON Parse error")));
    assert_eq!(answer_data(b"{}".to_vec()), Err(String::from("Malformed Answer")));
    assert_eq!(answer_data(br#"{"Answer":{}}"#.to_vec()), Err(String::from("Malformed Answer")));
    assert_eq!(answer_data(br#"{"answer":[]}"#.to_vec()), Err(String::from("Malformed Answer")));
    assert_eq!(answer_data(b"[1]".to_vec()), Err(String::from("Malformed Answer")));
}

#[test]
fn answer_with_a_repeated_key_keeps_the_last() {
    let body = br#"{"Answer":[{"data":"first"}],"Answer":[{"data":"last"}]}"#;
    assert_eq!(answer_data(body.to_vec()), Ok(vec![String::from("last")]));
}

#[test]
fn member_is_looked_up_by_its_key() {
    let object = Json::Object(vec![
        (String::from("a"), Json::Number),
        (String::from("b"), Json::Text(String::from("x"))),
    ]);
    assert_eq!(member(&object, "b"), Some(&Json::Text(String::from("x"))));
    assert_eq!(member(&object, "a"), Some(&Json::Number));
    assert_eq!(member(&object, "c"), None);
    assert_eq!(member(&Json::Array(vec![]), "a"), None);
    assert_eq!(member(&Json::Null, "a"), None);
    let document = Json::Object(vec![(
        String::from("Answer"),
        Json::Array(vec![
            Json::Object(vec![(String::from("data"), Json::Text(String::from("1.1.1.1")))]),
            Json::Bool(true),
        ]),
    )]);
    assert_eq!(answers_in(&document), Ok(vec![String::from("1.1.1.1")]));
    assert_eq!(answers_in(&Json::Null), Err(String::from("Malformed Answer")));
}

#[test]
fn first_address_is_the_first_marked_candidate() {
    let candidates = vec![String::from("b.example."), String::from("1.2.3.4"), String::from("::1")];
    assert_eq!(get_first_ip(&candidates, &vec![false, true, true]), Ok(String::from("1.2.3.4")));
    assert_eq!(get_first_ip(&candidates, &vec![true, true, true]), Ok(String::from("b.example.")));
    assert_eq!(get_first_ip(&candidates, &vec![false, false, true]), Ok(String::from("::1")));
    assert_eq!(get_first_ip(&candidates, &vec![false, false, false]), Err(String::from("400")));
    assert_eq!(get_first_ip(&candidates, &vec![false]), Err(String::from("400")));
    assert_eq!(get_first_ip(&vec![], &vec![true]), Err(String::from("400")));
}
