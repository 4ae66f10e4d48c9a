use waterfall::config::Strategy;
use waterfall::packet::{make_random_vec, split_packet, Random};
use waterfall::sni::parse_sni_index;
use waterfall::{disoob, fake, split};

fn client_hello(name: &[u8], at: usize, total: usize) -> Vec<u8> {
    let mut buffer: Vec<u8> = vec![0xFF; total];
    buffer[0] = 0x16;
    buffer[1] = 0x03;
    buffer[2] = 0x01;
    buffer[5] = 0x01;
    buffer[at] = 0;
    buffer[at + 1] = 0;
    buffer[at + 2] = 0;
    buffer[at + 3] = name.len() as u8 + 5;
    buffer[at + 4] = 0;
    buffer[at + 5] = name.len() as u8 + 3;
    buffer[at + 6] = 0;
    buffer[at + 7] = 0;
    buffer[at + 8] = name.len() as u8;
    buffer[at + 9..at + 9 + name.len()].copy_from_slice(name);
    buffer
}

fn strategy(method: &str, offset: &str) -> Strategy {
    Strategy::from(String::from(method), String::from(offset), false, "tcp", "", None)
}

#[test]
fn split_parts_join_to_the_buffer() {
    let buffer: Vec<u8> = (1u8..=20).collect();
    for middle in 1..20i128 {
        let parts = split_packet(&buffer, middle);
        assert_eq!(parts.len(), 2);
        assert_eq!(parts[0].len() as i128, middle);
        let mut joined = parts[0].clone();
        joined.extend_from_slice(&parts[1]);
        assert_eq!(joined, buffer);
    }
}

#[test]
fn split_outside_the_buffer_leaves_it_whole() {
    let buffer: Vec<u8> = (1u8..=20).collect();
    for middle in [-5i128, -1, 0, 20, 21, 1 << 70] {
        assert_eq!(split_packet(&buffer, middle), vec![buffer.clone()]);
    }
    assert_eq!(split_packet(&[], 0), vec![Vec::<u8>::new()]);
}

#[test]
fn locator_finds_the_name_of_a_client_hello() {
    let buffer = client_hello(b"example.com", 30, 80);
    let (start, end) = parse_sni_index(buffer.clone());
    assert_eq!((start, end), (39, 50));
    assert_eq!(&buffer[start as usize..end as usize], b"example.com");
}

#[test]
fn locator_gives_no_span_for_short_buffers() {
    for len in 0..48usize {
        let mut buffer = client_hello(b"example.com", 10, 48);
        buffer.truncate(len);
        assert_eq!(parse_sni_index(buffer), (0, 0));
    }
}

#[test]
fn locator_wants_a_handshake_record_with_a_client_hello() {
    let mut buffer = client_hello(b"example.com", 30, 80);
    buffer[0] = 0x17;
    assert_eq!(parse_sni_index(buffer), (0, 0));
    let mut buffer = client_hello(b"example.com", 30, 80);
    buffer[5] = 0x02;
    assert_eq!(parse_sni_index(buffer), (0, 0));
}

#[test]
fn locator_without_a_marker_gives_no_span() {
    let mut buffer: Vec<u8> = vec![0xFF; 64];
    buffer[0] = 0x16;
    buffer[5] = 0x01;
    assert_eq!(parse_sni_index(buffer), (0, 0));
}

#[test]
fn locator_decides_at_the_first_marker() {
    let mut buffer = client_hello(b"example.com", 30, 80);
    buffer[10] = 0;
    buffer[11] = 0;
    buffer[13] = 7;
    buffer[15] = 5;
    buffer[17] = 0;
    buffer[18] = 0;
    assert_eq!(parse_sni_index(buffer.clone()), (0, 0));
    buffer[18] = 200;
    assert_eq!(parse_sni_index(buffer.clone()), (0, 0));
    buffer[18] = 3;
    assert_eq!(parse_sni_index(buffer), (19, 22));
}

#[test]
fn locator_does_not_read_a_marker_in_the_last_eight_bytes() {
    let buffer = client_hello(b"ab", 40, 51);
    assert_eq!(parse_sni_index(buffer), (49, 51));
    let buffer = client_hello(b"a", 40, 50);
    assert_eq!(parse_sni_index(buffer), (49, 50));
    let mut buffer = client_hello(b"a", 40, 50);
    buffer.truncate(48);
    assert_eq!(parse_sni_index(buffer), (0, 0));
}

#[test]
fn filler_bytes_are_the_generators() {
    assert_eq!(make_random_vec(8, 0), vec![110, 80, 204, 249, 82, 46, 254, 217]);
    assert_eq!(make_random_vec(4, 0xDEAD), vec![24, 193, 86, 42]);
    assert_eq!(make_random_vec(0, 5), Vec::<u8>::new());
}

#[test]
fn generator_steps_as_the_filler_does() {
    let mut rand = Random::new(0);
    assert_eq!(rand.next_rand(), 110);
    assert_eq!(rand.next_rand(), 80);
    let mut rand = Random::new(7);
    assert_eq!(rand.next_rand(), 32);
    let mut rand = Random::new(u32::MAX);
    let expected = ((u32::MAX.wrapping_mul(1664525).wrapping_add(1013904223)) >> 16) as u8;
    assert_eq!(rand.next_rand(), expected);
}

#[test]
fn split_cut_counts_from_the_start_of_the_name() {
    let buffer = client_hello(b"example.com", 30, 80);
    let parts = split::get_split_packet(&buffer, strategy("--tcp_split", "2+s"));
    assert_eq!(parts.len(), 2);
    assert_eq!(parts[0], buffer[..41].to_vec());
    assert_eq!(parts[1], buffer[41..].to_vec());
    let parts = split::get_split_packet(&buffer, strategy("--tcp_split", "3+"));
    assert_eq!(parts[0], buffer[..3].to_vec());
    let parts = split::get_split_packet(&buffer, strategy("--tcp_split", "-3+s"));
    assert_eq!(parts[0], buffer[..36].to_vec());
    let parts = split::get_split_packet(&buffer, strategy("--tcp_split", "80+"));
    assert_eq!(parts, vec![buffer.clone()]);
    let parts = split::get_split_packet(&buffer, strategy("--tcp_split", "-3+"));
    assert_eq!(parts, vec![buffer.clone()]);
}

#[test]
fn disoob_cut_counts_from_the_span_it_is_given() {
    let buffer: Vec<u8> = (0u8..30).collect();
    let parts = disoob::get_split_packet(&buffer, strategy("--tcp_out_of_band", "1+s"), &(10, 20));
    assert_eq!(parts, vec![buffer[..11].to_vec(), buffer[11..].to_vec()]);
    let parts = disoob::get_split_packet(&buffer, strategy("--tcp_out_of_band", "4+"), &(10, 20));
    assert_eq!(parts, vec![buffer[..4].to_vec(), buffer[4..].to_vec()]);
    let parts = disoob::get_split_packet(&buffer, strategy("--tcp_out_of_band", "0+"), &(10, 20));
    assert_eq!(parts, vec![buffer.clone()]);
    let parts = disoob::get_split_packet(&buffer, strategy("--tcp_out_of_band", "25+s"), &(10, 20));
    assert_eq!(parts, vec![buffer.clone()]);
}

#[test]
fn fake_cut_counts_from_the_middle_of_the_name() {
    let buffer = client_hello(b"example.com", 30, 80);
    let parts = fake::get_split_packet(&buffer, strategy("--tcp_fake_insert", "0+s"));
    assert_eq!(parts, vec![buffer[..44].to_vec(), buffer[44..].to_vec()]);
    let parts = fake::get_split_packet(&buffer, strategy("--tcp_fake_insert", "6+"));
    assert_eq!(parts, vec![buffer[..6].to_vec(), buffer[6..].to_vec()]);
}
