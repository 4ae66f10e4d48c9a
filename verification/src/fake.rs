//! Decoy payloads: what is sent in place of the real bytes so that only an
//! inspector near the sender sees it.

use vstd::prelude::*;
use vstd::slice::slice_to_vec;
use vstd::string::{StrSliceExecFns, StringExecFns};
use crate::config::{AuxConfig, Strategy};
use crate::packet::{part_views, split_index, split_packet, split_parts};
use crate::sni::{parse_sni_index, sni_span};
use crate::text::{chars_of, string_of};

verus! {

/// The middle of a span.
pub open spec fn span_middle(span: (u32, u32)) -> int {
    (span.0 + span.1) / 2
}

/// Splits `packet_buffer` where `strategy` asks: at its base index, counted
/// from the middle of the server name that the buffer holds where the
/// strategy is relative to it.
pub fn get_split_packet(packet_buffer: &[u8], strategy: Strategy) -> (parts: Vec<Vec<u8>>)
    ensures
        part_views(parts@) == split_parts(
            packet_buffer@,
            split_index(
                strategy.base_index,
                strategy.add_sni,
                span_middle(sni_span(packet_buffer@)),
            ),
        ),
{
    let (sni_start, sni_end) = parse_sni_index(slice_to_vec(packet_buffer));
    let middle: i128 = strategy.base_index as i128 + if strategy.add_sni {
        (sni_start as i128 + sni_end as i128) / 2
    } else {
        0
    };
    split_packet(packet_buffer, middle)
}

/// The text that `{:?}` makes of a text: the text between quotes, with its
/// special characters escaped.
pub uninterp spec fn debug_text(text: Seq<char>) -> Seq<char>;

/// `format!("{:?}", text)`: std's `Debug` form of a string slice, which
/// depends on the text alone.
#[verifier::external_body]
fn debug_format(text: &str) -> (out: String)
    ensures
        out@ == debug_text(text@),
{
    format!("{:?}", text)
}

/// `text` without its double quotes.
pub open spec fn unquoted(text: Seq<char>) -> Seq<char> {
    text.filter(|c: char| c != '"')
}

/// The HTTP request that mimics a visit of the host that `quoted` names.
/// Double quotes in `quoted` are left out.
pub open spec fn http_request_for(quoted: Seq<char>) -> Seq<char> {
    "GET / HTTP 1.1\nHost: "@ + unquoted(quoted)
        + "\nContent-Type: text/html\nContent-Length: 1\na"@
}

/// Builds the decoy HTTP request round a host name that has been put in
/// its `Debug` form.
pub fn fake_http_around(quoted: &str) -> (request: String)
    ensures
        request@ == http_request_for(quoted@),
{
    let chars: Vec<char> = chars_of(quoted);
    let n: usize = chars.len();
    let mut kept: Vec<char> = Vec::new();
    let mut i: usize = 0;
    assert(chars@.take(0) =~= Seq::<char>::empty());
    reveal_with_fuel(Seq::filter, 2);
    while i < n
        invariant
            n == chars@.len(),
            i <= n,
            kept@ == unquoted(chars@.take(i as int)),
        decreases n - i,
    {
        let c: char = chars[i];
        proof {
            reveal_with_fuel(Seq::filter, 2);
            assert(chars@.take(i + 1).drop_last() =~= chars@.take(i as int));
        }
        if c != '"' {
            kept.push(c);
        }
        i += 1;
    }
    assert(chars@.take(n as int) =~= chars@);
    let host: String = string_of(&kept);
    let mut request: String = String::from_str("GET / HTTP 1.1\nHost: ");
    request.append(host.as_str());
    request.append("\nContent-Type: text/html\nContent-Length: 1\na");
    request
}

/// The decoy HTTP request for `host`.
pub fn get_fake_http(host: String) -> (request: String)
    ensures
        request@ == http_request_for(debug_text(host@)),
{
    let quoted: String = debug_format(host.as_str());
    fake_http_around(quoted.as_str())
}

/// The first byte of the UTF-8 form of `c`.
pub open spec fn leading_byte(c: char) -> u8 {
    let u = c as u32;
    if u < 0x80 {
        u as u8
    } else if u < 0x800 {
        (0xC0 + u / 0x40) as u8
    } else if u < 0x1_0000 {
        (0xE0 + u / 0x1000) as u8
    } else {
        (0xF0 + u / 0x4_0000) as u8
    }
}

/// The first byte of the UTF-8 form of `c`.
pub fn leading_byte_of(c: char) -> (b: u8)
    ensures
        b == leading_byte(c),
{
    let u: u32 = c as u32;
    if u < 0x80 {
        u as u8
    } else if u < 0x800 {
        (0xC0 + u / 0x40) as u8
    } else if u < 0x1_0000 {
        (0xE0 + u / 0x1000) as u8
    } else {
        (0xF0 + u / 0x4_0000) as u8
    }
}

/// `packet` with the bytes of `span` overwritten by the leading bytes of the
/// characters of `name`, one for one. Where `name` is shorter than the
/// span, the rest of the span stays; where it is longer, the rest of the
/// name is left out. The length never changes.
pub open spec fn with_name(packet: Seq<u8>, span: (u32, u32), name: Seq<char>) -> Seq<u8> {
    Seq::new(
        packet.len(),
        |i: int|
            if span.0 <= i < span.1 && i - span.0 < name.len() {
                leading_byte(name[i - span.0])
            } else {
                packet[i]
            },
    )
}

/// The decoy payload for `packet`: the override bytes where they are in
/// force; else the decoy HTTP request where HTTP mimicry is on; else the
/// packet with its server name overwritten by the decoy name.
pub open spec fn decoy_for(packet: Seq<u8>, conf: AuxConfig) -> Seq<u8> {
    if conf.fake_packet_override_data.active {
        conf.fake_packet_override_data.data@
    } else if conf.fake_packet_send_http {
        vstd::utf8::encode_utf8(http_request_for(debug_text(conf.fake_packet_host@)))
    } else {
        with_name(packet, sni_span(packet), conf.fake_packet_sni@)
    }
}

/// Overwrites the bytes of `span` in `packet` by the decoy `name`.
pub fn overwrite_name(packet: Vec<u8>, span: (u32, u32), name: &str) -> (out: Vec<u8>)
    ensures
        out@ == with_name(packet@, span, name@),
{
    let mut packet = packet;
    let ghost original = packet@;
    let decoy: Vec<char> = chars_of(name);
    let n: usize = packet.len();
    let start: usize = span.0 as usize;
    let end: usize = span.1 as usize;
    let mut i: usize = start;
    while i < end && i < n && i - start < decoy.len()
        invariant
            start == span.0,
            end == span.1,
            start <= i,
            i <= end || i == start,
            i - start <= decoy@.len(),
            n == original.len(),
            packet@.len() == n,
            decoy@ == name@,
            forall|k: int|
                0 <= k < n ==> packet@[k] == if start <= k < i {
                    leading_byte(name@[k - start])
                } else {
                    original[k]
                },
        decreases end - i,
    {
        let b: u8 = leading_byte_of(decoy[i - start]);
        packet.set(i, b);
        i += 1;
    }
    assert(packet@ =~= with_name(original, span, name@));
    packet
}

/// Builds the decoy payload for `packet`.
pub fn get_fake_packet(packet: Vec<u8>, conf: &AuxConfig) -> (decoy: Vec<u8>)
    ensures
        decoy@ == decoy_for(packet@, *conf),
{
    if conf.fake_packet_override_data.active {
        slice_to_vec(conf.fake_packet_override_data.data.as_slice())
    } else if conf.fake_packet_send_http {
        let quoted: String = debug_format(conf.fake_packet_host.as_str());
        let fake_http: String = fake_http_around(quoted.as_str());
        fake_http.as_str().as_bytes_vec()
    } else {
        let span: (u32, u32) = parse_sni_index(slice_to_vec(packet.as_slice()));
        overwrite_name(packet, span, conf.fake_packet_sni.as_str())
    }
}

} // verus!
