//! Heuristic locator of the Server Name Indication inside a TLS ClientHello,
//! and the allow-list check that keys off the located name.

use vstd::prelude::*;
use vstd::slice::slice_subrange;
use crate::text::{chars_contain, chars_of, contains_run};

verus! {

/// The span that stands for "no server name found".
pub open spec fn no_span() -> (u32, u32) {
    (0u32, 0u32)
}

/// `buf` starts like a TLS handshake record that carries a ClientHello and is
/// long enough to be scanned.
pub open spec fn looks_like_client_hello(buf: Seq<u8>) -> bool {
    buf.len() >= 48 && buf[0] == 0x16 && buf[5] == 0x01
}

/// The byte pattern that precedes the server name list: two zero bytes, a
/// zero byte seven places on, and two length bytes that differ by two.
pub open spec fn marker_at(buf: Seq<u8>, i: int) -> bool {
    &&& 0 <= i
    &&& i + 8 < buf.len()
    &&& buf[i] == 0
    &&& buf[i + 1] == 0
    &&& buf[i + 7] == 0
    &&& buf[i + 3] - buf[i + 5] == 2
}

/// No marker stands before position `i`.
pub open spec fn no_marker_before(buf: Seq<u8>, i: int) -> bool {
    forall|j: int| 0 <= j < i ==> !marker_at(buf, j)
}

/// The span that a marker at `i` announces: the name starts nine bytes after
/// the marker and is as long as the byte before it says. An empty name, or
/// one that would run past the end of `buf`, gives no span.
pub open spec fn span_at(buf: Seq<u8>, i: int) -> (u32, u32) {
    let name_len = buf[i + 8] as int;
    if name_len > 0 && i + 9 + name_len <= buf.len() {
        ((i + 9) as u32, (i + 9 + name_len) as u32)
    } else {
        no_span()
    }
}

/// The position of the first marker at or after `from`, or the length of
/// `buf` where none follows.
pub open spec fn first_marker(buf: Seq<u8>, from: int) -> int
    decreases buf.len() - from,
{
    if from < 0 || from + 8 >= buf.len() {
        buf.len() as int
    } else if marker_at(buf, from) {
        from
    } else {
        first_marker(buf, from + 1)
    }
}

/// The span of the server name in `buf`. Only the first marker counts: the
/// span is the one it announces, and `(0, 0)` where `buf` is no ClientHello,
/// holds no marker, or the first marker announces no name.
pub open spec fn sni_span(buf: Seq<u8>) -> (u32, u32) {
    if !looks_like_client_hello(buf) {
        no_span()
    } else if first_marker(buf, 0) < buf.len() {
        span_at(buf, first_marker(buf, 0))
    } else {
        no_span()
    }
}

/// `first_marker` finds the least position at or after `from` that holds a
/// marker, and the length of `buf` exactly where there is none.
pub proof fn lemma_first_marker(buf: Seq<u8>, from: int)
    requires
        0 <= from,
    ensures
        first_marker(buf, from) < buf.len() ==> from <= first_marker(buf, from) && marker_at(
            buf,
            first_marker(buf, from),
        ),
        first_marker(buf, from) >= buf.len() ==> first_marker(buf, from) == buf.len(),
        forall|j: int| from <= j < first_marker(buf, from) ==> !marker_at(buf, j),
    decreases buf.len() - from,
{
    if from + 8 < buf.len() && !marker_at(buf, from) {
        lemma_first_marker(buf, from + 1);
    }
}

/// A buffer shorter than 48 bytes has no span.
pub proof fn lemma_short_buffer_has_no_span(buf: Seq<u8>)
    requires
        buf.len() < 48,
    ensures
        sni_span(buf) == no_span(),
{
}

/// In a ClientHello the span is the one that the first marker announces,
/// and there is none where no marker stands.
pub proof fn lemma_span_of_first_marker(buf: Seq<u8>, i: int)
    requires
        looks_like_client_hello(buf),
    ensures
        marker_at(buf, i) && no_marker_before(buf, i) ==> sni_span(buf) == span_at(buf, i),
        no_marker_before(buf, buf.len() as int) ==> sni_span(buf) == no_span(),
{
    lemma_first_marker(buf, 0);
    let f = first_marker(buf, 0);
    if marker_at(buf, i) && no_marker_before(buf, i) {
        if f < i {
            assert(!marker_at(buf, f));
        }
        if i < f {
            assert(!marker_at(buf, i));
        }
    }
    if no_marker_before(buf, buf.len() as int) {
        if f < buf.len() {
            assert(!marker_at(buf, f));
        }
    }
}

/// A span that is not `(0, 0)` is a non-empty range inside the buffer, as
/// long as the buffer's length fits the span's 32 bits.
pub proof fn lemma_span_in_bounds(buf: Seq<u8>)
    requires
        buf.len() <= u32::MAX,
    ensures
        sni_span(buf) != no_span() ==> sni_span(buf).0 < sni_span(buf).1 <= buf.len(),
        sni_span(buf).0 <= sni_span(buf).1,
{
    lemma_first_marker(buf, 0);
}

/// Locates the server name in `source`.
pub fn parse_sni_index(source: Vec<u8>) -> (span: (u32, u32))
    ensures
        span == sni_span(source@),
{
    let n: usize = source.len();
    if n < 48 || source[0] != 0x16 || source[5] != 0x01 {
        return (0, 0);
    }
    let limit: usize = n - 8;
    let mut i: usize = 0;
    while i < limit
        invariant
            n == source@.len(),
            looks_like_client_hello(source@),
            limit == n - 8,
            i <= limit,
            first_marker(source@, 0) == first_marker(source@, i as int),
        decreases limit - i,
    {
        if source[i] == 0x00 && source[i + 1] == 0x00 && source[i + 7] == 0x00 && source[i + 3]
            >= 2 && source[i + 3] - 2 == source[i + 5] {
            assert(marker_at(source@, i as int));
            let name_len: usize = source[i + 8] as usize;
            if name_len > 0 && name_len <= n - 9 - i {
                let start: usize = i + 9;
                let end: usize = start + name_len;
                return (#[verifier::truncate] (start as u32), #[verifier::truncate] (end as u32));
            }
            return (0, 0);
        }
        i += 1;
    }
    (0, 0)
}

/// The text that a lossy UTF-8 decoding makes of `bytes`.
pub uninterp spec fn utf8_lossy(bytes: Seq<u8>) -> Seq<char>;

/// `String::from_utf8_lossy`: the text that std's lossy UTF-8 decoding makes
/// of `bytes`, which depends on the bytes alone. Bytes that are valid UTF-8
/// are decoded as they are.
#[verifier::external_body]
fn decode_lossy(bytes: &[u8]) -> (text: String)
    ensures
        text@ == utf8_lossy(bytes@),
        vstd::utf8::valid_utf8(bytes@) ==> text@ == vstd::utf8::decode_utf8(bytes@),
{
    String::from_utf8_lossy(bytes).into_owned()
}

/// The text that the allow-list reads in `bytes`: what they decode to where
/// they are valid UTF-8, and what the lossy decoding makes of them where
/// they are not.
pub open spec fn name_text(bytes: Seq<u8>) -> Seq<char> {
    if vstd::utf8::valid_utf8(bytes) {
        vstd::utf8::decode_utf8(bytes)
    } else {
        utf8_lossy(bytes)
    }
}

/// Some entry of `list` stands in `name` as a contiguous run of characters.
pub open spec fn listed(list: Seq<String>, name: Seq<char>) -> bool {
    exists|k: int| 0 <= k < list.len() && contains_run(name, #[trigger] list[k]@)
}

/// Whether some entry of the allow-list `list` is a substring of `name`.
pub fn whitelist_matches(list: &Vec<String>, name: &str) -> (hit: bool)
    ensures
        hit == listed(list@, name@),
{
    let hay: Vec<char> = chars_of(name);
    let n: usize = list.len();
    let mut k: usize = 0;
    while k < n
        invariant
            n == list@.len(),
            k <= n,
            hay@ == name@,
            forall|j: int| 0 <= j < k ==> !contains_run(name@, #[trigger] list@[j]@),
        decreases n - k,
    {
        let needle: Vec<char> = chars_of(list[k].as_str());
        if chars_contain(&hay, &needle) {
            return true;
        }
        k += 1;
    }
    false
}

/// What the allow-list check decides for a span `sni` into `data`: without a
/// list every buffer passes; with one, the span has to be a real one that
/// lies inside `data`, and the name it covers has to hold an entry of the
/// list.
pub open spec fn whitelisted(config: Option<Vec<String>>, sni: (u32, u32), data: Seq<u8>) -> bool {
    match config {
        None => true,
        Some(list) => {
            &&& sni != no_span()
            &&& sni.1 <= data.len()
            &&& listed(list@, name_text(data.subrange(sni.0 as int, sni.1 as int)))
        },
    }
}

/// Decides whether a buffer passes the server-name allow-list.
pub fn check_whitelist(config: &Option<Vec<String>>, sni_data: &(u32, u32), data: &[u8]) -> (pass:
    bool)
    requires
        sni_data.0 <= sni_data.1,
    ensures
        pass == whitelisted(*config, *sni_data, data@),
{
    match config {
        None => true,
        Some(list) => {
            if sni_data.0 == 0 && sni_data.1 == 0 {
                return false;
            }
            let start: usize = sni_data.0 as usize;
            let end: usize = sni_data.1 as usize;
            if data.len() < end {
                return false;
            }
            let name: String = decode_lossy(slice_subrange(data, start, end));
            whitelist_matches(list, name.as_str())
        },
    }
}

} // verus!
