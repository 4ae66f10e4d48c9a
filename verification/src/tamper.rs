//! Rewriting of what a buffer carries: re-framing a TLS record as two
//! records, and small edits of an HTTP `Host:` header.

use vstd::prelude::*;
use vstd::string::StringExecFns;
use crate::config::AuxConfig;
use crate::scan::aob_scan;
use crate::text::{contains_run, occurs_at, string_of};

verus! {

/// A TLS handshake record of version 3.1 round `payload`: the type, the
/// version, the low sixteen bits of the payload's length, high byte first,
/// then the payload.
pub open spec fn record_of(payload: Seq<u8>) -> Seq<u8> {
    seq![
        0x16u8,
        0x03u8,
        0x01u8,
        ((payload.len() / 256) % 256) as u8,
        (payload.len() % 256) as u8,
    ] + payload
}

/// The length that the record header at `at` declares.
pub open spec fn declared_len(bytes: Seq<u8>, at: int) -> int {
    bytes[at + 3] * 256 + bytes[at + 4]
}

/// Frames `data` as the payload of one TLS record.
pub fn as_record(data: Vec<u8>) -> (record: Vec<u8>)
    ensures
        record@ == record_of(data@),
{
    let n: usize = data.len();
    let mut record: Vec<u8> = Vec::new();
    record.push(0x16u8);
    record.push(0x03u8);
    record.push(0x01u8);
    record.push(((n / 256) % 256) as u8);
    record.push((n % 256) as u8);
    let ghost payload = data@;
    let mut data = data;
    record.append(&mut data);
    assert(record@ =~= record_of(payload));
    record
}

/// `data` starts with the first three bytes of a TLS 3.1 handshake record.
pub open spec fn has_record_header(data: Seq<u8>) -> bool {
    data.len() >= 3 && data[0] == 0x16 && data[1] == 0x03 && data[2] == 0x01
}

/// `data` is a record whose payload can be cut at `index`.
pub open spec fn can_fragment(data: Seq<u8>, index: int) -> bool {
    has_record_header(data) && data.len() >= 5 && 0 <= index <= data.len() - 5
}

/// The two records that carry the payload of `data` before and from `index`.
pub open spec fn fragments(data: Seq<u8>, index: int) -> Seq<u8> {
    record_of(data.subrange(5, 5 + index)) + record_of(data.skip(5 + index))
}

/// Splits the one record in `data` into two at `index` of its payload. Data
/// that does not start with a record header comes back as it is.
pub fn edit_tls(data: Vec<u8>, index: usize) -> (out: Vec<u8>)
    requires
        has_record_header(data@) ==> can_fragment(data@, index as int),
    ensures
        has_record_header(data@) ==> out@ == fragments(data@, index as int),
        !has_record_header(data@) ==> out@ == data@,
{
    let mut data = data;
    if data.len() >= 3 && data[0] == 0x16 && data[1] == 0x03 && data[2] == 0x01 {
        let ghost whole = data@;
        let mut payload: Vec<u8> = data.split_off(5);
        let second_part: Vec<u8> = payload.split_off(index);
        assert(payload@ =~= whole.subrange(5, 5 + index));
        assert(second_part@ =~= whole.skip(5 + index));
        let mut result: Vec<u8> = as_record(payload);
        let mut record2: Vec<u8> = as_record(second_part);
        result.append(&mut record2);
        return result;
    }
    data
}

/// Splits the record in `data` as `edit_tls` does where its payload can be
/// cut at `index`, and hands `data` back as it is where it cannot.
pub fn fragment_record(data: Vec<u8>, index: usize) -> (out: Vec<u8>)
    ensures
        can_fragment(data@, index as int) ==> out@ == fragments(data@, index as int),
        !can_fragment(data@, index as int) ==> out@ == data@,
{
    let n: usize = data.len();
    if n >= 5 && data[0] == 0x16 && data[1] == 0x03 && data[2] == 0x01 && index <= n - 5 {
        edit_tls(data, index)
    } else {
        data
    }
}

/// The two records that `edit_tls` makes carry the payload of the one it
/// was given, in order, and each declares the length of what it carries,
/// as long as each part fits the sixteen bits of the length field.
pub proof fn lemma_fragments_round_trip(data: Seq<u8>, index: int)
    requires
        can_fragment(data, index),
        index <= 0xFFFF,
        data.len() - 5 - index <= 0xFFFF,
    ensures
        ({
            let out = fragments(data, index);
            let second = 5 + index;
            &&& out.len() == data.len() + 5
            &&& declared_len(out, 0) == index
            &&& declared_len(out, second) == data.len() - 5 - index
            &&& out.subrange(5, 5 + declared_len(out, 0)) + out.skip(second + 5) == data.skip(5)
            &&& has_record_header(out)
            &&& has_record_header(out.skip(second))
        }),
{
    let out = fragments(data, index);
    let first = record_of(data.subrange(5, 5 + index));
    let rest = record_of(data.skip(5 + index));
    assert(out =~= first + rest);
    assert(out[3] == first[3] && out[4] == first[4]);
    assert(out[5 + index + 3] == rest[3] && out[5 + index + 4] == rest[4]);
    assert(out.subrange(5, 5 + index) + out.skip(5 + index + 5) =~= data.skip(5));
}

/// `data` holds `Host:` from position `i` on.
pub open spec fn host_header_at(data: Seq<u8>, i: int) -> bool {
    &&& 0 <= i
    &&& i + 4 < data.len()
    &&& data[i] == 72
    &&& data[i + 1] == 111
    &&& data[i + 2] == 115
    &&& data[i + 3] == 116
    &&& data[i + 4] == 58
}

/// The upper-case form of an ASCII letter; any other byte as it is.
pub open spec fn ascii_upper(b: u8) -> u8 {
    if 97 <= b <= 122 {
        (b - 32) as u8
    } else {
        b
    }
}

/// What the edits make of `data` where `Host:` stands at `i`, in this
/// order: `Host` becomes `HOST`; a space after the colon is removed; a space
/// is put after the colon; the byte six places after `i` is put in upper
/// case. An edit that would read past the end of the data, or put a
/// non-ASCII byte in upper case, is left out.
pub open spec fn edit_host_at(data: Seq<u8>, i: int, conf: AuxConfig) -> Seq<u8> {
    if !host_header_at(data, i) {
        data
    } else {
        let mixed = if conf.http_host_cmix {
            data.update(i + 1, 79u8).update(i + 3, 84u8)
        } else {
            data
        };
        let closed = if conf.http_host_rmspace && i + 5 < mixed.len() && mixed[i + 5] == 32 {
            mixed.remove(i + 5)
        } else {
            mixed
        };
        let spaced = if conf.http_host_space {
            closed.insert(i + 5, 32u8)
        } else {
            closed
        };
        if conf.http_domain_cmix && i + 6 < spaced.len() && spaced[i + 6] < 128 {
            spaced.update(i + 6, ascii_upper(spaced[i + 6]))
        } else {
            spaced
        }
    }
}

/// The edits applied at each position from `i` up to `n` in turn, each to
/// what the one before left.
pub open spec fn edit_http_from(data: Seq<u8>, i: int, n: int, conf: AuxConfig) -> Seq<u8>
    decreases n - i,
{
    if i >= n {
        data
    } else {
        edit_http_from(edit_host_at(data, i, conf), i + 1, n, conf)
    }
}

/// Where no edit is asked for, the data stays as it is.
pub proof fn lemma_no_edit_asked(data: Seq<u8>, i: int, n: int, conf: AuxConfig)
    requires
        !conf.http_host_cmix,
        !conf.http_host_rmspace,
        !conf.http_host_space,
        !conf.http_domain_cmix,
    ensures
        edit_http_from(data, i, n, conf) == data,
    decreases n - i,
{
    if i < n {
        lemma_no_edit_asked(data, i + 1, n, conf);
    }
}

/// Edits every `Host:` header in `data` as `conf` asks. The positions that
/// are visited are those of the data as it came in.
pub fn edit_http(data: Vec<u8>, conf: &AuxConfig) -> (out: Vec<u8>)
    ensures
        out@ == edit_http_from(data@, 0, data@.len() as int, *conf),
{
    let mut data = data;
    let n: usize = data.len();
    let ghost original = data@;
    let mut iter: usize = 0;
    while iter < n
        invariant
            iter <= n,
            edit_http_from(original, 0, n as int, *conf) == edit_http_from(
                data@,
                iter as int,
                n as int,
                *conf,
            ),
        decreases n - iter,
    {
        let ghost before = data@;
        if data.len() >= 5 && iter < data.len() - 4 && data[iter] == 72 && data[iter + 1] == 111
            && data[iter + 2] == 115 && data[iter + 3] == 116 && data[iter + 4] == 58 {
            if conf.http_host_cmix {
                data.set(iter + 1, 79);
                data.set(iter + 3, 84);
            }
            if conf.http_host_rmspace && iter + 5 < data.len() && data[iter + 5] == 32 {
                data.remove(iter + 5);
            }
            if conf.http_host_space {
                data.insert(iter + 5, 32);
            }
            if conf.http_domain_cmix && data.len() > 6 && iter < data.len() - 6 && data[iter + 6]
                < 128 {
                let b: u8 = data[iter + 6];
                let upper: u8 = if 97 <= b && b <= 122 {
                    b - 32
                } else {
                    b
                };
                data.set(iter + 6, upper);
            }
        }
        assert(data@ == edit_host_at(before, iter as int, *conf));
        iter += 1;
    }
    data
}

/// The bytes that open a ClientHello for the locator by fixed offsets.
pub open spec fn hello_pattern() -> Seq<u8> {
    seq![16u8, 3u8, 3u8, 0u8, 31u8]
}

/// The pattern stands at the very start of `source`, or nowhere in it:
/// that is where a scan answers 0.
pub open spec fn scan_is_zero(source: Seq<u8>) -> bool {
    occurs_at(source, hello_pattern(), 0) || !contains_run(source, hello_pattern())
}

/// Where the locator by fixed offsets takes the name to start: thirteen bytes
/// after an offset made of the bytes at 44 and 45.
pub open spec fn header_name_start(source: Seq<u8>) -> int {
    (((45 + source[44]) as u16) | (source[45] as u16)) + 13
}

/// The character that a lossy decoding makes of one byte alone.
pub open spec fn lossy_byte(b: u8) -> char {
    if b < 128 {
        b as char
    } else {
        '\u{FFFD}'
    }
}

/// The name that the locator by fixed offsets gives: one character for each
/// position from the start of the name up to its announced end, made of the
/// low byte of the position itself.
pub open spec fn header_name(source: Seq<u8>) -> Seq<char> {
    let start = header_name_start(source);
    Seq::new(source[start] as nat, |k: int| lossy_byte(((start + k) % 256) as u8))
}

/// Whether the locator by fixed offsets can read `source`: it reads the bytes at
/// 44 and 45 and the one at the start of the name.
pub open spec fn header_readable(source: Seq<u8>) -> bool {
    source.len() > 45 && header_name_start(source) < source.len()
}

/// The locator of the server name by fixed offsets. Where a scan for the opening
/// pattern answers 0, it reads the name at a place that the bytes at 44 and
/// 45 give; elsewhere the name is `NULL.COM`.
pub fn parse_sni(source: Vec<u8>) -> (sni: String)
    requires
        scan_is_zero(source@) ==> header_readable(source@),
    ensures
        scan_is_zero(source@) ==> sni@ == header_name(source@),
        !scan_is_zero(source@) ==> sni@ == "NULL.COM"@,
{
    let pattern: Vec<u8> = vec![16u8, 3u8, 3u8, 0u8, 31u8];
    assert(pattern@ =~= hello_pattern());
    let copy: Vec<u8> = vstd::slice::slice_to_vec(source.as_slice());
    if aob_scan(pattern, copy) == 0 {
        let high: u16 = 45u16 + (source[44] as u16);
        let low: u16 = source[45] as u16;
        let dyn_offset: u16 = high | low;
        assert(dyn_offset < 512) by (bit_vector)
            requires
                dyn_offset == high | low,
                high < 512,
                low < 256,
        ;
        let static_offset_start: u16 = dyn_offset + 13u16;
        let static_offset_end: u16 = static_offset_start + source[static_offset_start
            as usize] as u16;
        let mut name: Vec<char> = Vec::new();
        let mut iter: u16 = static_offset_start;
        while iter < static_offset_end
            invariant
                static_offset_start <= iter <= static_offset_end,
                name@.len() == iter - static_offset_start,
                forall|k: int|
                    0 <= k < name@.len() ==> name@[k] == lossy_byte(
                        ((static_offset_start + k) % 256) as u8,
                    ),
            decreases static_offset_end - iter,
        {
            let low_byte: u8 = (iter % 256) as u8;
            let c: char = if low_byte < 128 {
                low_byte as char
            } else {
                '\u{FFFD}'
            };
            name.push(c);
            iter += 1;
        }
        assert(name@ =~= header_name(source@));
        return string_of(&name);
    }
    String::from_str("NULL.COM")
}

} // verus!
