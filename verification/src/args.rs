//! Reading the options of the command line into the configuration, one
//! option at a time. Files that an option names are read by the caller.

use vstd::prelude::*;
use vstd::string::{StrSliceExecFns, StringExecFns};
use crate::config::{AuxConfig, DataOverride, Strategy};
use crate::plan::{add_strategies, string_views, strategies_added, StrategyError};
use crate::stack::{arrivals, StrategyStack};
use crate::text::{
    chars_are, chars_of, fields, find_run, first_run, parse_unsigned, parse_unsigned_spec,
    split_chars, string_of, sub_chars,
};

verus! {

/// Why an option cannot be read.
#[derive(Debug, Clone, Copy, PartialEq, Eq, Structural)]
pub enum ArgError {
    /// The option is the last word, and it needs a value.
    MissingValue,
    /// The value is no number of the option's type.
    InvalidNumber,
    /// The value is no sequence of bytes in hexadecimal.
    InvalidHex,
    /// The strategies of the option cannot be configured.
    Strategy(StrategyError),
}

/// What is to be done after an option was read.
#[derive(Debug, Clone, PartialEq, Eq)]
pub enum Step {
    /// There is no option at the offset: the command line is read.
    Done,
    /// Reading goes on at this offset.
    Next(usize),
    /// The file at this path holds the decoy payload; reading then goes on
    /// at the offset.
    PacketFile(String, usize),
    /// The file at this path holds host names for the allow-list; reading
    /// then goes on at the offset.
    HostsFile(String, usize),
}

/// The configuration with what is carried from option to option.
pub struct ArgState {
    pub config: AuxConfig,
    /// The protocol filter for the strategies that follow.
    pub filter_protocol: String,
    /// The port filter for the strategies that follow.
    pub filter_port: String,
    /// The signature that lists of strategies are held against.
    pub strategy_stack: StrategyStack,
}

/// `name` is an option that switches something on.
pub open spec fn is_flag(name: Seq<char>) -> bool {
    ||| name == "--send_fake_clienthello"@
    ||| name == "--disable_sack"@
    ||| name == "--fake_packet_send_http"@
    ||| name == "--fake_as_oob"@
    ||| name == "--http_host_cmix"@
    ||| name == "--http_domain_cmix"@
    ||| name == "--http_host_rmspace"@
    ||| name == "--http_host_space"@
    ||| name == "--fake_packet_random"@
    ||| name == "--fake_packet_double"@
    ||| name == "--fake_packet_reversed"@
}

/// The configuration with what the flag `name` switches on.
pub open spec fn with_flag(config: AuxConfig, name: Seq<char>) -> AuxConfig {
    if name == "--send_fake_clienthello"@ {
        AuxConfig { fake_clienthello: true, ..config }
    } else if name == "--disable_sack"@ {
        AuxConfig { disable_sack: true, ..config }
    } else if name == "--fake_packet_send_http"@ {
        AuxConfig { fake_packet_send_http: true, ..config }
    } else if name == "--fake_as_oob"@ {
        AuxConfig { fake_as_oob: true, ..config }
    } else if name == "--http_host_cmix"@ {
        AuxConfig { http_host_cmix: true, ..config }
    } else if name == "--http_domain_cmix"@ {
        AuxConfig { http_domain_cmix: true, ..config }
    } else if name == "--http_host_rmspace"@ {
        AuxConfig { http_host_rmspace: true, ..config }
    } else if name == "--http_host_space"@ {
        AuxConfig { http_host_space: true, ..config }
    } else if name == "--fake_packet_random"@ {
        AuxConfig { fake_packet_random: true, ..config }
    } else if name == "--fake_packet_double"@ {
        AuxConfig { fake_packet_double: true, ..config }
    } else if name == "--fake_packet_reversed"@ {
        AuxConfig { fake_packet_reversed: true, ..config }
    } else {
        config
    }
}

fn set_flag(config: AuxConfig, name: &Vec<char>) -> (out: (AuxConfig, bool))
    ensures
        out.1 == is_flag(name@),
        out.0 == with_flag(config, name@),
{
    if chars_are(name, "--send_fake_clienthello") {
        (AuxConfig { fake_clienthello: true, ..config }, true)
    } else if chars_are(name, "--disable_sack") {
        (AuxConfig { disable_sack: true, ..config }, true)
    } else if chars_are(name, "--fake_packet_send_http") {
        (AuxConfig { fake_packet_send_http: true, ..config }, true)
    } else if chars_are(name, "--fake_as_oob") {
        (AuxConfig { fake_as_oob: true, ..config }, true)
    } else if chars_are(name, "--http_host_cmix") {
        (AuxConfig { http_host_cmix: true, ..config }, true)
    } else if chars_are(name, "--http_domain_cmix") {
        (AuxConfig { http_domain_cmix: true, ..config }, true)
    } else if chars_are(name, "--http_host_rmspace") {
        (AuxConfig { http_host_rmspace: true, ..config }, true)
    } else if chars_are(name, "--http_host_space") {
        (AuxConfig { http_host_space: true, ..config }, true)
    } else if chars_are(name, "--fake_packet_random") {
        (AuxConfig { fake_packet_random: true, ..config }, true)
    } else if chars_are(name, "--fake_packet_double") {
        (AuxConfig { fake_packet_double: true, ..config }, true)
    } else if chars_are(name, "--fake_packet_reversed") {
        (AuxConfig { fake_packet_reversed: true, ..config }, true)
    } else {
        (config, false)
    }
}

/// The largest value of the number that the option `name` takes; none for
/// an option that takes no number.
pub open spec fn number_max(name: Seq<char>) -> Option<u64> {
    if name == "--bind_port"@ {
        Some(u16::MAX as u64)
    } else if name == "--bind_iface_mtu"@ {
        Some(u32::MAX as u64)
    } else if name == "--fake_packet_ttl"@ || name == "--disorder_packet_ttl"@ || name
        == "--default_ttl"@ || name == "--out_of_band_charid"@ || name
        == "--resist_timing_attack"@ {
        Some(u8::MAX as u64)
    } else if name == "--packet_hop"@ || name == "--so_opt_cutoff"@ {
        Some(u64::MAX)
    } else if name == "--so_recv_size"@ || name == "--so_send_size"@ {
        Some(usize::MAX as u64)
    } else {
        None
    }
}

/// The configuration with the number `v` where the option `name` puts it.
pub open spec fn with_number(config: AuxConfig, name: Seq<char>, v: u64) -> AuxConfig {
    if name == "--bind_port"@ {
        AuxConfig { bind_port: v as u16, ..config }
    } else if name == "--bind_iface_mtu"@ {
        AuxConfig { bind_iface_mtu: v as u32, ..config }
    } else if name == "--fake_packet_ttl"@ {
        AuxConfig { fake_packet_ttl: v as u8, ..config }
    } else if name == "--disorder_packet_ttl"@ {
        AuxConfig { disorder_packet_ttl: v as u8, ..config }
    } else if name == "--default_ttl"@ {
        AuxConfig { default_ttl: v as u8, ..config }
    } else if name == "--out_of_band_charid"@ {
        AuxConfig { out_of_band_charid: v as u8, ..config }
    } else if name == "--resist_timing_attack"@ {
        AuxConfig { l7_packet_jitter_max: v, ..config }
    } else if name == "--packet_hop"@ {
        AuxConfig { packet_hop: v, ..config }
    } else if name == "--so_opt_cutoff"@ {
        AuxConfig { so_opt_cutoff: v, ..config }
    } else if name == "--so_recv_size"@ {
        AuxConfig { so_recv_size: v as usize, ..config }
    } else if name == "--so_send_size"@ {
        AuxConfig { so_send_size: v as usize, ..config }
    } else {
        config
    }
}

fn number_limit(name: &Vec<char>) -> (max: Option<u64>)
    ensures
        max == number_max(name@),
{
    if chars_are(name, "--bind_port") {
        Some(65535)
    } else if chars_are(name, "--bind_iface_mtu") {
        Some(4294967295)
    } else if chars_are(name, "--fake_packet_ttl") || chars_are(name, "--disorder_packet_ttl")
        || chars_are(name, "--default_ttl") || chars_are(name, "--out_of_band_charid")
        || chars_are(name, "--resist_timing_attack") {
        Some(255)
    } else if chars_are(name, "--packet_hop") || chars_are(name, "--so_opt_cutoff") {
        Some(u64::MAX)
    } else if chars_are(name, "--so_recv_size") || chars_are(name, "--so_send_size") {
        Some(usize::MAX as u64)
    } else {
        None
    }
}

fn set_number(config: AuxConfig, name: &Vec<char>, v: u64) -> (out: AuxConfig)
    requires
        number_max(name@) matches Some(max) && v <= max,
    ensures
        out == with_number(config, name@, v),
{
    if chars_are(name, "--bind_port") {
        AuxConfig { bind_port: v as u16, ..config }
    } else if chars_are(name, "--bind_iface_mtu") {
        AuxConfig { bind_iface_mtu: v as u32, ..config }
    } else if chars_are(name, "--fake_packet_ttl") {
        AuxConfig { fake_packet_ttl: v as u8, ..config }
    } else if chars_are(name, "--disorder_packet_ttl") {
        AuxConfig { disorder_packet_ttl: v as u8, ..config }
    } else if chars_are(name, "--default_ttl") {
        AuxConfig { default_ttl: v as u8, ..config }
    } else if chars_are(name, "--out_of_band_charid") {
        AuxConfig { out_of_band_charid: v as u8, ..config }
    } else if chars_are(name, "--resist_timing_attack") {
        AuxConfig { l7_packet_jitter_max: v, ..config }
    } else if chars_are(name, "--packet_hop") {
        AuxConfig { packet_hop: v, ..config }
    } else if chars_are(name, "--so_opt_cutoff") {
        AuxConfig { so_opt_cutoff: v, ..config }
    } else if chars_are(name, "--so_recv_size") {
        AuxConfig { so_recv_size: v as usize, ..config }
    } else if chars_are(name, "--so_send_size") {
        AuxConfig { so_send_size: v as usize, ..config }
    } else {
        config
    }
}

/// `name` is an option that takes a text.
pub open spec fn is_text(name: Seq<char>) -> bool {
    ||| name == "--filter_protocol"@
    ||| name == "--filter_port"@
    ||| name == "--bind_host"@
    ||| name == "--bind_iface"@
    ||| name == "--bind_iface_ipv4"@
    ||| name == "--bind_iface_ipv6"@
    ||| name == "--fc_sni"@
    ||| name == "--fake_packet_sni"@
    ||| name == "--fake_packet_host"@
    ||| name == "--oob_stream_hell_data"@
}

/// `after` is `before` with the text `value` where the option `name` puts
/// it.
pub open spec fn text_set(before: ArgState, after: ArgState, name: Seq<char>, value: Seq<char>) -> bool {
    let c = after.config;
    if name == "--filter_protocol"@ {
        after.filter_protocol@ == value && after == (ArgState {
            filter_protocol: after.filter_protocol,
            ..before
        })
    } else if name == "--filter_port"@ {
        after.filter_port@ == value && after == (ArgState {
            filter_port: after.filter_port,
            ..before
        })
    } else if name == "--bind_host"@ {
        c.bind_host@ == value && after == (ArgState {
            config: AuxConfig { bind_host: c.bind_host, ..before.config },
            ..before
        })
    } else if name == "--bind_iface"@ {
        c.bind_iface@ == value && after == (ArgState {
            config: AuxConfig { bind_iface: c.bind_iface, ..before.config },
            ..before
        })
    } else if name == "--bind_iface_ipv4"@ {
        c.bind_iface_ipv4@ == value && after == (ArgState {
            config: AuxConfig { bind_iface_ipv4: c.bind_iface_ipv4, ..before.config },
            ..before
        })
    } else if name == "--bind_iface_ipv6"@ {
        c.bind_iface_ipv6@ == value && after == (ArgState {
            config: AuxConfig { bind_iface_ipv6: c.bind_iface_ipv6, ..before.config },
            ..before
        })
    } else if name == "--fc_sni"@ {
        c.fake_clienthello_sni@ == value && after == (ArgState {
            config: AuxConfig { fake_clienthello_sni: c.fake_clienthello_sni, ..before.config },
            ..before
        })
    } else if name == "--fake_packet_sni"@ {
        c.fake_packet_sni@ == value && after == (ArgState {
            config: AuxConfig { fake_packet_sni: c.fake_packet_sni, ..before.config },
            ..before
        })
    } else if name == "--fake_packet_host"@ {
        c.fake_packet_host@ == value && after == (ArgState {
            config: AuxConfig { fake_packet_host: c.fake_packet_host, ..before.config },
            ..before
        })
    } else if name == "--oob_stream_hell_data"@ {
        c.oob_streamhell_data@ == value && after == (ArgState {
            config: AuxConfig { oob_streamhell_data: c.oob_streamhell_data, ..before.config },
            ..before
        })
    } else {
        after == before
    }
}

fn set_text(state: ArgState, name: &Vec<char>, value: String) -> (out: (ArgState, bool))
    ensures
        out.1 == is_text(name@),
        text_set(state, out.0, name@, value@),
{
    if chars_are(name, "--filter_protocol") {
        (ArgState { filter_protocol: value, ..state }, true)
    } else if chars_are(name, "--filter_port") {
        (ArgState { filter_port: value, ..state }, true)
    } else if chars_are(name, "--bind_host") {
        (ArgState { config: AuxConfig { bind_host: value, ..state.config }, ..state }, true)
    } else if chars_are(name, "--bind_iface") {
        (ArgState { config: AuxConfig { bind_iface: value, ..state.config }, ..state }, true)
    } else if chars_are(name, "--bind_iface_ipv4") {
        (ArgState { config: AuxConfig { bind_iface_ipv4: value, ..state.config }, ..state }, true)
    } else if chars_are(name, "--bind_iface_ipv6") {
        (ArgState { config: AuxConfig { bind_iface_ipv6: value, ..state.config }, ..state }, true)
    } else if chars_are(name, "--fc_sni") {
        (
            ArgState { config: AuxConfig { fake_clienthello_sni: value, ..state.config }, ..state },
            true,
        )
    } else if chars_are(name, "--fake_packet_sni") {
        (ArgState { config: AuxConfig { fake_packet_sni: value, ..state.config }, ..state }, true)
    } else if chars_are(name, "--fake_packet_host") {
        (ArgState { config: AuxConfig { fake_packet_host: value, ..state.config }, ..state }, true)
    } else if chars_are(name, "--oob_stream_hell_data") {
        (
            ArgState { config: AuxConfig { oob_streamhell_data: value, ..state.config }, ..state },
            true,
        )
    } else {
        (state, false)
    }
}

/// The value of a hexadecimal digit.
pub open spec fn hex_value(c: char) -> Option<int> {
    if '0' <= c <= '9' {
        Some(c as int - '0' as int)
    } else if 'a' <= c <= 'f' {
        Some(c as int - 'a' as int + 10)
    } else if 'A' <= c <= 'F' {
        Some(c as int - 'A' as int + 10)
    } else {
        None
    }
}

/// The byte that two characters spell in hexadecimal: two digits, or a `+`
/// and one digit.
pub open spec fn hex_pair(a: char, b: char) -> Option<u8> {
    match hex_value(b) {
        None => None,
        Some(low) => if a == '+' {
            Some(low as u8)
        } else {
            match hex_value(a) {
                None => None,
                Some(high) => Some((high * 16 + low) as u8),
            }
        },
    }
}

/// The bytes that `text` spells in hexadecimal, two characters for each;
/// none where a character is left over or a pair spells no byte.
pub open spec fn hex_bytes(text: Seq<char>) -> Option<Seq<u8>>
    decreases text.len(),
{
    if text.len() == 0 {
        Some(Seq::empty())
    } else if text.len() == 1 {
        None
    } else {
        match (
            hex_bytes(text.take(text.len() - 2)),
            hex_pair(text[text.len() - 2], text[text.len() - 1]),
        ) {
            (Some(bytes), Some(byte)) => Some(bytes.push(byte)),
            _ => None,
        }
    }
}

fn hex_digit(c: char) -> (value: Option<u8>)
    ensures
        value matches Some(v) ==> hex_value(c) == Some(v as int),
        value is None ==> hex_value(c) is None,
{
    if '0' <= c && c <= '9' {
        Some((c as u32 - '0' as u32) as u8)
    } else if 'a' <= c && c <= 'f' {
        Some((c as u32 - 'a' as u32 + 10) as u8)
    } else if 'A' <= c && c <= 'F' {
        Some((c as u32 - 'A' as u32 + 10) as u8)
    } else {
        None
    }
}

proof fn lemma_hex_bytes_fail(text: Seq<char>, k: int)
    requires
        0 <= k <= text.len(),
        k % 2 == 0,
        hex_bytes(text.take(k)) is None || text.len() % 2 == 1,
    ensures
        hex_bytes(text) is None,
    decreases text.len() - k,
{
    if text.len() % 2 == 1 {
        lemma_hex_bytes_odd(text);
    } else if k < text.len() {
        let shorter = text.take(text.len() - 2);
        assert(shorter.take(k) =~= text.take(k));
        lemma_hex_bytes_fail(shorter, k);
    } else {
        assert(text.take(k) =~= text);
    }
}

proof fn lemma_hex_bytes_odd(text: Seq<char>)
    requires
        text.len() % 2 == 1,
    ensures
        hex_bytes(text) is None,
    decreases text.len(),
{
    if text.len() > 1 {
        lemma_hex_bytes_odd(text.take(text.len() - 2));
    }
}

/// Reads the bytes that `chars` spell in hexadecimal.
pub fn decode_hex(chars: &Vec<char>) -> (out: Option<Vec<u8>>)
    ensures
        out matches Some(bytes) ==> hex_bytes(chars@) == Some(bytes@),
        out is None ==> hex_bytes(chars@) is None,
{
    let n: usize = chars.len();
    if n % 2 == 1 {
        proof {
            lemma_hex_bytes_odd(chars@);
        }
        return None;
    }
    let mut bytes: Vec<u8> = Vec::new();
    let mut i: usize = 0;
    assert(chars@.take(0) =~= Seq::<char>::empty());
    while i < n
        invariant
            n == chars@.len(),
            n % 2 == 0,
            i % 2 == 0,
            i <= n,
            hex_bytes(chars@.take(i as int)) == Some(bytes@),
        decreases n - i,
    {
        let ghost next = chars@.take(i + 2);
        assert(next.take(next.len() - 2) =~= chars@.take(i as int));
        let low: Option<u8> = hex_digit(chars[i + 1]);
        let byte: Option<u8> = match low {
            None => None,
            Some(l) => if chars[i] == '+' {
                Some(l)
            } else {
                match hex_digit(chars[i]) {
                    None => None,
                    Some(h) => Some(h * 16 + l),
                }
            },
        };
        match byte {
            None => {
                proof {
                    assert(hex_bytes(next) is None);
                    lemma_hex_bytes_fail(chars@, i + 2);
                }
                return None;
            },
            Some(b) => {
                bytes.push(b);
            },
        }
        i += 2;
    }
    assert(chars@.take(n as int) =~= chars@);
    Some(bytes)
}

/// The word that opens a path to a file.
pub open spec fn scheme() -> Seq<char> {
    seq!['f', 'i', 'l', 'e', ':', '/', '/']
}

/// The path that `value` names: what stands between its first `file://`
/// and the next, or its end. None where it holds no `file://`.
pub open spec fn path_of(value: Seq<char>) -> Option<Seq<char>> {
    let at = first_run(value, scheme(), 0);
    if 0 <= at < value.len() {
        Some(value.subrange(at + 7, first_run(value, scheme(), at + 7)))
    } else {
        None
    }
}

/// The path that `value` names.
pub fn path_in(value: &Vec<char>) -> (path: Option<Vec<char>>)
    ensures
        path matches Some(p) ==> path_of(value@) == Some(p@),
        path is None ==> path_of(value@) is None,
{
    let word: Vec<char> = vec!['f', 'i', 'l', 'e', ':', '/', '/'];
    assert(word@ =~= scheme());
    let at: usize = find_run(value, &word, 0);
    if at < value.len() {
        let end: usize = find_run(value, &word, at + 7);
        Some(sub_chars(value, at + 7, end))
    } else {
        None
    }
}

/// `after` is `before` with the decoy payload `bytes` in force.
pub open spec fn override_set(before: ArgState, after: ArgState, bytes: Seq<u8>) -> bool {
    let data = after.config.fake_packet_override_data;
    &&& data.active
    &&& data.data@ == bytes
    &&& after == (ArgState {
        config: AuxConfig { fake_packet_override_data: data, ..before.config },
        ..before
    })
}

/// `after` is `before` with the allow-list switched on and extended by
/// `hosts`.
pub open spec fn hosts_added(before: ArgState, after: ArgState, hosts: Seq<Seq<char>>) -> bool {
    let list = after.config.whitelist_sni_list;
    &&& string_views(list@) == string_views(before.config.whitelist_sni_list@) + hosts
    &&& after == (ArgState {
        config: AuxConfig { whitelist_sni: true, whitelist_sni_list: list, ..before.config },
        ..before
    })
}

/// A line without its carriage returns.
pub open spec fn without_returns(line: Seq<char>) -> Seq<char> {
    line.filter(|c: char| c != '\r')
}

/// The host names that the text of a file holds: its lines, each without
/// carriage returns.
pub open spec fn hosts_in(contents: Seq<char>) -> Seq<Seq<char>> {
    fields(contents, '\n').map_values(|line: Seq<char>| without_returns(line))
}

fn strip_returns(line: &Vec<char>) -> (kept: Vec<char>)
    ensures
        kept@ == without_returns(line@),
{
    let n: usize = line.len();
    let mut kept: Vec<char> = Vec::new();
    let mut i: usize = 0;
    assert(line@.take(0) =~= Seq::<char>::empty());
    reveal_with_fuel(Seq::filter, 2);
    while i < n
        invariant
            n == line@.len(),
            i <= n,
            kept@ == without_returns(line@.take(i as int)),
        decreases n - i,
    {
        proof {
            reveal_with_fuel(Seq::filter, 2);
            assert(line@.take(i + 1).drop_last() =~= line@.take(i as int));
        }
        if line[i] != '\r' {
            kept.push(line[i]);
        }
        i += 1;
    }
    assert(line@.take(n as int) =~= line@);
    kept
}

fn push_hosts(list: Vec<String>, hosts: &Vec<Vec<char>>, strip: bool) -> (out: Vec<String>)
    ensures
        string_views(out@) == string_views(list@) + if strip {
            crate::text::char_views(hosts@).map_values(|line: Seq<char>| without_returns(line))
        } else {
            crate::text::char_views(hosts@)
        },
{
    let mut out: Vec<String> = list;
    let ghost start = string_views(list@);
    let ghost wanted = if strip {
        crate::text::char_views(hosts@).map_values(|line: Seq<char>| without_returns(line))
    } else {
        crate::text::char_views(hosts@)
    };
    let n: usize = hosts.len();
    let mut i: usize = 0;
    assert(string_views(out@) =~= start + wanted.take(0));
    while i < n
        invariant
            n == hosts@.len(),
            i <= n,
            wanted.len() == n,
            wanted == if strip {
                crate::text::char_views(hosts@).map_values(|line: Seq<char>| without_returns(line))
            } else {
                crate::text::char_views(hosts@)
            },
            string_views(out@) == start + wanted.take(i as int),
        decreases n - i,
    {
        let host: String = if strip {
            string_of(&strip_returns(&hosts[i]))
        } else {
            string_of(&hosts[i])
        };
        let ghost before = out@;
        out.push(host);
        assert(string_views(out@) =~= string_views(before).push(host@));
        i += 1;
        assert(start + wanted.take(i as int) =~= (start + wanted.take(i - 1)).push(host@));
    }
    assert(wanted.take(n as int) =~= wanted);
    out
}

/// `name` is one of the options whose value is more than a number or a
/// text.
pub open spec fn is_special(name: Seq<char>) -> bool {
    ||| name == "--fake_packet_str"@
    ||| name == "--fake_packet_hex"@
    ||| name == "--fake_packet_file"@
    ||| name == "--filter_sni"@
    ||| name == "--strategy_stack"@
    ||| name == "--dpi_bypass_strategies"@
}

/// What the strategies option at `offset` makes of the state: the words
/// after the names are the values of the strategies, and reading goes on
/// after the values that were taken, or, for a single name, at the names.
pub open spec fn strategies_outcome(
    before: ArgState,
    after: ArgState,
    args: Seq<String>,
    offset: int,
    auto: bool,
    out: Result<Step, ArgError>,
) -> bool {
    let list = after.config.strategies;
    &&& after == (ArgState { config: AuxConfig { strategies: list, ..before.config }, ..before })
    &&& exists|answer: Result<usize, StrategyError>|
        {
            &&& #[trigger] strategies_added(
                before.config.strategies@,
                list@,
                before.strategy_stack.stack@,
                args[offset + 1]@,
                string_views(args.skip(offset + 2)),
                before.filter_protocol@,
                before.filter_port@,
                before.config.whitelist_sni_list@,
                auto,
                answer,
            )
            &&& match answer {
                Err(e) => out == Err::<Step, ArgError>(ArgError::Strategy(e)),
                Ok(taken) => out == Ok::<Step, ArgError>(
                    Step::Next(
                        (if taken == 0 {
                            offset + 1
                        } else {
                            offset + 2 + taken
                        }) as usize,
                    ),
                ),
            }
        }
}

/// What a special option at `offset`, with the value after it, makes of the
/// state.
pub open spec fn special_outcome(
    before: ArgState,
    after: ArgState,
    args: Seq<String>,
    offset: int,
    auto: bool,
    out: Result<Step, ArgError>,
) -> bool {
    let name = args[offset]@;
    let value = args[offset + 1]@;
    let same = after == before;
    let past = Ok::<Step, ArgError>(Step::Next((offset + 2) as usize));
    if name == "--fake_packet_str"@ {
        out == past && override_set(before, after, vstd::utf8::encode_utf8(value))
    } else if name == "--fake_packet_hex"@ {
        match hex_bytes(value) {
            None => out == Err::<Step, ArgError>(ArgError::InvalidHex) && same,
            Some(bytes) => out == past && override_set(before, after, bytes),
        }
    } else if name == "--fake_packet_file"@ {
        match path_of(value) {
            None => out == past && same,
            Some(wanted) => same && (out matches Ok(Step::PacketFile(path, next)) && path@ == wanted
                && next == offset + 2),
        }
    } else if name == "--filter_sni"@ {
        match path_of(value) {
            None => out == past && hosts_added(before, after, fields(value, ',')),
            Some(wanted) => hosts_added(before, after, Seq::empty()) && (out matches Ok(
                Step::HostsFile(path, next),
            ) && path@ == wanted && next == offset + 1),
        }
    } else if name == "--strategy_stack"@ {
        &&& out == past
        &&& after.strategy_stack.stack@ == arrivals(value)
        &&& after == (ArgState { strategy_stack: after.strategy_stack, ..before })
    } else {
        strategies_outcome(before, after, args, offset, auto, out)
    }
}

/// What an option at `offset` that takes a value, with the value after it,
/// makes of the state.
pub open spec fn valued_outcome(
    before: ArgState,
    after: ArgState,
    args: Seq<String>,
    offset: int,
    auto: bool,
    out: Result<Step, ArgError>,
) -> bool {
    let name = args[offset]@;
    let value = args[offset + 1]@;
    let past = Ok::<Step, ArgError>(Step::Next((offset + 2) as usize));
    if number_max(name) is Some {
        match parse_unsigned_spec(value, number_max(name)->Some_0) {
            Err(_) => out == Err::<Step, ArgError>(ArgError::InvalidNumber) && after == before,
            Ok(v) => out == past && after == (ArgState {
                config: with_number(before.config, name, v),
                ..before
            }),
        }
    } else if is_text(name) {
        out == past && text_set(before, after, name, value)
    } else {
        special_outcome(before, after, args, offset, auto, out)
    }
}

/// `name` is an option that is followed by a value.
pub open spec fn takes_value(name: Seq<char>) -> bool {
    number_max(name) is Some || is_text(name) || is_special(name)
}

/// What reading the option at `offset` of `args` makes of the state
/// `before`, and what is to be done next. A flag is switched on. An option
/// with a value takes the word after it, and is an error where there is
/// none. A word that is no option is passed over.
pub open spec fn outcome(
    before: ArgState,
    after: ArgState,
    args: Seq<String>,
    offset: int,
    auto: bool,
    out: Result<Step, ArgError>,
) -> bool {
    let name = args[offset]@;
    let on = Ok::<Step, ArgError>(Step::Next((offset + 1) as usize));
    if is_flag(name) {
        out == on && after == (ArgState { config: with_flag(before.config, name), ..before })
    } else if name == "--reset_sni_filter"@ {
        let list = after.config.whitelist_sni_list;
        &&& out == on
        &&& list@.len() == 0
        &&& after == (ArgState {
            config: AuxConfig { whitelist_sni: false, whitelist_sni_list: list, ..before.config },
            ..before
        })
    } else if !takes_value(name) {
        out == on && after == before
    } else if offset + 1 >= args.len() {
        out == Err::<Step, ArgError>(ArgError::MissingValue) && after == before
    } else {
        valued_outcome(before, after, args, offset, auto, out)
    }
}

fn tail_of(args: &Vec<String>, from: usize) -> (tail: Vec<String>)
    requires
        from <= args@.len(),
    ensures
        tail@ == args@.skip(from as int),
{
    let n: usize = args.len();
    let mut tail: Vec<String> = Vec::new();
    let mut i: usize = from;
    while i < n
        invariant
            n == args@.len(),
            from <= i <= n,
            tail@ == args@.subrange(from as int, i as int),
        decreases n - i,
    {
        tail.push(args[i].clone());
        i += 1;
        assert(tail@ =~= args@.subrange(from as int, i as int));
    }
    assert(args@.subrange(from as int, n as int) =~= args@.skip(from as int));
    tail
}

fn is_text_name(name: &Vec<char>) -> (known: bool)
    ensures
        known == is_text(name@),
{
    chars_are(name, "--filter_protocol") || chars_are(name, "--filter_port") || chars_are(
        name,
        "--bind_host",
    ) || chars_are(name, "--bind_iface") || chars_are(name, "--bind_iface_ipv4") || chars_are(
        name,
        "--bind_iface_ipv6",
    ) || chars_are(name, "--fc_sni") || chars_are(name, "--fake_packet_sni") || chars_are(
        name,
        "--fake_packet_host",
    ) || chars_are(name, "--oob_stream_hell_data")
}

/// The configuration has the values that hold before any option is read.
pub open spec fn is_default(config: AuxConfig) -> bool {
    &&& config.bind_host@ == "127.0.0.1"@
    &&& config.bind_port == 7878
    &&& config.bind_iface@ == ""@
    &&& config.bind_iface_mtu == 8400
    &&& config.bind_iface_ipv4@ == "192.18.0.0"@
    &&& config.bind_iface_ipv6@ == "fc00::1"@
    &&& config.fake_packet_ttl == 3
    &&& config.fake_packet_sni@ == "yandex.ru"@
    &&& !config.fake_as_oob
    &&& !config.fake_packet_send_http
    &&& config.fake_packet_host@ == "yandex.ru"@
    &&& !config.fake_packet_override_data.active
    &&& config.fake_packet_override_data.data@ == seq![0u8]
    &&& !config.fake_packet_double
    &&& !config.fake_packet_reversed
    &&& !config.fake_packet_random
    &&& config.so_recv_size == 65535
    &&& config.so_send_size == 65535
    &&& config.so_opt_cutoff == 500
    &&& config.l7_packet_jitter_max == 0
    &&& !config.disable_sack
    &&& !config.fake_clienthello
    &&& config.fake_clienthello_sni@ == "yandex.ru"@
    &&& config.oob_streamhell_data@ == ".@nt1_r3@ss3mbly_101.yandex"@
    &&& !config.http_host_cmix
    &&& !config.http_host_rmspace
    &&& !config.http_host_space
    &&& !config.http_domain_cmix
    &&& config.disorder_packet_ttl == 8
    &&& config.default_ttl == 128
    &&& config.out_of_band_charid == 213
    &&& config.packet_hop == u64::MAX
    &&& !config.whitelist_sni
    &&& config.whitelist_sni_list@.len() == 0
    &&& config.strategies@.len() == 0
}

/// The configuration that holds before any option is read.
pub fn default_config() -> (config: AuxConfig)
    ensures
        is_default(config),
{
    let mut data: Vec<u8> = Vec::new();
    data.push(0u8);
    assert(data@ =~= seq![0u8]);
    AuxConfig {
        bind_host: String::from_str("127.0.0.1"),
        bind_port: 7878u16,
        bind_iface: String::from_str(""),
        bind_iface_mtu: 8400,
        bind_iface_ipv4: String::from_str("192.18.0.0"),
        bind_iface_ipv6: String::from_str("fc00::1"),
        fake_packet_ttl: 3,
        fake_packet_sni: String::from_str("yandex.ru"),
        fake_as_oob: false,
        fake_packet_send_http: false,
        fake_packet_host: String::from_str("yandex.ru"),
        fake_packet_override_data: DataOverride { active: false, data },
        fake_packet_double: false,
        fake_packet_reversed: false,
        fake_packet_random: false,
        so_recv_size: 65535,
        so_send_size: 65535,
        so_opt_cutoff: 500,
        l7_packet_jitter_max: 0,
        disable_sack: false,
        fake_clienthello: false,
        fake_clienthello_sni: String::from_str("yandex.ru"),
        oob_streamhell_data: String::from_str(".@nt1_r3@ss3mbly_101.yandex"),
        http_host_cmix: false,
        http_host_rmspace: false,
        http_host_space: false,
        http_domain_cmix: false,
        disorder_packet_ttl: 8,
        default_ttl: 128,
        out_of_band_charid: 213u8,
        packet_hop: u64::MAX,
        whitelist_sni: false,
        whitelist_sni_list: Vec::new(),
        strategies: Vec::new(),
    }
}

impl ArgState {
    /// The state before any option is read: the default configuration, no
    /// filters and an empty signature.
    pub fn new() -> (state: ArgState)
        ensures
            is_default(state.config),
            state.filter_protocol@.len() == 0,
            state.filter_port@.len() == 0,
            state.strategy_stack.stack@.len() == 0,
    {
        ArgState {
            config: default_config(),
            filter_protocol: String::new(),
            filter_port: String::new(),
            strategy_stack: StrategyStack::from(String::new()),
        }
    }

    /// The state with `data`, read from a file, as the decoy payload.
    pub fn with_packet_file(self, data: Vec<u8>) -> (state: ArgState)
        ensures
            override_set(self, state, data@),
    {
        ArgState {
            config: AuxConfig {
                fake_packet_override_data: DataOverride { active: true, data },
                ..self.config
            },
            ..self
        }
    }

    /// The state with the host names of `contents`, the text of a file,
    /// added to the allow-list.
    pub fn with_hosts_file(self, contents: &str) -> (state: ArgState)
        ensures
            hosts_added(self, state, hosts_in(contents@)),
    {
        let lines: Vec<Vec<char>> = split_chars(&chars_of(contents), '\n');
        let AuxConfig { whitelist_sni_list, .. } = self.config;
        let list: Vec<String> = push_hosts(whitelist_sni_list, &lines, true);
        ArgState {
            config: AuxConfig { whitelist_sni: true, whitelist_sni_list: list, ..self.config },
            ..self
        }
    }

    /// Reads the option at `offset` of `args`, if there is one, and returns
    /// the state that it leaves and what is to be done next. `auto` tells
    /// whether the offset `auto` of a follow-up strategy is read as such.
    pub fn apply(self, args: &Vec<String>, offset: usize, auto: bool) -> (out: (
        ArgState,
        Result<Step, ArgError>,
    ))
        ensures
            offset >= args@.len() ==> out.0 == self && out.1 == Ok::<Step, ArgError>(Step::Done),
            offset < args@.len() ==> outcome(self, out.0, args@, offset as int, auto, out.1),
    {
        if offset >= args.len() {
            return (self, Ok(Step::Done));
        }
        let name: Vec<char> = chars_of(args[offset].as_str());
        let (config, flag) = set_flag(self.config, &name);
        let state: ArgState = ArgState { config, ..self };
        if flag {
            return (state, Ok(Step::Next(offset + 1)));
        }
        assert(state == self);
        if chars_are(&name, "--reset_sni_filter") {
            let config: AuxConfig = AuxConfig {
                whitelist_sni: false,
                whitelist_sni_list: Vec::new(),
                ..state.config
            };
            return (ArgState { config, ..state }, Ok(Step::Next(offset + 1)));
        }
        let limit: Option<u64> = number_limit(&name);
        if !(limit.is_some() || is_text_name(&name) || is_special_name(&name)) {
            return (state, Ok(Step::Next(offset + 1)));
        }
        if offset + 1 >= args.len() {
            return (state, Err(ArgError::MissingValue));
        }
        state.apply_valued(&name, limit, args, offset, auto)
    }

    fn apply_valued(
        self,
        name: &Vec<char>,
        limit: Option<u64>,
        args: &Vec<String>,
        offset: usize,
        auto: bool,
    ) -> (out: (ArgState, Result<Step, ArgError>))
        requires
            offset + 1 < args@.len(),
            name@ == args@[offset as int]@,
            limit == number_max(name@),
            takes_value(name@),
        ensures
            valued_outcome(self, out.0, args@, offset as int, auto, out.1),
    {
        let total: usize = args.len();
        let word: String = args[offset + 1].clone();
        if let Some(max) = limit {
            let value: Vec<char> = chars_of(word.as_str());
            return match parse_unsigned(&value, max) {
                Err(_) => (self, Err(ArgError::InvalidNumber)),
                Ok(v) => (
                    ArgState { config: set_number(self.config, name, v), ..self },
                    Ok(Step::Next(offset + 2)),
                ),
            };
        }
        if is_text_name(name) {
            let (state, _) = set_text(self, name, word);
            return (state, Ok(Step::Next(offset + 2)));
        }
        self.apply_special(name, word, args, offset, auto)
    }

    fn apply_special(
        self,
        name: &Vec<char>,
        word: String,
        args: &Vec<String>,
        offset: usize,
        auto: bool,
    ) -> (out: (ArgState, Result<Step, ArgError>))
        requires
            offset + 1 < args@.len(),
            name@ == args@[offset as int]@,
            word@ == args@[offset + 1]@,
            is_special(name@),
        ensures
            special_outcome(self, out.0, args@, offset as int, auto, out.1),
    {
        let total: usize = args.len();
        let value: Vec<char> = chars_of(word.as_str());
        if chars_are(name, "--fake_packet_str") {
            return (self.with_packet_file(word.as_str().as_bytes_vec()), Ok(Step::Next(offset + 2)));
        }
        if chars_are(name, "--fake_packet_hex") {
            return match decode_hex(&value) {
                None => (self, Err(ArgError::InvalidHex)),
                Some(bytes) => (self.with_packet_file(bytes), Ok(Step::Next(offset + 2))),
            };
        }
        if chars_are(name, "--fake_packet_file") {
            return match path_in(&value) {
                None => (self, Ok(Step::Next(offset + 2))),
                Some(path) => (self, Ok(Step::PacketFile(string_of(&path), offset + 2))),
            };
        }
        if chars_are(name, "--filter_sni") {
            return self.apply_filter(&value, offset);
        }
        if chars_are(name, "--strategy_stack") {
            return (
                ArgState { strategy_stack: StrategyStack::from(word), ..self },
                Ok(Step::Next(offset + 2)),
            );
        }
        self.apply_strategies(word, args, offset, auto)
    }

    fn apply_filter(self, value: &Vec<char>, offset: usize) -> (out: (
        ArgState,
        Result<Step, ArgError>,
    ))
        requires
            offset + 2 <= usize::MAX,
        ensures
            match path_of(value@) {
                None => out.1 == Ok::<Step, ArgError>(Step::Next((offset + 2) as usize))
                    && hosts_added(self, out.0, fields(value@, ',')),
                Some(wanted) => hosts_added(self, out.0, Seq::empty()) && (out.1 matches Ok(
                    Step::HostsFile(path, next),
                ) && path@ == wanted && next == offset + 1),
            },
    {
        match path_in(value) {
            None => {
                let hosts: Vec<Vec<char>> = split_chars(value, ',');
                let AuxConfig { whitelist_sni_list, .. } = self.config;
                let list: Vec<String> = push_hosts(whitelist_sni_list, &hosts, false);
                (
                    ArgState {
                        config: AuxConfig {
                            whitelist_sni: true,
                            whitelist_sni_list: list,
                            ..self.config
                        },
                        ..self
                    },
                    Ok(Step::Next(offset + 2)),
                )
            },
            Some(path) => {
                assert(string_views(self.config.whitelist_sni_list@) + Seq::<Seq<char>>::empty()
                    =~= string_views(self.config.whitelist_sni_list@));
                (
                    ArgState { config: AuxConfig { whitelist_sni: true, ..self.config }, ..self },
                    Ok(Step::HostsFile(string_of(&path), offset + 1)),
                )
            },
        }
    }

    fn apply_strategies(self, names: String, args: &Vec<String>, offset: usize, auto: bool) -> (out: (
        ArgState,
        Result<Step, ArgError>,
    ))
        requires
            offset + 1 < args@.len(),
            names@ == args@[offset + 1]@,
        ensures
            strategies_outcome(self, out.0, args@, offset as int, auto, out.1),
    {
        let total: usize = args.len();
        let values: Vec<String> = tail_of(args, offset + 2);
        let ArgState { config, filter_protocol, filter_port, strategy_stack } = self;
        let AuxConfig { strategies, .. } = config;
        let mut list: Vec<DataOverride<Strategy>> = strategies;
        let answer: Result<usize, StrategyError> = add_strategies(
            &mut list,
            &strategy_stack,
            names.as_str(),
            &values,
            filter_protocol.as_str(),
            filter_port.as_str(),
            &config.whitelist_sni_list,
            auto,
        );
        let after: ArgState = ArgState {
            config: AuxConfig { strategies: list, ..config },
            filter_protocol,
            filter_port,
            strategy_stack,
        };
        match answer {
            Err(e) => (after, Err(ArgError::Strategy(e))),
            Ok(taken) => {
                let next: usize = if taken == 0 {
                    offset + 1
                } else {
                    offset + 2 + taken
                };
                (after, Ok(Step::Next(next)))
            },
        }
    }
}

fn is_special_name(name: &Vec<char>) -> (known: bool)
    ensures
        known == is_special(name@),
{
    chars_are(name, "--fake_packet_str") || chars_are(name, "--fake_packet_hex") || chars_are(
        name,
        "--fake_packet_file",
    ) || chars_are(name, "--filter_sni") || chars_are(name, "--strategy_stack") || chars_are(
        name,
        "--dpi_bypass_strategies",
    )
}

} // verus!
