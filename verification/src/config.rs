//! The strategy model: one configured technique with its offset and filters,
//! and the configuration record that the dispatch reads.

use vstd::prelude::*;
use vstd::string::StringExecFns;
use crate::text::{
    chars_are, chars_have, chars_of, find_char, first_index, parse_i64, parse_i64_spec, parse_u16,
    parse_u16_spec, sub_chars, trim_chars, trimmed, IntError,
};

verus! {

/// The desynchronization techniques.
#[derive(Debug, Clone, Copy, PartialEq, Eq, Structural)]
pub enum Strategies {
    NONE,
    SPLIT,
    DISORDER,
    FAKE,
    FAKEMD,
    FAKESURROUND,
    FAKE2DISORDER,
    FAKE2INSERT,
    DISORDER2,
    OOB2,
    OOB,
    DISOOB,
    OOBSTREAMHELL,
    MELTDOWN,
    TRAIL,
    MELTDOWNUDP,
    FRAGTLS,
}

/// A port range. Without an `end` it is unbounded above.
#[derive(Debug, Clone, Copy, PartialEq, Eq, Structural)]
pub struct WeakRange {
    pub start: u16,
    pub end: Option<u16>,
}

/// The message that tells why a text is no number.
pub open spec fn int_error_text(e: IntError) -> Seq<char> {
    match e {
        IntError::Empty => "cannot parse integer from empty string"@,
        IntError::InvalidDigit => "invalid digit found in string"@,
        IntError::PosOverflow => "number too large to fit in target type"@,
        IntError::NegOverflow => "number too small to fit in target type"@,
    }
}

/// The message that tells why a text is no number.
pub fn int_error_message(e: IntError) -> (message: String)
    ensures
        message@ == int_error_text(e),
{
    match e {
        IntError::Empty => String::from_str("cannot parse integer from empty string"),
        IntError::InvalidDigit => String::from_str("invalid digit found in string"),
        IntError::PosOverflow => String::from_str("number too large to fit in target type"),
        IntError::NegOverflow => String::from_str("number too small to fit in target type"),
    }
}

/// The range that `text` spells: `N`, `N-` or `N-M`, white space allowed
/// round each number. What follows a second `-` is not read.
pub open spec fn range_of(text: Seq<char>) -> Result<WeakRange, IntError> {
    let cut = first_index(text, '-');
    match parse_u16_spec(trimmed(text.take(cut))) {
        Err(e) => Err(e),
        Ok(start) => {
            if cut == text.len() {
                Ok(WeakRange { start, end: None })
            } else {
                let rest = text.skip(cut + 1);
                let end_text = trimmed(rest.take(first_index(rest, '-')));
                if end_text.len() == 0 {
                    Ok(WeakRange { start, end: None })
                } else {
                    match parse_u16_spec(end_text) {
                        Err(e) => Err(e),
                        Ok(end) => Ok(WeakRange { start, end: Some(end) }),
                    }
                }
            }
        },
    }
}

impl WeakRange {
    /// Reads a port range. Where a number cannot be read, the error is the
    /// message for what is wrong with it.
    pub fn from(s: &str) -> (out: Result<Self, String>)
        ensures
            out matches Ok(range) ==> range_of(s@) == Ok::<WeakRange, IntError>(range),
            out matches Err(message) ==> range_of(s@) is Err && message@ == int_error_text(
                range_of(s@)->Err_0,
            ),
    {
        let chars: Vec<char> = chars_of(s);
        let cut: usize = find_char(&chars, 0, '-');
        assert(chars@.skip(0) =~= chars@);
        let start_text: Vec<char> = trim_chars(&sub_chars(&chars, 0, cut));
        let start: u16 = match parse_u16(&start_text) {
            Ok(v) => v,
            Err(e) => {
                return Err(int_error_message(e));
            },
        };
        if cut == chars.len() {
            return Ok(WeakRange { start, end: None });
        }
        let stop: usize = find_char(&chars, cut + 1, '-');
        let end_text: Vec<char> = trim_chars(&sub_chars(&chars, cut + 1, stop));
        assert(chars@.subrange(cut + 1, stop as int) =~= chars@.skip(cut + 1).take(
            first_index(chars@.skip(cut + 1), '-'),
        ));
        if end_text.len() == 0 {
            return Ok(WeakRange { start, end: None });
        }
        match parse_u16(&end_text) {
            Ok(end) => Ok(WeakRange { start, end: Some(end) }),
            Err(e) => Err(int_error_message(e)),
        }
    }

    /// Whether `port` lies in the range.
    pub open spec fn holds(&self, port: u16) -> bool {
        self.start <= port && (self.end matches Some(end) ==> port <= end)
    }

    /// Whether `port` lies in the range.
    pub fn contains_port(&self, port: u16) -> (inside: bool)
        ensures
            inside == self.holds(port),
    {
        if let Some(end) = self.end {
            if port > end {
                return false;
            }
        }
        port >= self.start
    }
}

/// The transport that a strategy is meant for.
#[derive(Debug, Clone, Copy, PartialEq, Eq, Structural)]
pub enum NetworkProtocol {
    UDP,
    TCP,
}

/// One configured technique with its offset and its filters.
#[derive(Debug, Clone, PartialEq, Eq)]
pub struct Strategy {
    pub method: Strategies,
    pub base_index: i64,
    pub add_sni: bool,
    pub add_host: bool,
    pub subtract: bool,
    pub filter_protocol: Option<NetworkProtocol>,
    pub filter_port: Option<WeakRange>,
    pub filter_sni: Option<Vec<String>>,
}

/// The technique that a method name selects. A name that is none of the
/// known ones selects `NONE`.
pub open spec fn method_named(name: Seq<char>) -> Strategies {
    if name == "--tcp_split"@ {
        Strategies::SPLIT
    } else if name == "--tcp_disorder"@ {
        Strategies::DISORDER
    } else if name == "--tcp_disorder2"@ {
        Strategies::DISORDER2
    } else if name == "--tcp_fake_disordered"@ {
        Strategies::FAKE
    } else if name == "--tcp_fake_insert"@ {
        Strategies::FAKEMD
    } else if name == "--tcp_fake_surround"@ {
        Strategies::FAKESURROUND
    } else if name == "--tcp_fake2_disordered"@ {
        Strategies::FAKE2DISORDER
    } else if name == "--tcp_fake2_insert"@ {
        Strategies::FAKE2INSERT
    } else if name == "--tcp_out_of_band"@ {
        Strategies::OOB
    } else if name == "--tcp_out_of_band_disorder"@ {
        Strategies::DISOOB
    } else if name == "--tcp_out_of_band_disorder2"@ {
        Strategies::OOB2
    } else if name == "--tcp_meltdown"@ {
        Strategies::MELTDOWN
    } else if name == "--tcp_out_of_band_hell"@ {
        Strategies::OOBSTREAMHELL
    } else if name == "--tls_record_frag"@ {
        Strategies::FRAGTLS
    } else if name == "--udp_0trail"@ {
        Strategies::TRAIL
    } else if name == "--udp_meltdown"@ {
        Strategies::MELTDOWNUDP
    } else {
        Strategies::NONE
    }
}

/// The technique that a method name selects.
pub fn method_of(name: &str) -> (method: Strategies)
    ensures
        method == method_named(name@),
{
    let chars: Vec<char> = chars_of(name);
    if chars_are(&chars, "--tcp_split") {
        Strategies::SPLIT
    } else if chars_are(&chars, "--tcp_disorder") {
        Strategies::DISORDER
    } else if chars_are(&chars, "--tcp_disorder2") {
        Strategies::DISORDER2
    } else if chars_are(&chars, "--tcp_fake_disordered") {
        Strategies::FAKE
    } else if chars_are(&chars, "--tcp_fake_insert") {
        Strategies::FAKEMD
    } else if chars_are(&chars, "--tcp_fake_surround") {
        Strategies::FAKESURROUND
    } else if chars_are(&chars, "--tcp_fake2_disordered") {
        Strategies::FAKE2DISORDER
    } else if chars_are(&chars, "--tcp_fake2_insert") {
        Strategies::FAKE2INSERT
    } else if chars_are(&chars, "--tcp_out_of_band") {
        Strategies::OOB
    } else if chars_are(&chars, "--tcp_out_of_band_disorder") {
        Strategies::DISOOB
    } else if chars_are(&chars, "--tcp_out_of_band_disorder2") {
        Strategies::OOB2
    } else if chars_are(&chars, "--tcp_meltdown") {
        Strategies::MELTDOWN
    } else if chars_are(&chars, "--tcp_out_of_band_hell") {
        Strategies::OOBSTREAMHELL
    } else if chars_are(&chars, "--tls_record_frag") {
        Strategies::FRAGTLS
    } else if chars_are(&chars, "--udp_0trail") {
        Strategies::TRAIL
    } else if chars_are(&chars, "--udp_meltdown") {
        Strategies::MELTDOWNUDP
    } else {
        Strategies::NONE
    }
}

/// The part of an offset expression that holds its number: what stands
/// before the first `+`, or, in an expression without `+`, before the first
/// `-`. The number is read with its own sign; a separator `-` does not
/// negate it.
pub open spec fn offset_token(expr: Seq<char>) -> Seq<char> {
    let separator = if expr.contains('+') {
        '+'
    } else {
        '-'
    };
    expr.take(first_index(expr, separator))
}

/// The number of an offset expression, where its token spells one.
pub open spec fn offset_number(expr: Seq<char>) -> Option<i64> {
    match parse_i64_spec(offset_token(expr)) {
        Ok(v) => Some(v),
        Err(_) => None,
    }
}

/// The base index that an offset expression gives: its number, less one
/// where `subtract` is set, and zero where it spells no number.
pub open spec fn base_index_of(expr: Seq<char>, subtract: bool) -> int {
    match offset_number(expr) {
        Some(v) => if subtract {
            v - 1
        } else {
            v as int
        },
        None => 0,
    }
}

/// The number of an offset expression, where its token spells one.
pub fn offset_number_of(expr: &str) -> (number: Option<i64>)
    ensures
        number == offset_number(expr@),
{
    let chars: Vec<char> = chars_of(expr);
    let separator: char = if chars_have(&chars, '+') {
        '+'
    } else {
        '-'
    };
    let cut: usize = find_char(&chars, 0, separator);
    assert(chars@.skip(0) =~= chars@);
    let token: Vec<char> = sub_chars(&chars, 0, cut);
    match parse_i64(&token) {
        Ok(v) => Some(v),
        Err(_) => None,
    }
}

impl Strategy {
    /// The base index of `expr` fits the field that holds it.
    pub open spec fn can_build(expr: Seq<char>, subtract: bool) -> bool {
        i64::MIN <= base_index_of(expr, subtract)
    }

    /// Builds the strategy that a method name and an offset expression
    /// configure, with the filters that are in force.
    pub fn from(
        first: String,
        second: String,
        subtract: bool,
        filter_protocol: &str,
        filter_port: &str,
        filter_sni: Option<Vec<String>>,
    ) -> (strategy: Strategy)
        requires
            Self::can_build(second@, subtract),
        ensures
            strategy.method == method_named(first@),
            strategy.base_index == base_index_of(second@, subtract),
            strategy.add_sni == second@.contains('s'),
            strategy.add_host == second@.contains('h'),
            strategy.subtract == subtract,
            strategy.filter_protocol == Some(
                if filter_protocol@ == "tcp"@ {
                    NetworkProtocol::TCP
                } else {
                    NetworkProtocol::UDP
                },
            ),
            strategy.filter_port == match range_of(filter_port@) {
                Ok(range) => Some(range),
                Err(_) => None,
            },
            strategy.filter_sni == filter_sni,
    {
        let expr: Vec<char> = chars_of(second.as_str());
        let protocol: Vec<char> = chars_of(filter_protocol);
        let base_index: i64 = match offset_number_of(second.as_str()) {
            Some(v) => if subtract {
                v - 1
            } else {
                v
            },
            None => 0,
        };
        Strategy {
            method: method_of(first.as_str()),
            base_index,
            add_sni: chars_have(&expr, 's'),
            add_host: chars_have(&expr, 'h'),
            subtract,
            filter_protocol: Some(
                if chars_are(&protocol, "tcp") {
                    NetworkProtocol::TCP
                } else {
                    NetworkProtocol::UDP
                },
            ),
            filter_port: match WeakRange::from(filter_port) {
                Ok(range) => Some(range),
                Err(_) => None,
            },
            filter_sni,
        }
    }

    /// Builds the strategy as `from` does, or none where the base index
    /// would not fit its field.
    pub fn checked_from(
        first: String,
        second: String,
        subtract: bool,
        filter_protocol: &str,
        filter_port: &str,
        filter_sni: Option<Vec<String>>,
    ) -> (built: Option<Strategy>)
        ensures
            built is Some <==> Self::can_build(second@, subtract),
            built matches Some(strategy) ==> {
                &&& strategy.method == method_named(first@)
                &&& strategy.base_index == base_index_of(second@, subtract)
                &&& strategy.add_sni == second@.contains('s')
                &&& strategy.add_host == second@.contains('h')
                &&& strategy.subtract == subtract
                &&& strategy.filter_protocol == Some(
                    if filter_protocol@ == "tcp"@ {
                        NetworkProtocol::TCP
                    } else {
                        NetworkProtocol::UDP
                    },
                )
                &&& strategy.filter_port == match range_of(filter_port@) {
                    Ok(range) => Some(range),
                    Err(_) => None,
                }
                &&& strategy.filter_sni == filter_sni
            },
    {
        if subtract {
            if let Some(v) = offset_number_of(second.as_str()) {
                if v == i64::MIN {
                    return None;
                }
            }
        }
        Some(Strategy::from(first, second, subtract, filter_protocol, filter_port, filter_sni))
    }
}

/// A value with a switch that says whether it is in force.
#[derive(Debug, Clone, PartialEq, Eq)]
pub struct DataOverride<T> {
    pub active: bool,
    pub data: T,
}

/// The configuration record: the strategies and the global scalars.
#[derive(Debug, Clone)]
pub struct AuxConfig {
    pub bind_host: String,
    pub bind_port: u16,
    pub bind_iface: String,
    pub bind_iface_mtu: u32,
    pub bind_iface_ipv4: String,
    pub bind_iface_ipv6: String,
    pub fake_packet_ttl: u8,
    pub fake_packet_sni: String,
    pub fake_as_oob: bool,
    pub fake_packet_send_http: bool,
    pub fake_packet_host: String,
    pub fake_packet_override_data: DataOverride<Vec<u8>>,
    pub fake_packet_double: bool,
    pub fake_packet_reversed: bool,
    pub fake_packet_random: bool,
    pub so_recv_size: usize,
    pub so_send_size: usize,
    pub so_opt_cutoff: u64,
    /// Upper bound of the delay after a dispatch, in milliseconds.
    pub l7_packet_jitter_max: u64,
    pub disable_sack: bool,
    pub fake_clienthello: bool,
    pub fake_clienthello_sni: String,
    pub oob_streamhell_data: String,
    pub http_host_cmix: bool,
    pub http_host_rmspace: bool,
    pub http_host_space: bool,
    pub http_domain_cmix: bool,
    pub disorder_packet_ttl: u8,
    pub default_ttl: u8,
    pub out_of_band_charid: u8,
    pub packet_hop: u64,
    pub whitelist_sni: bool,
    pub whitelist_sni_list: Vec<String>,
    pub strategies: Vec<DataOverride<Strategy>>,
}

} // verus!
