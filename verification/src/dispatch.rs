//! The dispatch of one intercepted buffer: each configured strategy whose
//! filters match cuts the bytes that remain and says what is to be written
//! to the upstream socket, and what is left is handed back to be forwarded.
//! Nothing is written here: the writes come out as a list, to be carried out
//! in order.

use vstd::prelude::*;
use vstd::slice::slice_to_vec;
use vstd::string::StrSliceExecFns;
use crate::config::{AuxConfig, DataOverride, NetworkProtocol, Strategies, Strategy};
use crate::fake::{decoy_for, get_fake_packet};
use crate::packet::{
    filler, lcg_byte, lcg_next, make_random_vec, slice_packet, split_index, Random,
};
use crate::sni::{check_whitelist, no_span, parse_sni_index, sni_span, whitelisted};
use crate::tamper::{can_fragment, edit_http, edit_http_from, fragment_record, fragments};

verus! {

/// One write to the upstream socket.
#[derive(Debug, Clone, PartialEq, Eq)]
pub enum Emission {
    /// An ordinary write of all the bytes.
    Plain(Vec<u8>),
    /// A write with the hop limit forced to 1 and then put back, so that the
    /// bytes expire on the way.
    Expiring(Vec<u8>),
    /// A write of the first byte alone, with the hop limit of decoys, on the
    /// ordinary or the out-of-band channel as the configuration says.
    Decoy(Vec<u8>),
    /// A write of all the bytes with the out-of-band flag.
    OutOfBand(Vec<u8>),
    /// An out-of-band write with the hop limit forced to 1 and then put back.
    ExpiringOutOfBand(Vec<u8>),
    /// Selective acknowledgement is switched off on the socket.
    DisableSack,
}

/// What an emission is, with its bytes as a sequence.
pub enum Sent {
    Plain(Seq<u8>),
    Expiring(Seq<u8>),
    Decoy(Seq<u8>),
    OutOfBand(Seq<u8>),
    ExpiringOutOfBand(Seq<u8>),
    DisableSack,
}

impl View for Emission {
    type V = Sent;

    open spec fn view(&self) -> Sent {
        match self {
            Emission::Plain(bytes) => Sent::Plain(bytes@),
            Emission::Expiring(bytes) => Sent::Expiring(bytes@),
            Emission::Decoy(bytes) => Sent::Decoy(bytes@),
            Emission::OutOfBand(bytes) => Sent::OutOfBand(bytes@),
            Emission::ExpiringOutOfBand(bytes) => Sent::ExpiringOutOfBand(bytes@),
            Emission::DisableSack => Sent::DisableSack,
        }
    }
}

/// The writes of a list of emissions, in order.
pub open spec fn writes(emissions: Seq<Emission>) -> Seq<Sent> {
    emissions.map_values(|e: Emission| e@)
}

/// What is known of the connection that a buffer belongs to.
#[derive(Debug, Clone, Copy)]
pub struct Peer {
    /// The transport of the connection.
    pub transport: NetworkProtocol,
    /// The port of the destination, where it could be learnt.
    pub port: Option<u16>,
}

/// Whether the filters of `strategy` let it act on `remaining`: a strategy
/// relative to the server name needs a name to have been found; its
/// allow-list, protocol and port range each have to match where they are
/// set. A port that is not known passes every range.
pub open spec fn passes_filters(
    strategy: Strategy,
    sni: (u32, u32),
    peer: Peer,
    remaining: Seq<u8>,
) -> bool {
    &&& !(strategy.add_sni && sni == no_span())
    &&& whitelisted(strategy.filter_sni, sni, remaining)
    &&& (strategy.filter_protocol matches Some(protocol) ==> protocol == peer.transport)
    &&& (strategy.filter_port matches Some(range) ==> (peer.port matches Some(port)
        ==> range.holds(port)))
}

/// One out-of-band write for each byte of `bytes`.
pub open spec fn byte_by_byte(bytes: Seq<u8>) -> Seq<Sent> {
    Seq::new(bytes.len(), |i: int| Sent::OutOfBand(seq![bytes[i]]))
}

/// What `method` writes and what it leaves of `remaining`, cut at `middle`
/// into `first` and `second`.
pub open spec fn technique(
    method: Strategies,
    conf: AuxConfig,
    remaining: Seq<u8>,
    middle: int,
) -> (Seq<Sent>, Seq<u8>) {
    let first = remaining.take(middle);
    let second = remaining.skip(middle);
    let marked = first.push(conf.out_of_band_charid);
    let chosen = if conf.fake_packet_reversed {
        first
    } else {
        second
    };
    match method {
        Strategies::NONE | Strategies::TRAIL => (Seq::empty(), remaining),
        Strategies::SPLIT => (seq![Sent::Plain(first)], second),
        Strategies::DISORDER => (seq![Sent::Expiring(first)], second),
        Strategies::DISORDER2 => (seq![Sent::Plain(first), Sent::Expiring(second)], Seq::empty()),
        Strategies::FAKE => (
            seq![Sent::Expiring(first), Sent::Decoy(decoy_for(chosen, conf))],
            second,
        ),
        Strategies::FAKEMD => (
            seq![Sent::Plain(first), Sent::Decoy(decoy_for(chosen, conf))],
            second,
        ),
        Strategies::FAKE2INSERT => (
            seq![Sent::Plain(first), Sent::Decoy(decoy_for(second, conf))],
            second,
        ),
        Strategies::FAKE2DISORDER => (
            seq![Sent::Plain(first), Sent::Decoy(decoy_for(second, conf)), Sent::Expiring(second)],
            Seq::empty(),
        ),
        Strategies::FAKESURROUND => (
            seq![
                Sent::Decoy(decoy_for(chosen, conf)),
                Sent::Plain(first),
                Sent::Decoy(decoy_for(chosen, conf)),
            ],
            second,
        ),
        Strategies::MELTDOWN | Strategies::MELTDOWNUDP => (
            seq![Sent::Expiring(remaining)],
            Seq::empty(),
        ),
        Strategies::OOB => (seq![Sent::OutOfBand(marked)], second),
        Strategies::OOB2 => (seq![Sent::OutOfBand(marked), Sent::Expiring(second)], Seq::empty()),
        Strategies::DISOOB => (seq![Sent::ExpiringOutOfBand(marked)], second),
        Strategies::OOBSTREAMHELL => (
            seq![Sent::Plain(first)] + byte_by_byte(
                vstd::utf8::encode_utf8(conf.oob_streamhell_data@),
            ),
            second,
        ),
        Strategies::FRAGTLS => (
            Seq::empty(),
            if can_fragment(remaining, middle) {
                fragments(remaining, middle)
            } else {
                remaining
            },
        ),
    }
}

/// What one strategy writes and what it leaves of `remaining`. A strategy
/// whose filters do not match, or whose index does not lie strictly inside
/// `remaining`, writes nothing and leaves everything.
pub open spec fn step(
    strategy: Strategy,
    conf: AuxConfig,
    sni: (u32, u32),
    peer: Peer,
    remaining: Seq<u8>,
) -> (Seq<Sent>, Seq<u8>) {
    let middle = split_index(strategy.base_index, strategy.add_sni, sni.0 as int);
    if passes_filters(strategy, sni, peer, remaining) && 0 < middle < remaining.len() {
        technique(strategy.method, conf, remaining, middle)
    } else {
        (Seq::empty(), remaining)
    }
}

/// What a list of strategies writes, in order, and what it leaves of
/// `data`: each strategy acts on what the ones before it left. Every entry
/// of the list takes part, whatever its switch says.
pub open spec fn dispatched(
    strategies: Seq<DataOverride<Strategy>>,
    conf: AuxConfig,
    sni: (u32, u32),
    peer: Peer,
    data: Seq<u8>,
) -> (Seq<Sent>, Seq<u8>)
    decreases strategies.len(),
{
    if strategies.len() == 0 {
        (Seq::empty(), data)
    } else {
        let before = dispatched(strategies.drop_last(), conf, sni, peer, data);
        let last = step(strategies.last().data, conf, sni, peer, before.1);
        (before.0 + last.0, last.1)
    }
}

fn matches_filters(strategy: &Strategy, sni: &(u32, u32), peer: &Peer, remaining: &Vec<u8>) -> (pass:
    bool)
    requires
        sni.0 <= sni.1,
    ensures
        pass == passes_filters(*strategy, *sni, *peer, remaining@),
{
    if strategy.add_sni && sni.0 == 0 && sni.1 == 0 {
        return false;
    }
    if !check_whitelist(&strategy.filter_sni, sni, remaining.as_slice()) {
        return false;
    }
    if let Some(protocol) = strategy.filter_protocol {
        if protocol != peer.transport {
            return false;
        }
    }
    if let Some(port) = peer.port {
        if let Some(range) = strategy.filter_port {
            if !range.contains_port(port) {
                return false;
            }
        }
    }
    true
}

fn push_byte_by_byte(emissions: &mut Vec<Emission>, bytes: &Vec<u8>)
    ensures
        writes(final(emissions)@) == writes(old(emissions)@) + byte_by_byte(bytes@),
{
    let n: usize = bytes.len();
    let mut i: usize = 0;
    assert(writes(emissions@) =~= writes(old(emissions)@) + byte_by_byte(bytes@.take(0)));
    while i < n
        invariant
            n == bytes@.len(),
            i <= n,
            writes(emissions@) == writes(old(emissions)@) + byte_by_byte(bytes@.take(i as int)),
        decreases n - i,
    {
        let ghost before = emissions@;
        let mut one: Vec<u8> = Vec::new();
        one.push(bytes[i]);
        assert(one@ =~= seq![bytes@[i as int]]);
        emissions.push(Emission::OutOfBand(one));
        i += 1;
        assert(writes(emissions@) =~= writes(before).push(Sent::OutOfBand(seq![bytes@[i - 1]])));
        assert(writes(emissions@) =~= writes(old(emissions)@) + byte_by_byte(
            bytes@.take(i as int),
        ));
    }
    assert(bytes@.take(n as int) =~= bytes@);
}

fn push_emission(emissions: &mut Vec<Emission>, emission: Emission)
    ensures
        writes(final(emissions)@) == writes(old(emissions)@).push(emission@),
{
    emissions.push(emission);
    assert(writes(emissions@) =~= writes(old(emissions)@).push(emission@));
}

fn apply_technique(
    method: Strategies,
    conf: &AuxConfig,
    remaining: Vec<u8>,
    middle: usize,
    emissions: &mut Vec<Emission>,
) -> (left: Vec<u8>)
    requires
        0 < middle < remaining@.len(),
    ensures
        writes(final(emissions)@) == writes(old(emissions)@) + technique(
            method,
            *conf,
            remaining@,
            middle as int,
        ).0,
        left@ == technique(method, *conf, remaining@, middle as int).1,
{
    let ghost start = writes(emissions@);
    let ghost whole = remaining@;
    match method {
        Strategies::NONE | Strategies::TRAIL => {
            assert(start + Seq::<Sent>::empty() =~= start);
            remaining
        },
        Strategies::MELTDOWN | Strategies::MELTDOWNUDP => {
            push_emission(emissions, Emission::Expiring(remaining));
            assert(start.push(Sent::Expiring(whole)) =~= start + seq![Sent::Expiring(whole)]);
            Vec::new()
        },
        Strategies::FRAGTLS => {
            assert(start + Seq::<Sent>::empty() =~= start);
            fragment_record(remaining, middle)
        },
        _ => {
            let mut parts: Vec<Vec<u8>> = slice_packet(remaining, middle as u64);
            let second: Vec<u8> = parts.pop().unwrap();
            let first: Vec<u8> = parts.pop().unwrap();
            assert(first@ == whole.take(middle as int));
            assert(second@ == whole.skip(middle as int));
            let ghost f = first@;
            let ghost s = second@;
            match method {
                Strategies::SPLIT => {
                    push_emission(emissions, Emission::Plain(first));
                    assert(start.push(Sent::Plain(f)) =~= start + seq![Sent::Plain(f)]);
                    second
                },
                Strategies::DISORDER => {
                    push_emission(emissions, Emission::Expiring(first));
                    assert(start.push(Sent::Expiring(f)) =~= start + seq![Sent::Expiring(f)]);
                    second
                },
                Strategies::DISORDER2 => {
                    push_emission(emissions, Emission::Plain(first));
                    push_emission(emissions, Emission::Expiring(second));
                    assert(start.push(Sent::Plain(f)).push(Sent::Expiring(s)) =~= start + seq![
                        Sent::Plain(f),
                        Sent::Expiring(s),
                    ]);
                    Vec::new()
                },
                Strategies::FAKE => {
                    let chosen: Vec<u8> = if conf.fake_packet_reversed {
                        slice_to_vec(first.as_slice())
                    } else {
                        slice_to_vec(second.as_slice())
                    };
                    let decoy: Vec<u8> = get_fake_packet(chosen, conf);
                    let ghost d = decoy@;
                    push_emission(emissions, Emission::Expiring(first));
                    push_emission(emissions, Emission::Decoy(decoy));
                    assert(start.push(Sent::Expiring(f)).push(Sent::Decoy(d)) =~= start + seq![
                        Sent::Expiring(f),
                        Sent::Decoy(d),
                    ]);
                    second
                },
                Strategies::FAKEMD => {
                    let chosen: Vec<u8> = if conf.fake_packet_reversed {
                        slice_to_vec(first.as_slice())
                    } else {
                        slice_to_vec(second.as_slice())
                    };
                    let decoy: Vec<u8> = get_fake_packet(chosen, conf);
                    let ghost d = decoy@;
                    push_emission(emissions, Emission::Plain(first));
                    push_emission(emissions, Emission::Decoy(decoy));
                    assert(start.push(Sent::Plain(f)).push(Sent::Decoy(d)) =~= start + seq![
                        Sent::Plain(f),
                        Sent::Decoy(d),
                    ]);
                    second
                },
                Strategies::FAKE2INSERT => {
                    let decoy: Vec<u8> = get_fake_packet(slice_to_vec(second.as_slice()), conf);
                    let ghost d = decoy@;
                    push_emission(emissions, Emission::Plain(first));
                    push_emission(emissions, Emission::Decoy(decoy));
                    assert(start.push(Sent::Plain(f)).push(Sent::Decoy(d)) =~= start + seq![
                        Sent::Plain(f),
                        Sent::Decoy(d),
                    ]);
                    second
                },
                Strategies::FAKE2DISORDER => {
                    let decoy: Vec<u8> = get_fake_packet(slice_to_vec(second.as_slice()), conf);
                    let ghost d = decoy@;
                    push_emission(emissions, Emission::Plain(first));
                    push_emission(emissions, Emission::Decoy(decoy));
                    push_emission(emissions, Emission::Expiring(second));
                    assert(start.push(Sent::Plain(f)).push(Sent::Decoy(d)).push(Sent::Expiring(s))
                        =~= start + seq![Sent::Plain(f), Sent::Decoy(d), Sent::Expiring(s)]);
                    Vec::new()
                },
                Strategies::FAKESURROUND => {
                    let chosen: Vec<u8> = if conf.fake_packet_reversed {
                        slice_to_vec(first.as_slice())
                    } else {
                        slice_to_vec(second.as_slice())
                    };
                    let decoy: Vec<u8> = get_fake_packet(chosen, conf);
                    let again: Vec<u8> = slice_to_vec(decoy.as_slice());
                    let ghost d = decoy@;
                    push_emission(emissions, Emission::Decoy(decoy));
                    push_emission(emissions, Emission::Plain(first));
                    push_emission(emissions, Emission::Decoy(again));
                    assert(start.push(Sent::Decoy(d)).push(Sent::Plain(f)).push(Sent::Decoy(d))
                        =~= start + seq![Sent::Decoy(d), Sent::Plain(f), Sent::Decoy(d)]);
                    second
                },
                Strategies::OOB => {
                    let mut marked: Vec<u8> = first;
                    marked.push(conf.out_of_band_charid);
                    let ghost m = marked@;
                    push_emission(emissions, Emission::OutOfBand(marked));
                    assert(start.push(Sent::OutOfBand(m)) =~= start + seq![Sent::OutOfBand(m)]);
                    second
                },
                Strategies::OOB2 => {
                    let mut marked: Vec<u8> = first;
                    marked.push(conf.out_of_band_charid);
                    let ghost m = marked@;
                    push_emission(emissions, Emission::OutOfBand(marked));
                    push_emission(emissions, Emission::Expiring(second));
                    assert(start.push(Sent::OutOfBand(m)).push(Sent::Expiring(s)) =~= start + seq![
                        Sent::OutOfBand(m),
                        Sent::Expiring(s),
                    ]);
                    Vec::new()
                },
                Strategies::DISOOB => {
                    let mut marked: Vec<u8> = first;
                    marked.push(conf.out_of_band_charid);
                    let ghost m = marked@;
                    push_emission(emissions, Emission::ExpiringOutOfBand(marked));
                    assert(start.push(Sent::ExpiringOutOfBand(m)) =~= start + seq![
                        Sent::ExpiringOutOfBand(m),
                    ]);
                    second
                },
                _ => {
                    let stream: Vec<u8> = conf.oob_streamhell_data.as_str().as_bytes_vec();
                    push_emission(emissions, Emission::Plain(first));
                    push_byte_by_byte(emissions, &stream);
                    assert(start.push(Sent::Plain(f)) + byte_by_byte(stream@) =~= start + (seq![
                        Sent::Plain(f),
                    ] + byte_by_byte(stream@)));
                    second
                },
            }
        },
    }
}

fn apply_strategy(
    strategy: &Strategy,
    conf: &AuxConfig,
    sni: &(u32, u32),
    peer: &Peer,
    remaining: Vec<u8>,
    emissions: &mut Vec<Emission>,
) -> (left: Vec<u8>)
    requires
        sni.0 <= sni.1,
    ensures
        writes(final(emissions)@) == writes(old(emissions)@) + step(
            *strategy,
            *conf,
            *sni,
            *peer,
            remaining@,
        ).0,
        left@ == step(*strategy, *conf, *sni, *peer, remaining@).1,
{
    let middle: i128 = strategy.base_index as i128 + if strategy.add_sni {
        sni.0 as i128
    } else {
        0
    };
    if matches_filters(strategy, sni, peer, &remaining) && 0 < middle && middle
        < remaining.len() as i128 {
        apply_technique(strategy.method, conf, remaining, middle as usize, emissions)
    } else {
        assert(writes(emissions@) + Seq::<Sent>::empty() =~= writes(emissions@));
        remaining
    }
}

/// Threads `data` through `strategies` in order. The result holds what is
/// to be written to the upstream socket, in order, and the bytes that are
/// left to be forwarded.
pub fn dispatch(
    strategies: &Vec<DataOverride<Strategy>>,
    conf: &AuxConfig,
    sni: &(u32, u32),
    peer: &Peer,
    data: Vec<u8>,
) -> (out: (Vec<Emission>, Vec<u8>))
    requires
        sni.0 <= sni.1,
    ensures
        (writes(out.0@), out.1@) == dispatched(strategies@, *conf, *sni, *peer, data@),
{
    let mut emissions: Vec<Emission> = Vec::new();
    let mut remaining: Vec<u8> = data;
    let n: usize = strategies.len();
    let mut k: usize = 0;
    assert(strategies@.take(0) =~= Seq::<DataOverride<Strategy>>::empty());
    assert(writes(emissions@) =~= Seq::<Sent>::empty());
    while k < n
        invariant
            n == strategies@.len(),
            k <= n,
            sni.0 <= sni.1,
            (writes(emissions@), remaining@) == dispatched(
                strategies@.take(k as int),
                *conf,
                *sni,
                *peer,
                data@,
            ),
        decreases n - k,
    {
        assert(strategies@.take(k + 1).drop_last() =~= strategies@.take(k as int));
        remaining = apply_strategy(&strategies[k].data, conf, sni, peer, remaining, &mut emissions);
        k += 1;
    }
    assert(strategies@.take(n as int) =~= strategies@);
    (emissions, remaining)
}

/// The start of the decoy ClientHello: a record header, a handshake header
/// and a body of zeros up to the place of the server name.
pub open spec fn fake_hello_prefix() -> Seq<u8> {
    seq![
        0x16u8, 0x03, 0x01, 0x00, 0xa5, 0x01, 0x00, 0x00, 0xa1, 0x03, 0x03, 0x00, 0x00, 0x00,
        0x00, 0x00, 0x00, 0x00, 0x00, 0x00, 0x00, 0x00, 0x00, 0x00, 0x00, 0x00, 0x00, 0x00, 0x00,
        0x00, 0x00, 0x00, 0x00, 0x00, 0x00, 0x00, 0x00, 0x00, 0x00, 0x00, 0x00, 0x00, 0x00, 0x00,
        0x00, 2, 0x00, 0x0a, 0x01, 0x00, 0x00, 16, 0x00, 0x00, 0x00, 0x28,
    ]
}

/// The decoy ClientHello that names the configured decoy host.
pub open spec fn fake_hello(conf: AuxConfig) -> Seq<u8> {
    fake_hello_prefix() + vstd::utf8::encode_utf8(conf.fake_clienthello_sni@)
}

/// What is written before the strategies run: a decoy ClientHello, where
/// the configuration asks for one and a server name was found.
pub open spec fn prologue(conf: AuxConfig, sni: (u32, u32)) -> Seq<Sent> {
    if sni != no_span() && conf.fake_clienthello {
        seq![Sent::Decoy(fake_hello(conf))]
    } else {
        Seq::empty()
    }
}

/// What is done after the strategies ran: selective acknowledgement is
/// switched off and a decoy of 32 filler bytes is sent, each where the
/// configuration asks for it.
pub open spec fn epilogue(conf: AuxConfig) -> Seq<Sent> {
    let sack = if conf.disable_sack {
        seq![Sent::DisableSack]
    } else {
        Seq::empty()
    };
    let random = if conf.fake_packet_random {
        seq![Sent::Decoy(filler(32, 0xDEAD))]
    } else {
        Seq::empty()
    };
    sack + random
}

/// The decoy ClientHello that names the configured decoy host.
pub fn make_fake_hello(conf: &AuxConfig) -> (hello: Vec<u8>)
    ensures
        hello@ == fake_hello(*conf),
{
    let mut hello: Vec<u8> = vec![
        0x16u8, 0x03, 0x01, 0x00, 0xa5, 0x01, 0x00, 0x00, 0xa1, 0x03, 0x03, 0x00, 0x00, 0x00,
        0x00, 0x00, 0x00, 0x00, 0x00, 0x00, 0x00, 0x00, 0x00, 0x00, 0x00, 0x00, 0x00, 0x00, 0x00,
        0x00, 0x00, 0x00, 0x00, 0x00, 0x00, 0x00, 0x00, 0x00, 0x00, 0x00, 0x00, 0x00, 0x00, 0x00,
        0x00, 2, 0x00, 0x0a, 0x01, 0x00, 0x00, 16, 0x00, 0x00, 0x00, 0x28,
    ];
    assert(hello@ =~= fake_hello_prefix());
    let mut name: Vec<u8> = conf.fake_clienthello_sni.as_str().as_bytes_vec();
    hello.append(&mut name);
    hello
}

/// Runs the configured strategies on `current_data`, which is left holding
/// the bytes to be forwarded, and returns what is to be written to the
/// upstream socket before that, in order.
pub fn execute_l4_bypasses(
    config: &AuxConfig,
    peer: &Peer,
    current_data: &mut Vec<u8>,
    sni_data: &(u32, u32),
) -> (emissions: Vec<Emission>)
    requires
        sni_data.0 <= sni_data.1,
    ensures
        writes(emissions@) == prologue(*config, *sni_data) + dispatched(
            config.strategies@,
            *config,
            *sni_data,
            *peer,
            old(current_data)@,
        ).0 + epilogue(*config),
        final(current_data)@ == dispatched(
            config.strategies@,
            *config,
            *sni_data,
            *peer,
            old(current_data)@,
        ).1,
{
    let mut data: Vec<u8> = Vec::new();
    core::mem::swap(current_data, &mut data);
    let (planned, left) = dispatch(&config.strategies, config, sni_data, peer, data);
    let ghost middle = writes(planned@);
    let mut emissions: Vec<Emission> = Vec::new();
    assert(writes(emissions@) =~= Seq::<Sent>::empty());
    if !(sni_data.0 == 0 && sni_data.1 == 0) && config.fake_clienthello {
        push_emission(&mut emissions, Emission::Decoy(make_fake_hello(config)));
    }
    assert(writes(emissions@) =~= prologue(*config, *sni_data));
    let mut planned = planned;
    let ghost head = emissions@;
    emissions.append(&mut planned);
    assert(writes(emissions@) =~= writes(head) + middle);
    let ghost body = writes(emissions@);
    if config.disable_sack {
        push_emission(&mut emissions, Emission::DisableSack);
    }
    if config.fake_packet_random {
        push_emission(&mut emissions, Emission::Decoy(make_random_vec(32, 0xDEAD)));
    }
    assert(writes(emissions@) =~= body + epilogue(*config));
    *current_data = left;
    emissions
}

/// Applies the edits of the HTTP layer to `data`.
pub fn execute_l5_bypasses(data: &[u8], conf: &AuxConfig) -> (edited: Vec<u8>)
    ensures
        edited@ == edit_http_from(data@, 0, data@.len() as int, *conf),
{
    edit_http(slice_to_vec(data), conf)
}

/// The delay after a dispatch: the byte that a generator seeded with `seed`
/// emits first, as a part of 256 of `jitter_max`.
pub open spec fn jitter_of(seed: u32, jitter_max: u64) -> int {
    (lcg_byte(lcg_next(seed)) * jitter_max) / 256
}

/// The delay after a dispatch, in the unit of `jitter_max`.
pub fn jitter_delay(seed: u32, jitter_max: u64) -> (delay: u64)
    ensures
        delay == jitter_of(seed, jitter_max),
        delay <= jitter_max,
{
    let mut rand: Random = Random::new(seed);
    let rand_num: u128 = rand.next_rand() as u128;
    let bound: u128 = jitter_max as u128;
    assert(rand_num * bound <= 255 * bound) by (nonlinear_arith)
        requires
            0 <= rand_num <= 255,
            0 <= bound,
    ;
    let scaled: u128 = rand_num * bound;
    (scaled / 256) as u64
}

/// The length of `data` fits the 32 bits of a span.
pub open spec fn fits_span(data: Seq<u8>) -> bool {
    data.len() <= u32::MAX
}

/// What the hook makes of one buffer: the server name is located in the
/// buffer as it came, the HTTP edits are applied, and the strategies run on
/// the edited bytes. A buffer that is too long for a span is handed back
/// as it is, with nothing to write.
pub open spec fn hooked(conf: AuxConfig, peer: Peer, data: Seq<u8>) -> (Seq<Sent>, Seq<u8>) {
    if fits_span(data) {
        let sni = sni_span(data);
        let edited = edit_http_from(data, 0, data.len() as int, conf);
        let run = dispatched(conf.strategies@, conf, sni, peer, edited);
        (prologue(conf, sni) + run.0 + epilogue(conf), run.1)
    } else {
        (Seq::empty(), data)
    }
}

/// Processes one buffer read from the client: returns what is to be written
/// to the upstream socket at once, in order, and the bytes to be forwarded
/// after that.
pub fn client_hook(conf: &AuxConfig, peer: &Peer, data: &[u8]) -> (out: (Vec<Emission>, Vec<u8>))
    ensures
        (writes(out.0@), out.1@) == hooked(*conf, *peer, data@),
{
    if data.len() as u64 > u32::MAX as u64 {
        let nothing: Vec<Emission> = Vec::new();
        assert(writes(nothing@) =~= Seq::<Sent>::empty());
        return (nothing, slice_to_vec(data));
    }
    let sni_data: (u32, u32) = parse_sni_index(slice_to_vec(data));
    proof {
        crate::sni::lemma_span_in_bounds(data@);
    }
    let mut l5_data: Vec<u8> = execute_l5_bypasses(data, conf);
    let emissions: Vec<Emission> = execute_l4_bypasses(conf, peer, &mut l5_data, &sni_data);
    (emissions, l5_data)
}

/// Counts the dispatches of one connection and stops them at a cap.
#[derive(Debug, Clone, Copy)]
pub struct HopCounter {
    /// The dispatches that have run.
    pub hops: u64,
    /// The cap on them.
    pub max_hops: u64,
}

impl HopCounter {
    /// A counter that has counted nothing, with the cap `max_hops`.
    pub fn new(max_hops: u64) -> (counter: Self)
        ensures
            counter.hops == 0,
            counter.max_hops == max_hops,
    {
        HopCounter { hops: 0, max_hops }
    }

    /// The cap is reached: no further buffer is dispatched.
    pub open spec fn exhausted(&self) -> bool {
        self.hops >= self.max_hops
    }

    /// Processes one buffer of the connection. Below the cap a buffer that
    /// is not empty, and not too long for a span, is dispatched and counted.
    /// Any other buffer, and once the cap is reached every buffer, comes
    /// back as it is, with nothing to write, and the counter stays as it is.
    pub fn intercept(&mut self, conf: &AuxConfig, peer: &Peer, data: &[u8]) -> (out: (
        Vec<Emission>,
        Vec<u8>,
    ))
        ensures
            final(self).max_hops == old(self).max_hops,
            old(self).exhausted() ==> final(self).exhausted(),
            old(self).exhausted() || data@.len() == 0 || !fits_span(data@) ==> {
                &&& out.0@.len() == 0
                &&& out.1@ == data@
                &&& *final(self) == *old(self)
            },
            !old(self).exhausted() && data@.len() > 0 && fits_span(data@) ==> {
                &&& (writes(out.0@), out.1@) == hooked(*conf, *peer, data@)
                &&& final(self).hops == old(self).hops + 1
            },
    {
        if data.len() > 0 && data.len() as u64 <= u32::MAX as u64 && self.hops < self.max_hops {
            let out = client_hook(conf, peer, data);
            self.hops += 1;
            out
        } else {
            (Vec::new(), slice_to_vec(data))
        }
    }
}

/// With no strategy configured nothing is written and the buffer comes back
/// as it is.
pub proof fn lemma_no_strategy_no_write(conf: AuxConfig, sni: (u32, u32), peer: Peer, data: Seq<u8>)
    ensures
        dispatched(Seq::empty(), conf, sni, peer, data) == (Seq::<Sent>::empty(), data),
{
}

/// With no strategy configured and none of the decoy hello, the switching
/// off of selective acknowledgement and the random decoy asked for, the
/// hook writes nothing; where no HTTP edit is asked for either, the buffer
/// comes back as it is.
pub proof fn lemma_quiet_hook(conf: AuxConfig, peer: Peer, data: Seq<u8>)
    requires
        conf.strategies@.len() == 0,
        !conf.fake_clienthello,
        !conf.disable_sack,
        !conf.fake_packet_random,
    ensures
        hooked(conf, peer, data).0 == Seq::<Sent>::empty(),
        !conf.http_host_cmix && !conf.http_host_rmspace && !conf.http_host_space
            && !conf.http_domain_cmix ==> hooked(conf, peer, data).1 == data,
{
    assert(conf.strategies@ =~= Seq::<DataOverride<Strategy>>::empty());
    assert(Seq::<Sent>::empty() + Seq::<Sent>::empty() + Seq::<Sent>::empty() =~= Seq::<
        Sent,
    >::empty());
    if !conf.http_host_cmix && !conf.http_host_rmspace && !conf.http_host_space
        && !conf.http_domain_cmix {
        crate::tamper::lemma_no_edit_asked(data, 0, data.len() as int, conf);
    }
}

/// A single split strategy without filters, whose index lies strictly
/// inside the buffer, writes the bytes before the index in one plain write
/// and leaves the bytes from the index on.
pub proof fn lemma_single_split(
    strategy: DataOverride<Strategy>,
    conf: AuxConfig,
    sni: (u32, u32),
    peer: Peer,
    data: Seq<u8>,
)
    requires
        strategy.data.method == Strategies::SPLIT,
        !strategy.data.add_sni,
        strategy.data.filter_sni is None,
        strategy.data.filter_protocol is None,
        strategy.data.filter_port is None,
        0 < strategy.data.base_index < data.len(),
    ensures
        dispatched(seq![strategy], conf, sni, peer, data) == (
            seq![Sent::Plain(data.take(strategy.data.base_index as int))],
            data.skip(strategy.data.base_index as int),
        ),
{
    let list = seq![strategy];
    assert(list.drop_last() =~= Seq::<DataOverride<Strategy>>::empty());
    assert(list.last() == strategy);
    let before = dispatched(list.drop_last(), conf, sni, peer, data);
    assert(before == (Seq::<Sent>::empty(), data));
    let last = step(strategy.data, conf, sni, peer, data);
    assert(before.0 + last.0 =~= last.0);
}

/// Strategies never make the buffer longer, but for the re-framing of a TLS
/// record, which adds the five bytes of a second record header.
pub proof fn lemma_step_length(
    strategy: Strategy,
    conf: AuxConfig,
    sni: (u32, u32),
    peer: Peer,
    remaining: Seq<u8>,
)
    ensures
        strategy.method != Strategies::FRAGTLS ==> step(strategy, conf, sni, peer, remaining).1.len()
            <= remaining.len(),
        strategy.method == Strategies::FRAGTLS ==> step(strategy, conf, sni, peer, remaining).1.len()
            <= remaining.len() + 5,
{
}

} // verus!
