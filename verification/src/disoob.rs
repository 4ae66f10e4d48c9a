//! The cut of the out-of-band techniques, which take the span of the server
//! name from their caller.

use vstd::prelude::*;
use crate::config::Strategy;
use crate::packet::{part_views, split_index, split_packet, split_parts};

verus! {

/// Splits `packet_buffer` where `strategy` asks: at its base index, counted
/// from the start of `sni_data` where the strategy is relative to the
/// server name.
pub fn get_split_packet(packet_buffer: &[u8], strategy: Strategy, sni_data: &(u32, u32)) -> (parts:
    Vec<Vec<u8>>)
    ensures
        part_views(parts@) == split_parts(
            packet_buffer@,
            split_index(strategy.base_index, strategy.add_sni, sni_data.0 as int),
        ),
{
    let middle: i128 = strategy.base_index as i128 + if strategy.add_sni {
        sni_data.0 as i128
    } else {
        0
    };
    split_packet(packet_buffer, middle)
}

} // verus!
