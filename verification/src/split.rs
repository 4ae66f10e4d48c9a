//! The cut of the plain segmentation technique.

use vstd::prelude::*;
use vstd::slice::slice_to_vec;
use crate::config::Strategy;
use crate::packet::{part_views, split_index, split_packet, split_parts};
use crate::sni::{parse_sni_index, sni_span};

verus! {

/// Splits `packet_buffer` where `strategy` asks: at its base index, counted
/// from the start of the server name that the buffer holds where the
/// strategy is relative to it.
pub fn get_split_packet(packet_buffer: &[u8], strategy: Strategy) -> (parts: Vec<Vec<u8>>)
    ensures
        part_views(parts@) == split_parts(
            packet_buffer@,
            split_index(strategy.base_index, strategy.add_sni, sni_span(packet_buffer@).0 as int),
        ),
{
    let (sni_start, _sni_end) = parse_sni_index(slice_to_vec(packet_buffer));
    let middle: i128 = strategy.base_index as i128 + if strategy.add_sni {
        sni_start as i128
    } else {
        0
    };
    split_packet(packet_buffer, middle)
}

} // verus!
