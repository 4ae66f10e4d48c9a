//! The cut that goes by the pair heuristic: the middle of the server name
//! as that heuristic finds it.

use vstd::prelude::*;
use vstd::slice::slice_to_vec;
use crate::fake::span_middle;
use crate::packet::{part_views, split_packet, split_parts};
use crate::scan::{pair_span, pair_span_fits, parse_sni_index};

verus! {

/// Splits `packet_buffer` in the middle of its server name, or leaves it
/// whole where that middle does not lie strictly inside it.
pub fn get_split_packet(packet_buffer: &[u8]) -> (parts: Vec<Vec<u8>>)
    requires
        pair_span_fits(packet_buffer@),
    ensures
        part_views(parts@) == split_parts(packet_buffer@, span_middle(pair_span(packet_buffer@))),
{
    let (sni_start, sni_end) = parse_sni_index(slice_to_vec(packet_buffer));
    let middle: i128 = (sni_start as i128 + sni_end as i128) / 2;
    split_packet(packet_buffer, middle)
}

} // verus!
