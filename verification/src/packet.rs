//! Byte-range utilities: slicing a packet in two and deterministic filler bytes.

use vstd::prelude::*;
use vstd::slice::slice_to_vec;

verus! {

/// Where `slice_packet` cuts a packet of `len` bytes when asked for `index`.
pub open spec fn cut_point(len: nat, index: u64) -> int {
    if index <= len {
        index as int
    } else {
        len as int
    }
}

/// Splits `source` at `index`: the first part holds the bytes before `index`,
/// the second the bytes from `index` on. An `index` past the end leaves the
/// second part empty.
pub fn slice_packet(source: Vec<u8>, index: u64) -> (parts: Vec<Vec<u8>>)
    ensures
        parts@.len() == 2,
        parts@[0]@ == source@.take(cut_point(source@.len(), index)),
        parts@[1]@ == source@.skip(cut_point(source@.len(), index)),
{
    let mut beta: Vec<u8> = Vec::new();
    let mut alpha: Vec<u8> = Vec::new();
    let n: usize = source.len();
    let mut i: usize = 0;
    while i < n
        invariant
            n == source@.len(),
            i <= n,
            beta@ == source@.take(cut_point(i as nat, index)),
            alpha@ == source@.subrange(cut_point(i as nat, index), i as int),
        decreases n - i,
    {
        let byte: u8 = source[i];
        if i as u64 >= index {
            alpha.push(byte);
        } else {
            beta.push(byte);
        }
        i += 1;
    }
    let mut parts: Vec<Vec<u8>> = Vec::new();
    parts.push(beta);
    parts.push(alpha);
    parts
}

/// The two parts of a sliced packet, joined in order, are the packet again,
/// wherever the cut was asked for.
pub proof fn lemma_slice_packet_joins(source: Seq<u8>, index: u64)
    ensures
        source.take(cut_point(source.len(), index)) + source.skip(cut_point(source.len(), index))
            == source,
{
    let k = cut_point(source.len(), index);
    assert(source.take(k) + source.skip(k) =~= source);
}

/// The index at which a strategy cuts: its base index, counted from
/// `anchor` where the strategy asks for that.
pub open spec fn split_index(base_index: i64, relative: bool, anchor: int) -> int {
    if relative {
        base_index + anchor
    } else {
        base_index as int
    }
}

/// What a buffer is split into at `middle`: the bytes before it and the
/// bytes from it on, where `middle` lies strictly inside the buffer, and
/// the buffer alone where it does not.
pub open spec fn split_parts(buf: Seq<u8>, middle: int) -> Seq<Seq<u8>> {
    if 0 < middle < buf.len() {
        seq![buf.take(middle), buf.skip(middle)]
    } else {
        seq![buf]
    }
}

/// The contents of each part.
pub open spec fn part_views(parts: Seq<Vec<u8>>) -> Seq<Seq<u8>> {
    parts.map_values(|part: Vec<u8>| part@)
}

/// Splits `buffer` at `middle`, or leaves it whole where `middle` does not
/// lie strictly inside it.
pub fn split_packet(buffer: &[u8], middle: i128) -> (parts: Vec<Vec<u8>>)
    ensures
        part_views(parts@) == split_parts(buffer@, middle as int),
{
    let whole: Vec<u8> = slice_to_vec(buffer);
    if 0 < middle && middle < buffer.len() as i128 {
        let parts: Vec<Vec<u8>> = slice_packet(whole, middle as u64);
        assert(part_views(parts@) =~= split_parts(buffer@, middle as int));
        parts
    } else {
        let mut parts: Vec<Vec<u8>> = Vec::new();
        parts.push(whole);
        assert(part_views(parts@) =~= split_parts(buffer@, middle as int));
        parts
    }
}

/// A buffer split strictly inside gives two parts that, joined in order,
/// are the buffer again; split anywhere else it stays whole.
pub proof fn lemma_split_parts_join(buf: Seq<u8>, middle: int)
    ensures
        0 < middle < buf.len() ==> split_parts(buf, middle).len() == 2 && split_parts(
            buf,
            middle,
        )[0] + split_parts(buf, middle)[1] == buf,
        !(0 < middle < buf.len()) ==> split_parts(buf, middle) == seq![buf],
{
    if 0 < middle < buf.len() {
        assert(buf.take(middle) + buf.skip(middle) =~= buf);
    }
}

/// Multiplier of the filler generator.
pub const MAGIC_MUL: u32 = 1664525;

/// Increment of the filler generator.
pub const MAGIC_ADD: u32 = 1013904223;

/// The generator's state after one step from `state`.
pub open spec fn lcg_next(state: u32) -> u32 {
    ((state as int * 1664525 + 1013904223) % 0x1_0000_0000) as u32
}

/// The byte that a state emits: bits 16 to 23 of it.
pub open spec fn lcg_byte(state: u32) -> u8 {
    ((state as int / 0x1_0000) % 0x100) as u8
}

/// The generator's state after `n` steps from `seed`.
pub open spec fn lcg_state(seed: u32, n: nat) -> u32
    decreases n,
{
    if n == 0 {
        seed
    } else {
        lcg_next(lcg_state(seed, (n - 1) as nat))
    }
}

/// The first `len` bytes that a generator seeded with `seed` emits.
pub open spec fn filler(len: nat, seed: u32) -> Seq<u8> {
    Seq::new(len, |i: int| lcg_byte(lcg_state(seed, (i + 1) as nat)))
}

proof fn lemma_wrapping_step(x: int, product: int, sum: int)
    requires
        0 <= x < 0x1_0000_0000,
        product == (x * 1664525) % 0x1_0000_0000,
        sum == (product + 1013904223) % 0x1_0000_0000,
    ensures
        sum == (x * 1664525 + 1013904223) % 0x1_0000_0000,
{
    vstd::arithmetic::div_mod::lemma_add_mod_noop(x * 1664525, 1013904223, 0x1_0000_0000);
    vstd::arithmetic::div_mod::lemma_small_mod(1013904223, 0x1_0000_0000);
}

/// A small linear congruential generator for filler bytes. Not for cryptographic use.
pub struct Random {
    last_num: u32,
    magic_mul: u32,
    magic_add: u32,
}

impl Random {
    #[verifier::type_invariant]
    spec fn well_formed(&self) -> bool {
        self.magic_mul == MAGIC_MUL && self.magic_add == MAGIC_ADD
    }

    /// The current state of the generator.
    pub closed spec fn state(&self) -> u32 {
        self.last_num
    }

    /// A generator whose state is `initial`.
    pub fn new(initial: u32) -> (rand: Self)
        ensures
            rand.state() == initial,
    {
        Self { last_num: initial, magic_mul: MAGIC_MUL, magic_add: MAGIC_ADD }
    }

    fn clamp_low_bits(&self, num: &u32) -> (high: u32)
        ensures
            high == *num / 0x1_0000,
    {
        let high: u32 = *num >> 16;
        assert(*num >> 16 == *num / 0x1_0000) by (bit_vector);
        high
    }

    /// Steps the generator once and returns the byte of the new state.
    pub fn next_rand(&mut self) -> (byte: u8)
        ensures
            final(self).state() == lcg_next(old(self).state()),
            byte == lcg_byte(final(self).state()),
    {
        proof {
            use_type_invariant(&*self);
        }
        let before: u32 = self.last_num;
        let after: u32 = before.wrapping_mul(self.magic_mul).wrapping_add(self.magic_add);
        assert(after == lcg_next(before)) by {
            let product = vstd::wrapping::u32_specs::wrapping_mul(before, 1664525u32);
            assert(after == vstd::wrapping::u32_specs::wrapping_add(product, 1013904223u32));
            lemma_wrapping_step(before as int, product as int, after as int);
        }
        self.last_num = after;
        let high: u32 = self.clamp_low_bits(&self.last_num);
        (high % 256) as u8
    }
}

/// `len` filler bytes from a generator seeded with `seed`.
pub fn make_random_vec(len: usize, seed: u32) -> (bytes: Vec<u8>)
    ensures
        bytes@ == filler(len as nat, seed),
{
    let mut rand: Random = Random::new(seed);
    let mut bytes: Vec<u8> = Vec::new();
    let mut i: usize = 0;
    while i < len
        invariant
            i <= len,
            rand.state() == lcg_state(seed, i as nat),
            bytes@ == filler(i as nat, seed),
        decreases len - i,
    {
        let byte: u8 = rand.next_rand();
        bytes.push(byte);
        i += 1;
        assert(bytes@ =~= filler(i as nat, seed));
    }
    bytes
}

} // verus!
