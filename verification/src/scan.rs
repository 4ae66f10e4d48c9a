//! Simple heuristics for finding a pattern and a server name in a packet:
//! a scan for a run of bytes, and a locator that goes by a pair of zero
//! bytes before two length bytes.

use vstd::prelude::*;
use crate::text::{contains_run, occurs_at, string_of};

verus! {

/// The position of the first occurrence of `target` in `source`, and 0
/// where it does not occur.
pub fn aob_scan(target: Vec<u8>, source: Vec<u8>) -> (position: usize)
    requires
        target@.len() > 0,
    ensures
        contains_run(source@, target@) ==> occurs_at(source@, target@, position as int) && forall|
            j: int,
        | 0 <= j < position ==> !occurs_at(source@, target@, j),
        !contains_run(source@, target@) ==> position == 0,
{
    let n: usize = source.len();
    let m: usize = target.len();
    if m > n {
        return 0;
    }
    let last: usize = n - m;
    let mut i: usize = 0;
    while i <= last
        invariant
            n == source@.len(),
            m == target@.len(),
            m > 0,
            last == n - m,
            i <= last + 1,
            forall|j: int| 0 <= j < i ==> !occurs_at(source@, target@, j),
        decreases last + 1 - i,
    {
        let mut j: usize = 0;
        let mut same: bool = true;
        while j < m
            invariant
                n == source@.len(),
                m == target@.len(),
                last == n - m,
                i <= last,
                j <= m,
                same ==> forall|k: int| 0 <= k < j ==> source@[i + k] == target@[k],
                !same ==> !occurs_at(source@, target@, i as int),
            decreases m - j,
        {
            if source[i + j] != target[j] {
                assert(source@.subrange(i as int, i + m)[j as int] == source@[i + j]);
                same = false;
            }
            j += 1;
        }
        if same {
            assert(source@.subrange(i as int, i + m) =~= target@);
            assert(occurs_at(source@, target@, i as int));
            return i;
        }
        i += 1;
    }
    0
}

/// A byte read as a signed one.
pub open spec fn signed(b: u8) -> int {
    if b < 128 {
        b as int
    } else {
        b - 256
    }
}

/// The distance between two numbers.
pub open spec fn distance(a: int, b: int) -> int {
    if a >= b {
        a - b
    } else {
        b - a
    }
}

/// The length that the two bytes at `i + 4` announce, high byte first.
pub open spec fn host_size(buf: Seq<u8>, i: int) -> int {
    buf[i + 4] * 256 + buf[i + 5]
}

/// Two zero bytes at `i`, eight bytes left from `i` on, and the bytes at
/// `i + 3` and `i + 5` two apart.
pub open spec fn pair_at(buf: Seq<u8>, i: int) -> bool {
    &&& 0 <= i
    &&& i + 8 <= buf.len()
    &&& buf[i] == 0
    &&& buf[i + 1] == 0
    &&& distance(buf[i + 3] as int, buf[i + 5] as int) == 2
}

/// The position of the first such pair at or after `from`, or the length
/// of `buf` where none follows.
pub open spec fn first_pair(buf: Seq<u8>, from: int) -> int
    decreases buf.len() - from,
{
    if from < 0 || from + 8 > buf.len() {
        buf.len() as int
    } else if pair_at(buf, from) {
        from
    } else {
        first_pair(buf, from + 1)
    }
}

/// The span that the first pair announces fits 32 bits.
pub open spec fn pair_span_fits(buf: Seq<u8>) -> bool {
    first_pair(buf, 0) < buf.len() ==> first_pair(buf, 0) + 6 + host_size(buf, first_pair(buf, 0))
        <= u32::MAX
}

/// The span that the first pair announces: it starts six bytes after the
/// pair and is as long as the two bytes before it say. Without a pair it
/// is `(0, 0)`.
pub open spec fn pair_span(buf: Seq<u8>) -> (u32, u32) {
    let i = first_pair(buf, 0);
    if i < buf.len() {
        ((i + 6) as u32, (i + 6 + host_size(buf, i)) as u32)
    } else {
        (0u32, 0u32)
    }
}

/// Locates the server name by the first pair of zero bytes that is followed
/// by two length bytes two apart.
pub fn parse_sni_index(source: Vec<u8>) -> (span: (u32, u32))
    requires
        pair_span_fits(source@),
    ensures
        span == pair_span(source@),
{
    let n: usize = source.len();
    let mut iter: usize = 0;
    while iter < n
        invariant
            n == source@.len(),
            iter <= n,
            pair_span_fits(source@),
            first_pair(source@, 0) == first_pair(source@, iter as int),
        decreases n - iter,
    {
        if n - iter < 8 {
            return (0, 0);
        }
        let a: u8 = source[iter + 3];
        let b: u8 = source[iter + 5];
        let apart: u8 = if a >= b {
            a - b
        } else {
            b - a
        };
        if source[iter] == 0 && source[iter + 1] == 0 && apart == 2 {
            assert(pair_at(source@, iter as int));
            let hostname_size: u32 = (source[iter + 4] as u32) * 256 + (source[iter + 5] as u32);
            let start_index: u32 = (iter + 6) as u32;
            return (start_index, start_index + hostname_size);
        }
        iter += 1;
    }
    (0, 0)
}

/// As `pair_at`, with the two length bytes read as signed ones.
pub open spec fn signed_pair_at(buf: Seq<u8>, i: int) -> bool {
    &&& 0 <= i
    &&& i + 8 <= buf.len()
    &&& buf[i] == 0
    &&& buf[i + 1] == 0
    &&& distance(signed(buf[i + 3]), signed(buf[i + 5])) == 2
}

/// The bytes of `buf` from `from` up to `to` as characters, added to
/// `name`, as far as they are ASCII and inside `buf`. The flag tells
/// whether all of them were.
pub open spec fn read_ascii(buf: Seq<u8>, from: int, to: int, name: Seq<char>) -> (Seq<char>, bool)
    decreases to - from,
{
    if from >= to || from >= buf.len() {
        (name, true)
    } else if buf[from] >= 128 {
        (name, false)
    } else {
        read_ascii(buf, from + 1, to, name.push(buf[from] as char))
    }
}

/// The name that the scan from `i` on gives, with `name` read so far: at
/// the first pair whose announced bytes are all ASCII the scan ends; the
/// characters read at a pair that is given up stay in the name.
pub open spec fn name_from(buf: Seq<u8>, i: int, name: Seq<char>) -> Seq<char>
    decreases buf.len() - i,
{
    if i < 0 || i + 8 > buf.len() {
        name
    } else if !signed_pair_at(buf, i) {
        name_from(buf, i + 1, name)
    } else {
        let read = read_ascii(buf, i + 6, i + 6 + host_size(buf, i), name);
        if read.1 {
            read.0
        } else {
            name_from(buf, i + 1, read.0)
        }
    }
}

/// Reads the server name that follows the first pair of zero bytes with two
/// length bytes two apart. A name that is announced longer than the packet
/// is cut at the packet's end.
pub fn parse_sni(source: Vec<u8>) -> (sni: String)
    ensures
        sni@ == name_from(source@, 0, Seq::empty()),
{
    let n: usize = source.len();
    let mut name: Vec<char> = Vec::new();
    let mut iter: usize = 0;
    while iter < n
        invariant
            n == source@.len(),
            iter <= n,
            name_from(source@, 0, Seq::empty()) == name_from(source@, iter as int, name@),
        decreases n - iter,
    {
        if n - iter < 8 {
            return string_of(&name);
        }
        let a: i16 = if source[iter + 3] < 128 {
            source[iter + 3] as i16
        } else {
            source[iter + 3] as i16 - 256
        };
        let b: i16 = if source[iter + 5] < 128 {
            source[iter + 5] as i16
        } else {
            source[iter + 5] as i16 - 256
        };
        let apart: i16 = if a >= b {
            a - b
        } else {
            b - a
        };
        if source[iter] == 0 && source[iter + 1] == 0 && apart == 2 {
            assert(signed_pair_at(source@, iter as int));
            let hostname_size: usize = (source[iter + 4] as usize) * 256 + (source[iter
                + 5] as usize);
            let from: usize = iter + 6;
            let wanted: usize = if hostname_size <= n - from {
                from + hostname_size
            } else {
                n
            };
            let ghost to = iter + 6 + host_size(source@, iter as int);
            let ghost start_name = name@;
            let mut jter: usize = from;
            let mut ascii: bool = true;
            while jter < wanted && ascii
                invariant
                    n == source@.len(),
                    from <= jter <= wanted <= n,
                    wanted <= to,
                    wanted == n || wanted == to,
                    read_ascii(source@, from as int, to, start_name) == if ascii {
                        read_ascii(source@, jter as int, to, name@)
                    } else {
                        (name@, false)
                    },
                decreases wanted - jter, ascii as int,
            {
                let byte: u8 = source[jter];
                if byte < 128 {
                    name.push(byte as char);
                    jter += 1;
                } else {
                    ascii = false;
                }
            }
            if ascii {
                return string_of(&name);
            }
        } else {
            assert(!signed_pair_at(source@, iter as int));
        }
        iter += 1;
    }
    string_of(&name)
}

} // verus!
