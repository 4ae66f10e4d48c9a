//! The parts of the SOCKS5 exchange that only compute: reading the
//! destination out of a request and framing the reply.

use vstd::prelude::*;
use vstd::slice::{slice_subrange, slice_to_vec};

verus! {

/// Where the payload starts in a SOCKS5 UDP datagram: after the header, the
/// address in the form that the address type announces, and the port. It is
/// 0 where the datagram is too short or the address type is unknown.
pub open spec fn udp_payload_start(packet: Seq<u8>) -> int {
    if packet.len() < 4 {
        0
    } else if packet[3] == 1 {
        10
    } else if packet[3] == 3 {
        if packet.len() < 5 {
            0
        } else {
            7 + packet[4]
        }
    } else if packet[3] == 4 {
        22
    } else {
        0
    }
}

/// Where the payload starts in a SOCKS5 UDP datagram.
pub fn find_udp_payload_start(packet: &[u8]) -> (start: usize)
    ensures
        start == udp_payload_start(packet@),
{
    if packet.len() < 4 {
        return 0;
    }
    let kind: u8 = packet[3];
    if kind == 1 {
        4 + 4 + 2
    } else if kind == 3 {
        if packet.len() < 5 {
            return 0;
        }
        4 + 1 + packet[4] as usize + 2
    } else if kind == 4 {
        4 + 16 + 2
    } else {
        0
    }
}

/// The destination of a SOCKS5 request.
#[derive(Debug, Clone, PartialEq, Eq)]
pub struct IpParser {
    /// The address to connect to: 4 or 16 bytes.
    pub host_raw: Vec<u8>,
    /// The address as the request spelt it.
    pub host_unprocessed: Vec<u8>,
    pub port: u16,
    pub dest_addr_type: u8,
    pub is_udp: bool,
}

/// What a request says of its destination, each field as a sequence.
pub struct Destination {
    pub host_raw: Seq<u8>,
    pub host_unprocessed: Seq<u8>,
    pub port: u16,
    pub dest_addr_type: u8,
    pub is_udp: bool,
}

impl View for IpParser {
    type V = Destination;

    open spec fn view(&self) -> Destination {
        Destination {
            host_raw: self.host_raw@,
            host_unprocessed: self.host_unprocessed@,
            port: self.port,
            dest_addr_type: self.dest_addr_type,
            is_udp: self.is_udp,
        }
    }
}

/// The port that two bytes spell, high byte first.
pub open spec fn port_of(high: u8, low: u8) -> u16 {
    (high * 256 + low) as u16
}

/// `count` zero bytes.
pub open spec fn zeros(count: nat) -> Seq<u8> {
    Seq::new(count, |i: int| 0u8)
}

/// The destination that a request spells. A request of fewer than ten
/// bytes spells none. A domain name is handed on unresolved: its address
/// is four zero bytes.
pub open spec fn destination_of(buffer: Seq<u8>) -> Destination {
    if buffer.len() < 10 {
        Destination {
            host_raw: Seq::empty(),
            host_unprocessed: Seq::empty(),
            port: 0,
            dest_addr_type: 0,
            is_udp: false,
        }
    } else {
        let dest_addr_type = buffer[3];
        let is_udp = buffer[1] == 3;
        if dest_addr_type == 1 {
            Destination {
                host_raw: buffer.subrange(4, 8),
                host_unprocessed: buffer.subrange(4, 8),
                port: port_of(buffer[8], buffer[9]),
                dest_addr_type,
                is_udp,
            }
        } else if dest_addr_type == 3 {
            let domain_length = buffer[4] as int;
            if buffer.len() < 5 + domain_length + 2 {
                Destination {
                    host_raw: zeros(4),
                    host_unprocessed: Seq::empty(),
                    port: 0,
                    dest_addr_type,
                    is_udp,
                }
            } else {
                Destination {
                    host_raw: zeros(4),
                    host_unprocessed: buffer.subrange(5, 5 + domain_length),
                    port: port_of(buffer[5 + domain_length], buffer[6 + domain_length]),
                    dest_addr_type,
                    is_udp,
                }
            }
        } else if dest_addr_type == 4 {
            if buffer.len() < 22 {
                Destination {
                    host_raw: zeros(16),
                    host_unprocessed: zeros(16),
                    port: 0,
                    dest_addr_type,
                    is_udp,
                }
            } else {
                Destination {
                    host_raw: buffer.subrange(4, 20),
                    host_unprocessed: buffer.subrange(4, 20),
                    port: port_of(buffer[20], buffer[21]),
                    dest_addr_type,
                    is_udp,
                }
            }
        } else {
            Destination {
                host_raw: Seq::empty(),
                host_unprocessed: Seq::empty(),
                port: 0,
                dest_addr_type,
                is_udp,
            }
        }
    }
}

/// The reply that accepts a request: the version, success, a reserved
/// byte, the address type, the address as the request spelt it (a domain
/// name after its length) and the port, high byte first.
pub open spec fn reply_of(destination: Destination) -> Seq<u8> {
    let head = seq![5u8, 0u8, 0u8, destination.dest_addr_type];
    let length = if destination.dest_addr_type == 3 {
        seq![destination.host_unprocessed.len() as u8]
    } else {
        Seq::empty()
    };
    head + length + destination.host_unprocessed + seq![
        (destination.port / 256) as u8,
        (destination.port % 256) as u8,
    ]
}

fn zero_bytes(count: usize) -> (bytes: Vec<u8>)
    ensures
        bytes@ == zeros(count as nat),
{
    let mut bytes: Vec<u8> = Vec::new();
    let mut i: usize = 0;
    while i < count
        invariant
            i <= count,
            bytes@ == zeros(i as nat),
        decreases count - i,
    {
        bytes.push(0);
        i += 1;
        assert(bytes@ =~= zeros(i as nat));
    }
    bytes
}

fn port_from(high: u8, low: u8) -> (port: u16)
    ensures
        port == port_of(high, low),
{
    (high as u16) * 256 + low as u16
}

impl IpParser {
    /// Reads the destination out of a SOCKS5 request.
    pub fn parse(buffer: &[u8]) -> (parsed: IpParser)
        ensures
            parsed@ == destination_of(buffer@),
    {
        let n: usize = buffer.len();
        if n < 10 {
            return IpParser {
                dest_addr_type: 0,
                host_raw: Vec::new(),
                host_unprocessed: Vec::new(),
                port: 0,
                is_udp: false,
            };
        }
        let dest_addr_type: u8 = buffer[3];
        let is_udp: bool = buffer[1] == 0x03;
        if dest_addr_type == 1 {
            IpParser {
                dest_addr_type,
                host_raw: slice_to_vec(slice_subrange(buffer, 4, 8)),
                host_unprocessed: slice_to_vec(slice_subrange(buffer, 4, 8)),
                port: port_from(buffer[8], buffer[9]),
                is_udp,
            }
        } else if dest_addr_type == 3 {
            let domain_length: usize = buffer[4] as usize;
            if n < 5 + domain_length + 2 {
                return IpParser {
                    dest_addr_type,
                    host_raw: zero_bytes(4),
                    host_unprocessed: Vec::new(),
                    port: 0,
                    is_udp,
                };
            }
            IpParser {
                dest_addr_type,
                host_raw: zero_bytes(4),
                host_unprocessed: slice_to_vec(slice_subrange(buffer, 5, 5 + domain_length)),
                port: port_from(buffer[5 + domain_length], buffer[6 + domain_length]),
                is_udp,
            }
        } else if dest_addr_type == 4 {
            if n < 22 {
                return IpParser {
                    dest_addr_type,
                    host_raw: zero_bytes(16),
                    host_unprocessed: zero_bytes(16),
                    port: 0,
                    is_udp,
                };
            }
            IpParser {
                dest_addr_type,
                host_raw: slice_to_vec(slice_subrange(buffer, 4, 20)),
                host_unprocessed: slice_to_vec(slice_subrange(buffer, 4, 20)),
                port: port_from(buffer[20], buffer[21]),
                is_udp,
            }
        } else {
            IpParser {
                dest_addr_type,
                host_raw: Vec::new(),
                host_unprocessed: Vec::new(),
                port: 0,
                is_udp,
            }
        }
    }

    /// The same destination with `address` as the address to connect to.
    pub fn with_host(self, address: Vec<u8>) -> (resolved: IpParser)
        ensures
            resolved@ == (Destination { host_raw: address@, ..self@ }),
    {
        IpParser {
            host_raw: address,
            host_unprocessed: self.host_unprocessed,
            port: self.port,
            dest_addr_type: self.dest_addr_type,
            is_udp: self.is_udp,
        }
    }

    /// The reply that accepts the request.
    pub fn reply(&self) -> (packet: Vec<u8>)
        requires
            self.dest_addr_type == 3 ==> self.host_unprocessed@.len() <= 255,
        ensures
            packet@ == reply_of(self@),
    {
        let mut packet: Vec<u8> = Vec::new();
        packet.push(5);
        packet.push(0);
        packet.push(0);
        packet.push(self.dest_addr_type);
        if self.dest_addr_type == 3 {
            packet.push(self.host_unprocessed.len() as u8);
        }
        let mut name: Vec<u8> = slice_to_vec(self.host_unprocessed.as_slice());
        packet.append(&mut name);
        packet.push((self.port / 256) as u8);
        packet.push((self.port % 256) as u8);
        assert(packet@ =~= reply_of(self@));
        packet
    }
}

} // verus!
