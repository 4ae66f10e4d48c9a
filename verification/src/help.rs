//! The text that explains the options of the command line.

use vstd::prelude::*;
use vstd::string::StringExecFns;

verus! {

/// The help text.
pub const HELP_TEXT: &'static str = "./waterfall [OPTION] [VALUE]
[Offset] is denoted as subcommand in format of N+[s]?,
  where N is unsigned 32-bit integer, s - SNI Index.
  [Offset] Block examples: 1+, 5+s, 13+s
  
--bind_host [String] - Bind SOCKS5 Proxy to a specified host
--bind_port [U16] - Bind SOCKS5 Proxy to a specified port

--default_ttl [U8] - Default TTL value for adequate packets.
--fake_packet_ttl [U8] - Default TTL value for packets that should reach ONLY DPI 
--disorder_packet_ttl [U8] - Default TTL value for packets that SHOULD BE RESENT

--fake_packet_sni [String] - Server name identification for fake packets.
--fake_packet_send_http - Sets if fake module should mimic HTTP packets. Can trick DPI into thinking that connection is made over HTTP and force it to skip over next packets.
--fake_packet_host [String] - Fake host for fake packets. Tricks DPI
--fake_packet_override_data [UNICODE String] - Overrides default packet data for fake packets.
--fake_as_oob - Forces fake packets to be sent as Out-of-band data. May break some websites same as OOB module does. Useful for cases when deep packet inspection tool looks for OOB data.
--fake_packet_double - Send two fake packets instead of one.
--fake_packet_reversed - Send fake packets in reverse-order.

--http_host_cmix - Mix Host header case in HTTP
--http_host_rmspace - Remove space after Host: header in HTTP
--http_host_space - Add space after Host: header in HTTP
--http_domain_cmix - Mix case in HTTP domain

--packet_hop - Max tampers/desyncs for connection
--synack - Wraps each packet into fake SYN and ACK. Those packets will be automatically dropped by server. Effective to use with disorder and fake.

--split [Offset] - Applies TCP stream segmentation
--disorder [Offset] - Applies TCP stream segmentation, corrupts first part
--disorder_ttlc [Offset] - Applies TCP stream segmentation, corrupts first part by changing it's TTL/Hop-by-hop value
--fake [Offset] - Applies TCP stream segmentation, corrupts first part and sends a duplicate of it with \"yandex.ru\" SNI
--fake_ttlc [Offset] - Applies TCP stream segmentation, corrupts first part by changing it's TTL/Hop-by-hop value and sends a duplicate of it with \"yandex.ru\" SNI, overriden data or fake HTTP preset. If present, otherwise, uses random bytes data with same length.
--oob [Offset] - Applies TCP stream segmentation. Sends Out-Of-Band byte with value of '213' between these segments.
--disoob [Offset] - Applies TCP stream segmentation, corrupts first part. Sends Out-Of-Band byte with value of '213' between these segments.";

/// The help text, as an owned string.
pub fn get_help_text() -> (text: String)
    ensures
        text@ == HELP_TEXT@,
{
    String::from_str(HELP_TEXT)
}

} // verus!
