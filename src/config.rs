use crate::text::{decimal, decimal_text};
use vstd::prelude::*;

verus! {

/// The command line: the port to listen on, and how many messages a peer
/// may send a minute.
#[derive(Clone, Copy, Debug, PartialEq, Eq, Structural)]
pub struct CliArgs {
    pub port: u16,
    pub speed_rate: u16,
}

/// An IPv4 listen address and port.
#[derive(Clone, Copy, Debug)]
pub struct ListenAddr {
    pub ip: [u8; 4],
    pub port: u16,
}

/// The server's settings.
#[derive(Clone, Copy, Debug)]
pub struct Config {
    pub addr: ListenAddr,
    pub speed_rate: u16,
}

/// `a.b.c.d:port`.
pub open spec fn addr_text(addr: ListenAddr) -> Seq<char> {
    decimal_text(addr.ip@[0] as nat) + "."@ + decimal_text(addr.ip@[1] as nat) + "."@
        + decimal_text(addr.ip@[2] as nat) + "."@ + decimal_text(addr.ip@[3] as nat) + ":"@
        + decimal_text(addr.port as nat)
}

fn write_addr(addr: &ListenAddr) -> (r: String)
    ensures
        r@ == addr_text(*addr),
{
    let mut s = decimal(addr.ip[0] as u16);
    s.append(".");
    s.append(decimal(addr.ip[1] as u16).as_str());
    s.append(".");
    s.append(decimal(addr.ip[2] as u16).as_str());
    s.append(".");
    s.append(decimal(addr.ip[3] as u16).as_str());
    s.append(":");
    s.append(decimal(addr.port).as_str());
    s
}

impl Config {
    /// Listens on every interface (`0.0.0.0`) at the given port.
    pub fn new(args: CliArgs) -> (r: Config)
        ensures
            r.addr.ip@ == seq![0u8, 0u8, 0u8, 0u8],
            r.addr.port == args.port,
            r.speed_rate == args.speed_rate,
    {
        let r = Config { addr: ListenAddr { ip: [0u8, 0u8, 0u8, 0u8], port: args.port }, speed_rate: args.speed_rate };
        assert(r.addr.ip@ =~= seq![0u8, 0u8, 0u8, 0u8]);
        r
    }

    /// `(listening addr: <addr>, speed rate: <n>)`.
    pub fn describe(&self) -> (r: String)
        ensures
            r@ == "(listening addr: "@ + addr_text(self.addr) + ", speed rate: "@ + decimal_text(
                self.speed_rate as nat,
            ) + ")"@,
    {
        let mut s = String::from_str("(listening addr: ");
        s.append(write_addr(&self.addr).as_str());
        s.append(", speed rate: ");
        s.append(decimal(self.speed_rate).as_str());
        s.append(")");
        s
    }
}

} // verus!
