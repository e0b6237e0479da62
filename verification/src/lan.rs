use vstd::prelude::*;
use vstd::string::*;

verus! {

/// The production LAN address source: the machine's own network
/// interfaces, as the `local_ip_address` crate reports them.
#[derive(Debug, Clone, Copy, Default)]
pub struct SystemLanAddress;

/// An address of this machine on the local network, in the textual form
/// that `Display` gives it, and whether it is an IPv6 address.
#[derive(Debug, Clone)]
pub struct LanIp {
    pub text: String,
    pub v6: bool,
}

pub struct LanIpView {
    pub text: Seq<char>,
    pub v6: bool,
}

impl View for LanIp {
    type V = LanIpView;

    open spec fn view(&self) -> LanIpView {
        LanIpView { text: self.text@, v6: self.v6 }
    }
}

impl LanIpView {
    /// The host part of a URL: IPv6 addresses are enclosed in brackets.
    pub open spec fn url_host(self) -> Seq<char> {
        if self.v6 {
            seq!['['] + self.text + seq![']']
        } else {
            self.text
        }
    }
}

/// The loopback address `127.0.0.1`.
pub open spec fn localhost_view() -> LanIpView {
    LanIpView { text: "127.0.0.1"@, v6: false }
}

impl LanIp {
    pub fn localhost() -> (r: LanIp)
        ensures
            r@ == localhost_view(),
    {
        LanIp { text: String::from_str("127.0.0.1"), v6: false }
    }

    /// The detected address, or localhost when none could be detected:
    /// sharing degrades to this machine rather than failing to start.
    pub fn or_localhost(detected: Option<LanIp>) -> (r: LanIp)
        ensures
            match detected {
                Some(ip) => r == ip,
                None => r@ == localhost_view(),
            },
    {
        match detected {
            Some(ip) => ip,
            None => LanIp::localhost(),
        }
    }

    pub fn duplicate(&self) -> (r: LanIp)
        ensures
            r@ == self@,
    {
        LanIp { text: self.text.clone(), v6: self.v6 }
    }
}

} // verus!
