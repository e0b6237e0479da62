use vstd::prelude::*;
use vstd::string::*;

use crate::lan::{LanIp, LanIpView};
use crate::qr::{qr_svg, spec_qr_svg, QrError};
use crate::text::{dec, push_char, push_decimal, push_str};

verus! {

/// Preferred port. If it is taken, the server falls back to an ephemeral
/// one and the UI shows whatever actually got bound.
pub const DEFAULT_PORT: u16 = 8472;

/// `tokio::task::JoinError`, carried through the library as an opaque value.
#[verifier::external_type_specification]
#[verifier::external_body]
pub struct ExJoinError(tokio::task::JoinError);

/// Why a lifecycle operation failed.
#[derive(Debug)]
pub enum SharerError {
    /// A server is already running, at this URL.
    AlreadyRunning(String),
    /// No server is running.
    NotRunning,
    /// An I/O operation (binding, serving) failed.
    Io(std::io::Error),
    /// The server task could not be joined.
    Join(tokio::task::JoinError),
}

impl SharerError {
    /// The message shown for the library's own errors. An `Io` or `Join`
    /// error is described by the outside error it carries, so it has none here.
    pub open spec fn spec_message(&self) -> Option<Seq<char>> {
        match self {
            SharerError::AlreadyRunning(u) => Some("server is already running at "@ + u@),
            SharerError::NotRunning => Some("server is not running"@),
            _ => None,
        }
    }

    pub fn message(&self) -> (r: Option<String>)
        ensures
            match r {
                Some(m) => self.spec_message() == Some(m@),
                None => self.spec_message() is None,
            },
    {
        match self {
            SharerError::AlreadyRunning(u) => {
                let mut m = String::from_str("server is already running at ");
                push_str(&mut m, u.as_str());
                Some(m)
            },
            SharerError::NotRunning => Some(String::from_str("server is not running")),
            _ => None,
        }
    }
}

/// Snapshot of server status, shaped for the UI.
#[derive(Debug, Clone)]
pub struct ServerInfo {
    pub running: bool,
    /// `http://<lan-ip>:<port>`: what the QR code encodes.
    pub url: Option<String>,
    pub port: Option<u16>,
    pub lan_ip: Option<LanIp>,
}

pub struct ServerInfoView {
    pub running: bool,
    pub url: Option<Seq<char>>,
    pub port: Option<u16>,
    pub lan_ip: Option<LanIpView>,
}

impl View for ServerInfo {
    type V = ServerInfoView;

    open spec fn view(&self) -> ServerInfoView {
        ServerInfoView {
            running: self.running,
            url: match self.url {
                Some(u) => Some(u@),
                None => None,
            },
            port: self.port,
            lan_ip: match self.lan_ip {
                Some(ip) => Some(ip@),
                None => None,
            },
        }
    }
}

impl ServerInfoView {
    /// The status of a server that can be reached: running, with a URL, a
    /// port and an address.
    pub open spec fn is_live(self) -> bool {
        &&& self.running
        &&& self.url is Some
        &&& self.port is Some
        &&& self.lan_ip is Some
    }
}

/// The status of a stopped server: nothing to reach.
pub open spec fn stopped_view() -> ServerInfoView {
    ServerInfoView { running: false, url: None, port: None, lan_ip: None }
}

/// The share URL: `http://`, the host (IPv6 in brackets), `:` and the port.
pub open spec fn share_url_text(ip: LanIpView, port: u16) -> Seq<char> {
    "http://"@ + ip.url_host() + seq![':'] + dec(port as nat)
}

/// The status of a server listening on `port`, reachable at `ip`.
pub open spec fn running_view(ip: LanIpView, port: u16) -> ServerInfoView {
    ServerInfoView {
        running: true,
        url: Some(share_url_text(ip, port)),
        port: Some(port),
        lan_ip: Some(ip),
    }
}

pub fn share_url(ip: &LanIp, port: u16) -> (r: String)
    ensures
        r@ == share_url_text(ip@, port),
{
    let mut out = String::from_str("http://");
    if ip.v6 {
        push_char(&mut out, '[');
        push_str(&mut out, ip.text.as_str());
        push_char(&mut out, ']');
    } else {
        push_str(&mut out, ip.text.as_str());
    }
    push_char(&mut out, ':');
    push_decimal(&mut out, port as u64);
    assert(out@ =~= share_url_text(ip@, port));
    out
}

impl ServerInfo {
    pub fn stopped() -> (r: ServerInfo)
        ensures
            r@ == stopped_view(),
    {
        ServerInfo { running: false, url: None, port: None, lan_ip: None }
    }

    /// The status of a server bound to `port` and shown at `ip`.
    pub fn running_on(ip: LanIp, port: u16) -> (r: ServerInfo)
        ensures
            r@ == running_view(ip@, port),
            r@.is_live(),
    {
        let url = share_url(&ip, port);
        ServerInfo { running: true, url: Some(url), port: Some(port), lan_ip: Some(ip) }
    }

    /// The QR code of the share URL; `None` when there is no URL, that is,
    /// when no server is running.
    pub fn share_qr(&self) -> (r: Option<Result<String, QrError>>)
        ensures
            match self.url {
                None => r is None,
                Some(u) => r matches Some(q) && match q {
                    Ok(svg) => spec_qr_svg(u@) == Ok::<Seq<char>, QrError>(svg@),
                    Err(e) => spec_qr_svg(u@) == Err::<Seq<char>, QrError>(e),
                },
            },
    {
        match &self.url {
            None => None,
            Some(u) => Some(qr_svg(u.as_str())),
        }
    }

    pub fn duplicate(&self) -> (r: ServerInfo)
        ensures
            r@ == self@,
    {
        let url = match &self.url {
            Some(u) => Some(u.clone()),
            None => None,
        };
        let lan_ip = match &self.lan_ip {
            Some(ip) => Some(ip.duplicate()),
            None => None,
        };
        ServerInfo { running: self.running, url, port: self.port, lan_ip }
    }
}

/// What a refused start reports: the running server's URL, or
/// `unknown url` when it has none.
pub open spec fn running_url_or_unknown(info: ServerInfoView) -> Seq<char> {
    match info.url {
        Some(u) => u,
        None => "unknown url"@,
    }
}

/// The port to try next after binding `preferred` failed: an OS-assigned
/// port (0) when the preferred port was in use and was not already 0.
pub fn fallback_port(preferred: u16, addr_in_use: bool) -> (r: Option<u16>)
    ensures
        r == (if addr_in_use && preferred != 0 {
            Some(0u16)
        } else {
            None::<u16>
        }),
{
    if addr_in_use && preferred != 0 {
        Some(0)
    } else {
        None
    }
}

/// The lifecycle of the HTTP server. The handles (`H`) that control a
/// running server only exist while it runs: a stopped server has none to
/// stop, and a running one cannot be started again.
pub enum ServerState<H> {
    Stopped,
    Running { info: ServerInfo, handles: H },
}

impl<H> ServerState<H> {
    /// A running server always has a reachable status.
    pub open spec fn wf(&self) -> bool {
        match self {
            ServerState::Running { info, .. } => info@.is_live(),
            ServerState::Stopped => true,
        }
    }

    /// The status that `status` reports in this state.
    pub open spec fn status_view(&self) -> ServerInfoView {
        match self {
            ServerState::Running { info, .. } => info@,
            ServerState::Stopped => stopped_view(),
        }
    }

    pub fn new() -> (s: Self)
        ensures
            s is Stopped,
            s.wf(),
    {
        ServerState::Stopped
    }

    pub fn is_running(&self) -> (r: bool)
        ensures
            r == self is Running,
    {
        match self {
            ServerState::Running { .. } => true,
            ServerState::Stopped => false,
        }
    }

    /// Pure read of the current state.
    pub fn status(&self) -> (r: ServerInfo)
        ensures
            r@ == self.status_view(),
    {
        match self {
            ServerState::Running { info, .. } => info.duplicate(),
            ServerState::Stopped => ServerInfo::stopped(),
        }
    }

    /// Whether a server may be started now: only when none is running.
    pub fn check_startable(&self) -> (r: Result<(), SharerError>)
        ensures
            self is Stopped ==> r is Ok,
            self is Running ==> (r matches Err(SharerError::AlreadyRunning(u)) && u@
                == running_url_or_unknown(self->info@)),
    {
        match self {
            ServerState::Running { info, .. } => {
                let url = match &info.url {
                    Some(u) => u.clone(),
                    None => String::from_str("unknown url"),
                };
                Err(SharerError::AlreadyRunning(url))
            },
            ServerState::Stopped => Ok(()),
        }
    }

    /// Records a server that has just been started.
    pub fn set_running(&mut self, info: ServerInfo, handles: H)
        requires
            *old(self) is Stopped,
            info@.is_live(),
        ensures
            *final(self) == (ServerState::Running { info, handles }),
            final(self).wf(),
    {
        *self = ServerState::Running { info, handles };
    }

    /// Takes the handles of the running server out, leaving `Stopped`
    /// behind; fails with `NotRunning` when nothing runs.
    pub fn take_handles(&mut self) -> (r: Result<H, SharerError>)
        ensures
            *final(self) is Stopped,
            final(self).wf(),
            match *old(self) {
                ServerState::Running { handles, .. } => r == Ok::<H, SharerError>(handles),
                ServerState::Stopped => r matches Err(SharerError::NotRunning),
            },
    {
        let mut previous = ServerState::Stopped;
        std::mem::swap(self, &mut previous);
        match previous {
            ServerState::Running { handles, .. } => Ok(handles),
            ServerState::Stopped => Err(SharerError::NotRunning),
        }
    }
}

/// The outcome of stopping, from how the server task ended: a task that
/// could not be joined is a `Join` error, one that ended with an I/O error
/// is an `Io` error.
pub fn stop_outcome(joined: Result<Result<(), std::io::Error>, tokio::task::JoinError>) -> (r: Result<
    (),
    SharerError,
>)
    ensures
        match joined {
            Err(j) => r == Err::<(), SharerError>(SharerError::Join(j)),
            Ok(Err(e)) => r == Err::<(), SharerError>(SharerError::Io(e)),
            Ok(Ok(())) => r is Ok,
        },
{
    match joined {
        Err(j) => Err(SharerError::Join(j)),
        Ok(Err(e)) => Err(SharerError::Io(e)),
        Ok(Ok(())) => Ok(()),
    }
}

/// Starting records exactly the reported status: after a start with `info`,
/// `status` reports `info`, and a second start is refused with its URL.
pub proof fn lemma_status_after_start<H>(info: ServerInfo, handles: H)
    requires
        info@.is_live(),
    ensures
        (ServerState::Running { info, handles }).wf(),
        (ServerState::Running { info, handles }).status_view() == info@,
        running_url_or_unknown(info@) == info@.url->0,
{
}

/// Whatever the reachable state, `status` reports either a live server
/// (running, with a URL, a port and an address) or the stopped status.
pub proof fn lemma_status_live_or_stopped<H>(s: ServerState<H>)
    requires
        s.wf(),
    ensures
        s.status_view().is_live() || s.status_view() == stopped_view(),
        s is Running <==> s.status_view().running,
{
}

/// A server started on a port and an address reports itself running there,
/// with the URL that the QR code encodes.
pub proof fn lemma_running_info_is_reachable(ip: LanIpView, port: u16)
    ensures
        running_view(ip, port).is_live(),
        running_view(ip, port).port == Some(port),
        running_view(ip, port).lan_ip == Some(ip),
        running_view(ip, port).url == Some(share_url_text(ip, port)),
{
}

/// Once stopped, the server reports nothing to reach, and it may be
/// started again.
pub proof fn lemma_stopped_status<H>()
    ensures
        ServerState::<H>::Stopped.status_view() == stopped_view(),
        !stopped_view().running,
        stopped_view().url is None,
        stopped_view().port is None,
        stopped_view().lan_ip is None,
{
}

} // verus!
