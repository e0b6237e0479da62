use mosquito_core::{
    fallback_port, share_url, stop_outcome, LanIp, ServerInfo, ServerState, SharerError,
    DEFAULT_PORT,
};

fn ip(text: &str) -> LanIp {
    LanIp { text: text.to_string(), v6: text.contains(':') }
}

#[test]
fn start_then_status_reports_running_info() {
    let mut state: ServerState<u32> = ServerState::new();
    assert!(state.check_startable().is_ok());
    let info = ServerInfo::running_on(ip("192.0.2.7"), 8472);
    state.set_running(info, 17);

    let status = state.status();
    assert!(status.running);
    assert_eq!(status.port, Some(8472));
    assert_eq!(status.url.as_deref(), Some("http://192.0.2.7:8472"));
    assert_eq!(status.lan_ip.unwrap().text, "192.0.2.7");
}

#[test]
fn start_when_running_is_refused_with_the_url() {
    let mut state: ServerState<u32> = ServerState::new();
    state.set_running(ServerInfo::running_on(ip("192.0.2.7"), 41000), 1);
    match state.check_startable() {
        Err(SharerError::AlreadyRunning(url)) => assert_eq!(url, "http://192.0.2.7:41000"),
        other => panic!("unexpected: {other:?}"),
    }
    // The running server is untouched.
    assert_eq!(state.status().port, Some(41000));
}

#[test]
fn stop_returns_handles_and_stopped_state() {
    let mut state: ServerState<u32> = ServerState::new();
    state.set_running(ServerInfo::running_on(ip("192.0.2.7"), 5000), 99);
    assert_eq!(state.take_handles().unwrap(), 99);
    let status = state.status();
    assert!(!status.running);
    assert!(status.url.is_none());
    assert!(status.port.is_none());
    assert!(status.lan_ip.is_none());
    assert!(state.check_startable().is_ok());
}

#[test]
fn stop_without_start_is_not_running() {
    let mut state: ServerState<u32> = ServerState::new();
    assert!(matches!(state.take_handles(), Err(SharerError::NotRunning)));
    assert!(!state.is_running());
}

#[test]
fn lan_failure_falls_back_to_localhost() {
    let chosen = LanIp::or_localhost(None);
    assert_eq!(chosen.text, "127.0.0.1");
    let info = ServerInfo::running_on(chosen, 4242);
    assert_eq!(info.url.as_deref(), Some("http://127.0.0.1:4242"));
    assert_eq!(LanIp::or_localhost(Some(ip("10.1.2.3"))).text, "10.1.2.3");
}

#[test]
fn ipv6_urls_bracket_the_address() {
    assert_eq!(share_url(&ip("fe80::1"), 8472), "http://[fe80::1]:8472");
    assert_eq!(share_url(&ip("10.0.0.9"), 80), "http://10.0.0.9:80");
}

#[test]
fn port_fallback_only_when_the_preferred_port_is_taken() {
    assert_eq!(fallback_port(DEFAULT_PORT, true), Some(0));
    assert_eq!(fallback_port(DEFAULT_PORT, false), None);
    assert_eq!(fallback_port(0, true), None);
}

#[test]
fn stop_outcome_maps_task_results() {
    assert!(stop_outcome(Ok(Ok(()))).is_ok());
    assert!(matches!(
        stop_outcome(Ok(Err(std::io::Error::other("boom")))),
        Err(SharerError::Io(_))
    ));
}

#[test]
fn stopped_info_is_empty() {
    let info = ServerInfo::stopped();
    assert!(!info.running && info.url.is_none() && info.port.is_none() && info.lan_ip.is_none());
}

#[test]
fn share_qr_needs_a_running_server() {
    assert!(ServerInfo::stopped().share_qr().is_none());
    let info = ServerInfo::running_on(ip("192.168.1.42"), 8472);
    let svg = info.share_qr().unwrap().unwrap();
    assert_eq!(svg, mosquito_core::qr_svg("http://192.168.1.42:8472").unwrap());
}

#[test]
fn sharer_errors_have_their_messages() {
    assert_eq!(
        SharerError::AlreadyRunning("http://10.0.0.1:80".to_string()).message().as_deref(),
        Some("server is already running at http://10.0.0.1:80")
    );
    assert_eq!(SharerError::NotRunning.message().as_deref(), Some("server is not running"));
    assert!(SharerError::Io(std::io::Error::other("x")).message().is_none());
}
