use floppa_cli::time::Span;
use floppa_cli::tunnel::{
    connect_vless, connect_wireguard, disconnect, dns_servers, probe_address, vless_dns, vless_uri,
    wireguard_alive, TunnelNotice, TunnelStep, PROBE_SECS,
};
use std::time::Duration;

#[test]
fn wireguard_tunnel_is_built_in_order() {
    assert_eq!(
        connect_wireguard(false, true),
        vec![
            TunnelStep::Stop,
            TunnelStep::RestoreDns,
            TunnelStep::ReadConfig,
            TunnelStep::Tell(TunnelNotice::CreatingWireguard),
            TunnelStep::Create,
            TunnelStep::Tell(TunnelNotice::ConfiguringNetwork),
            TunnelStep::Configure,
            TunnelStep::SetDns,
            TunnelStep::Keep,
        ]
    );
    assert_eq!(
        connect_wireguard(true, false),
        vec![
            TunnelStep::ReadConfig,
            TunnelStep::Tell(TunnelNotice::CreatingWireguard),
            TunnelStep::Create,
            TunnelStep::Tell(TunnelNotice::ConfiguringNetwork),
            TunnelStep::Configure,
            TunnelStep::Keep,
        ]
    );
}

#[test]
fn vless_tunnel_is_built_in_order() {
    assert_eq!(
        connect_vless(false, false),
        vec![
            TunnelStep::RestoreDns,
            TunnelStep::ReadConfig,
            TunnelStep::Tell(TunnelNotice::CreatingVless),
            TunnelStep::Tell(TunnelNotice::Server),
            TunnelStep::Tell(TunnelNotice::Sni),
            TunnelStep::Create,
            TunnelStep::Tell(TunnelNotice::ConfiguringNetwork),
            TunnelStep::Configure,
            TunnelStep::SetDns,
            TunnelStep::Keep,
        ]
    );
}

#[test]
fn tunnel_is_taken_down_in_order() {
    assert_eq!(
        disconnect(false, true, true),
        vec![
            TunnelStep::Tell(TunnelNotice::Disconnecting),
            TunnelStep::RestoreDns,
            TunnelStep::Stop,
            TunnelStep::Tell(TunnelNotice::Disconnected),
        ]
    );
    assert_eq!(
        disconnect(true, false, false),
        vec![TunnelStep::Tell(TunnelNotice::Disconnecting)]
    );
}

#[test]
fn notices_name_what_they_are_of() {
    let text = |notice: TunnelNotice| notice.text("tun0", "1.2.3.4:443", "example.org");
    assert_eq!(text(TunnelNotice::CreatingWireguard), "Creating WireGuard tunnel on tun0...");
    assert_eq!(text(TunnelNotice::CreatingVless), "Creating VLESS+REALITY tunnel on tun0...");
    assert_eq!(text(TunnelNotice::Server), "Server: 1.2.3.4:443");
    assert_eq!(text(TunnelNotice::Sni), "SNI: example.org");
    assert_eq!(text(TunnelNotice::ConfiguringNetwork), "Configuring networking...");
    assert_eq!(text(TunnelNotice::Disconnecting), "\nDisconnecting...");
    assert_eq!(text(TunnelNotice::Disconnected), "Disconnected.");
}

#[test]
fn name_servers_are_listed_by_commas() {
    assert_eq!(dns_servers("1.1.1.1, 8.8.8.8"), vec!["1.1.1.1", "8.8.8.8"]);
    assert_eq!(dns_servers(" 1.1.1.1 ,,\t"), vec!["1.1.1.1", "", ""]);
    assert_eq!(dns_servers(""), vec![""]);
    assert_eq!(vless_dns(Some("a,b")), Some(vec!["a".to_string(), "b".to_string()]));
    assert_eq!(vless_dns(None), None);
}

#[test]
fn vless_configuration_is_trimmed() {
    assert_eq!(vless_uri(" vless://x \n"), "vless://x");
}

#[test]
fn server_is_probed() {
    assert_eq!(probe_address(Some("1.2.3.4:443"), true), Some("1.2.3.4:443".to_string()));
    assert_eq!(probe_address(Some("host"), false), Some("127.0.0.1:443".to_string()));
    assert_eq!(probe_address(None, false), None);
    assert_eq!(PROBE_SECS, 3);
}

fn span(d: Duration) -> Span {
    Span { secs: d.as_secs(), nanos: d.subsec_nanos() }
}

#[test]
fn tunnel_lives_by_its_newest_handshake() {
    let now = Duration::new(1000, 500);
    let stale = Duration::from_secs(180);
    let alive = |times: &[Option<Duration>]| {
        let spans: Vec<Option<Span>> = times.iter().map(|t| t.map(span)).collect();
        let r = wireguard_alive(Some(&spans), &span(now), &span(stale));
        let expected = times
            .iter()
            .filter_map(|t| *t)
            .max()
            .map(|hs| now.saturating_sub(hs) <= stale)
            .unwrap_or(false);
        assert_eq!(r, expected);
        r
    };
    assert!(!alive(&[]));
    assert!(!alive(&[None, None]));
    assert!(alive(&[Some(Duration::new(820, 500))]));
    assert!(!alive(&[Some(Duration::new(820, 499))]));
    assert!(alive(&[Some(Duration::new(5, 0)), None, Some(Duration::new(999, 0))]));
    assert!(alive(&[Some(Duration::new(999, 0)), Some(Duration::new(5, 0))]));
    assert!(alive(&[Some(Duration::new(2000, 0))]));
    assert!(!wireguard_alive(None, &span(now), &span(stale)));
}

#[test]
fn only_some_steps_end_the_work() {
    let going_on: Vec<bool> =
        connect_wireguard(false, true).iter().map(|step| step.goes_on(false)).collect();
    assert_eq!(going_on, vec![true, true, false, true, false, true, false, false, true]);
    assert!(disconnect(false, true, true).iter().all(|step| step.goes_on(false)));
    assert!(connect_vless(false, true).iter().all(|step| step.goes_on(true)));
}
