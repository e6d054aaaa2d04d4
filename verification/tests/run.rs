use floppa_cli::exit::{Failure, EXIT_AUTH};
use floppa_cli::run::{
    is_vless, peer_table, read_failure, run, Action, Channel, Cli, Command, Event, Output, Peer,
    RunError, ServiceAction, Stage, Step, Subscription, UnitArguments, DEFAULT_API_URL,
};
use floppa_cli::time::UnixTime;

fn cli(command: Command) -> Cli {
    Cli { token_file: Some("/t".to_string()), command }
}

fn connect(config: Option<&str>, protocol: &str) -> Cli {
    cli(Command::Connect {
        config: config.map(str::to_string),
        protocol: protocol.to_string(),
        interface: "floppa0".to_string(),
        no_dns: true,
        api_url: DEFAULT_API_URL.to_string(),
    })
}

fn token(token: Option<&str>) -> Event {
    Event::Token { token: token.map(str::to_string), now: UnixTime { secs: 1000, nanos: 0 } }
}

fn shown(outputs: &[Output]) -> Vec<(Channel, &str)> {
    outputs.iter().map(|o| (o.channel, o.text.as_str())).collect()
}

fn fetched(text: &str) -> Event {
    Event::Fetched(text.to_string())
}

#[test]
fn vless_is_told_by_its_scheme() {
    assert!(is_vless("vless://host"));
    assert!(is_vless(" \n vless://"));
    assert!(!is_vless("VLESS://host"));
    assert!(!is_vless("[Interface]"));
    assert!(!is_vless("x vless://host"));
    assert!(!is_vless("vless:/"));
    assert!(!is_vless(""));
}

#[test]
fn connect_reads_its_file() {
    let command = connect(Some("/c"), "vless");
    let step = run(&command, &Stage::Begin, &Event::Started);
    assert!(matches!(&step.action, Action::ReadFile { path } if path == "/c"));
    let wire = run(&command, &step.stage, &fetched("[Interface]\n"));
    assert!(
        matches!(&wire.action, Action::ConnectWireguard { config, interface, no_dns: true }
            if config == "[Interface]\n" && interface == "floppa0")
    );
    let vless = run(&command, &step.stage, &fetched(" vless://x\n"));
    assert!(matches!(&vless.action, Action::ConnectVless { config, interface, no_dns: true }
        if config == " vless://x\n" && interface == "floppa0"));
    let end = run(&command, &vless.stage, &Event::Ended);
    assert!(matches!(end.action, Action::Finish));
    assert!(matches!(end.stage, Stage::Over));
    assert!(end.outputs.is_empty());
    assert_eq!(read_failure("/c"), "Failed to read config file: /c");
}

fn connect_until_config(protocol: &str) -> Step {
    let command = connect(None, protocol);
    let step = run(&command, &Stage::Begin, &Event::Started);
    assert!(matches!(&step.action, Action::LoadToken { token_file: Some(path) } if path == "/t"));
    let step = run(&command, &step.stage, &token(Some("t")));
    assert!(matches!(&step.action, Action::GetAccount { api_url, token }
        if api_url == DEFAULT_API_URL && token == "t"));
    assert!(step.outputs.is_empty());
    let subscription =
        Subscription { plan_name: "Basic".to_string(), speed_limit_mbps: Some(50) };
    let step = run(&command, &step.stage, &Event::Account(Some(subscription)));
    assert_eq!(
        shown(&step.outputs),
        vec![(Channel::Note, "Plan: Basic (speed limit: 50 Mbps)")]
    );
    step
}

#[test]
fn connect_asks_the_server() {
    let step = connect_until_config("amneziawg");
    assert!(matches!(&step.action, Action::FindOrCreatePeer { api_url, token, protocol }
        if api_url == DEFAULT_API_URL && token == "t" && protocol == "amneziawg"));
    let step = run(&connect(None, "amneziawg"), &step.stage, &fetched("[Interface]"));
    assert!(matches!(step.action, Action::ConnectWireguard { .. }));
    assert!(step.outputs.is_empty());
    let step = connect_until_config("vless");
    assert!(matches!(&step.action, Action::GetVlessConfig { token, .. } if token == "t"));
    let step = run(&connect(None, "vless"), &step.stage, &fetched("vless://x"));
    assert!(matches!(step.action, Action::ConnectVless { .. }));
}

#[test]
fn connect_needs_a_subscription() {
    let command = connect(None, "wireguard");
    let stage = Stage::Account { token: "t".to_string() };
    let step = run(&command, &stage, &Event::Account(None));
    assert!(matches!(step.action, Action::Fail(RunError::NoSubscription)));
    assert!(matches!(step.stage, Stage::Over));
    assert_eq!(RunError::NoSubscription.message(), "No active subscription");
    let unlimited = Subscription { plan_name: "Pro".to_string(), speed_limit_mbps: None };
    assert_eq!(unlimited.line(), "Plan: Pro (speed limit: unlimited)");
}

#[test]
fn commands_need_a_token() {
    let api_url = DEFAULT_API_URL.to_string();
    let commands = [
        connect(None, "wireguard"),
        cli(Command::Peers { api_url: api_url.clone() }),
        cli(Command::Config { protocol: "vless".to_string(), peer_id: None, api_url }),
    ];
    for command in commands {
        let step = run(&command, &Stage::Begin, &Event::Started);
        assert!(matches!(step.action, Action::LoadToken { .. }));
        let step = run(&command, &step.stage, &token(None));
        assert!(matches!(step.action, Action::Fail(RunError::NotLoggedIn)));
        assert!(step.outputs.is_empty());
    }
    assert_eq!(
        RunError::NotLoggedIn.message(),
        "Not logged in. Run `floppa-cli login` first."
    );
}

#[test]
fn connect_warns_of_an_expiring_token() {
    // The claims are {"exp":4600}.
    let jwt = "h.eyJleHAiOjQ2MDB9.s";
    let step = run(&connect(None, "wireguard"), &Stage::SavedToken, &token(Some(jwt)));
    assert_eq!(shown(&step.outputs), vec![(Channel::Note, "Warning: token expires in 1h")]);
    let peers = cli(Command::Peers { api_url: String::new() });
    assert!(run(&peers, &Stage::SavedToken, &token(Some(jwt))).outputs.is_empty());
}

#[test]
fn config_is_printed_as_it_is() {
    let config = |protocol: &str, peer_id: Option<i64>| {
        let command = cli(Command::Config {
            protocol: protocol.to_string(),
            peer_id,
            api_url: String::new(),
        });
        let step = run(&command, &Stage::SavedToken, &token(Some("t")));
        let end = run(&command, &step.stage, &fetched("a\nb"));
        assert_eq!(shown(&end.outputs), vec![(Channel::Raw, "a\nb")]);
        assert!(matches!(end.action, Action::Finish));
        step.action
    };
    assert!(matches!(config("vless", Some(3)), Action::GetVlessConfig { .. }));
    assert!(matches!(config("wireguard", Some(3)), Action::GetPeerConfig { id: 3, .. }));
    assert!(matches!(config("wireguard", None), Action::FindOrCreatePeer { protocol, .. }
        if protocol == "wireguard"));
}

fn peer(id: i64, ip: &str, status: &str, device: Option<&str>) -> Peer {
    Peer {
        id,
        assigned_ip: ip.to_string(),
        sync_status: status.to_string(),
        device_name: device.map(str::to_string),
    }
}

#[test]
fn peers_are_listed_in_columns() {
    let command = cli(Command::Peers { api_url: "x".to_string() });
    let step = run(&command, &Stage::SavedToken, &token(Some("t")));
    assert!(matches!(&step.action, Action::ListPeers { api_url, token }
        if api_url == "x" && token == "t"));
    let peers = vec![
        peer(7, "10.0.0.2", "synced", Some("laptop")),
        peer(-12, "10.0.0.3", "é", None),
        peer(1234567, "fd00:1234:5678:9abc::1", "pending-removal!", Some("")),
    ];
    let mut expected: Vec<String> =
        vec![format!("{:<6} {:<18} {:<14} Device", "ID", "IP", "Status")];
    for p in &peers {
        expected.push(format!(
            "{:<6} {:<18} {:<14} {}",
            p.id,
            p.assigned_ip,
            p.sync_status,
            p.device_name.as_deref().unwrap_or("-")
        ));
    }
    let step = run(&command, &step.stage, &Event::Peers(peers));
    let lines: Vec<(Channel, &str)> =
        expected.iter().map(|line| (Channel::Line, line.as_str())).collect();
    assert_eq!(shown(&step.outputs), lines);
    assert_eq!(&expected[1][41..], "laptop");
    assert!(matches!(step.action, Action::Finish));
    assert_eq!(shown(&peer_table(&vec![])), vec![(Channel::Note, "No peers found.")]);
}

#[test]
fn other_commands_take_one_action() {
    let begin = |cli: &Cli| run(cli, &Stage::Begin, &Event::Started);
    let end = |cli: &Cli| run(cli, &Stage::LastAction, &Event::Ended);
    let login = cli(Command::Login { api_url: "x".to_string() });
    assert!(matches!(begin(&login).action, Action::Login { api_url, token_file: Some(path) }
        if api_url == "x" && path == "/t"));
    assert!(end(&login).outputs.is_empty());
    let logout = cli(Command::Logout);
    assert!(matches!(begin(&logout).action, Action::Logout { token_file: Some(path) }
        if path == "/t"));
    assert_eq!(shown(&end(&logout).outputs), vec![(Channel::Note, "Logged out.")]);
    let usual = Cli { token_file: None, command: Command::Logout };
    assert!(matches!(begin(&usual).action, Action::Logout { token_file: None }));
    let uninstall = cli(Command::Service(ServiceAction::Uninstall));
    assert!(matches!(begin(&uninstall).action, Action::Uninstall));
    assert!(matches!(end(&uninstall).action, Action::Finish));
}

#[test]
fn unit_is_made_for_the_command() {
    let check = |unit: UnitArguments| {
        assert_eq!(unit.config.as_deref(), Some("/c"));
        assert_eq!(unit.protocol, "vless");
        assert_eq!(unit.interface, "tun7");
        assert!(unit.no_dns);
        assert_eq!(unit.log_file.as_deref(), Some("/l"));
        assert_eq!(unit.token_file.as_deref(), Some("/t"));
    };
    for no_start in [true, false] {
        let install = cli(Command::Service(ServiceAction::Install {
            config: Some("/c".to_string()),
            protocol: "vless".to_string(),
            interface: "tun7".to_string(),
            no_dns: true,
            log_file: Some("/l".to_string()),
            no_start,
        }));
        match run(&install, &Stage::Begin, &Event::Started).action {
            Action::Install { unit, enable_now } => {
                assert_eq!(enable_now, !no_start);
                check(unit);
            }
            other => panic!("{other:?}"),
        }
    }
    let print = cli(Command::Service(ServiceAction::Print {
        config: Some("/c".to_string()),
        protocol: "vless".to_string(),
        interface: "tun7".to_string(),
        no_dns: true,
        log_file: Some("/l".to_string()),
    }));
    let step = run(&print, &Stage::Begin, &Event::Started);
    assert!(step.outputs.is_empty());
    match step.action {
        Action::PrintUnit { unit } => check(unit),
        other => panic!("{other:?}"),
    }
    let end = run(&print, &Stage::LastAction, &Event::Ended);
    assert!(matches!(end.action, Action::Finish));
}

#[test]
fn failed_action_ends_the_run() {
    let stages = || {
        vec![
            (connect(Some("/c"), "vless"), Stage::ConfigFile),
            (connect(None, "vless"), Stage::SavedToken),
            (connect(None, "vless"), Stage::Account { token: "t".to_string() }),
            (connect(None, "vless"), Stage::ServerConfig),
            (cli(Command::Peers { api_url: "x".to_string() }), Stage::PeerList),
            (cli(Command::Logout), Stage::LastAction),
            (cli(Command::Login { api_url: "x".to_string() }), Stage::LastAction),
        ]
    };
    for (command, stage) in stages() {
        let step = run(&command, &stage, &Event::Failed(Failure::Other("no: way".to_string())));
        assert!(step.outputs.is_empty());
        assert!(matches!(step.stage, Stage::Over));
        assert!(matches!(&step.action, Action::Abort(Failure::Other(text)) if text == "no: way"));
        let outcome = step.action.outcome().unwrap();
        assert_eq!(outcome.exit_code(), 1);
        assert_eq!(outcome.report(), Some("Error: no: way".to_string()));
    }
    for (command, stage) in stages() {
        let step = run(&command, &stage, &Event::Failed(Failure::Rejected));
        assert!(step.outputs.is_empty());
        assert!(matches!(step.stage, Stage::Over));
        assert!(matches!(step.action, Action::Abort(Failure::Rejected)));
        assert_eq!(step.action.outcome().unwrap().exit_code(), EXIT_AUTH);
    }
}

#[test]
fn run_ends_with_its_outcome() {
    assert_eq!(Action::Finish.outcome().unwrap().exit_code(), 0);
    let failed = Action::Fail(RunError::NoSubscription).outcome().unwrap();
    assert_eq!(failed.exit_code(), 1);
    assert_eq!(failed.report(), Some("Error: No active subscription".to_string()));
    assert!(Action::LoadToken { token_file: None }.outcome().is_none());
    assert!(Action::Uninstall.outcome().is_none());
}
