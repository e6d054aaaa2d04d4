use floppa_cli::exit::{Outcome, EXIT_AUTH};
use floppa_cli::service::{
    effective_uid, install, parse_uid, print_unit, render_unit, require_root, systemctl,
    uninstall, CallStatus, CommandOutput, ConfigFile, Notice, ServiceError, ServiceStep, Systemctl,
    UNIT_NAME, UNIT_PATH,
};

#[test]
fn unit_contains_exec_and_restart() {
    let unit = render_unit(
        "/usr/local/bin/floppa-cli",
        Some("/etc/floppa-cli/client.conf"),
        "wireguard",
        "floppa0",
        false,
        None,
        None,
    );
    assert!(unit.contains("ExecStart=/usr/local/bin/floppa-cli connect"));
    assert!(unit.contains("--config /etc/floppa-cli/client.conf"));
    assert!(unit.contains("--protocol wireguard"));
    assert!(unit.contains("--interface floppa0"));
    assert!(unit.contains("Restart=on-failure"));
    assert!(unit.contains("WantedBy=multi-user.target"));
    assert!(!unit.contains("--no-dns"));
    assert!(unit.contains("RestartPreventExitStatus=77"));
    assert!(unit.contains("SuccessExitStatus=0 130 143"));
}

#[test]
fn unit_appends_no_dns_flag() {
    let unit = render_unit(
        "/usr/local/bin/floppa-cli",
        Some("/cfg"),
        "vless",
        "floppa0",
        true,
        None,
        None,
    );
    assert!(unit.contains("--no-dns"));
    assert!(unit.contains("Description=Floppa VPN CLI client (vless)"));
}

#[test]
fn unit_with_no_config_renders_api_mode() {
    let unit = render_unit(
        "/usr/local/bin/floppa-cli",
        None,
        "amneziawg",
        "floppa1",
        true,
        Some("/var/log/floppa-cli.log"),
        None,
    );
    assert!(!unit.contains("--config"));
    assert!(unit.contains(
        "ExecStart=/usr/local/bin/floppa-cli connect --protocol amneziawg --interface floppa1"
    ));
    assert!(unit.contains("--log-file /var/log/floppa-cli.log"));
    assert!(unit.contains("RestartPreventExitStatus=77"));
}

#[test]
fn unit_with_token_file_emits_environment() {
    let unit = render_unit(
        "/usr/local/bin/floppa-cli",
        None,
        "wireguard",
        "floppa1",
        false,
        None,
        Some("/home/user/.config/floppa-cli/token"),
    );
    assert!(unit.contains("Environment=FLOPPA_TOKEN_FILE=/home/user/.config/floppa-cli/token"));
}

#[test]
fn unit_without_token_file_has_no_environment_line() {
    let unit = render_unit(
        "/usr/local/bin/floppa-cli",
        Some("/cfg"),
        "wireguard",
        "floppa1",
        false,
        None,
        None,
    );
    assert!(!unit.contains("Environment="));
}

const FULL_UNIT: &str = "[Unit]
Description=Floppa VPN CLI client (vless)
Documentation=https://github.com/ni9aii/floppa-CLI/blob/main/docs/RECONNECT.md
After=network-online.target
Wants=network-online.target
StartLimitIntervalSec=120
StartLimitBurst=10

[Service]
Type=simple
User=root
Environment=FLOPPA_TOKEN_FILE=/t
ExecStart=/bin/f connect --protocol vless --interface tun7 --config /c --no-dns --log-file /l
# Auto-reconnect is handled in-process (see docs/RECONNECT.md); this
# only recovers from a fatal process exit.
Restart=on-failure
RestartSec=5
# A 401 from the API (expired/rejected token) is fatal, not transient —
# exit 77 (EX_NOPERM) means \"stop and tell the user\", not \"retry\".
# Without this, an expired token burns the whole StartLimitBurst in
# seconds and leaves the unit in start-limit-hit.
RestartPreventExitStatus=77
# A clean SIGINT/SIGTERM shutdown (130/143) is not a failure.
SuccessExitStatus=0 130 143

[Install]
WantedBy=multi-user.target
";

#[test]
fn unit_is_rendered_to_the_letter() {
    let unit = render_unit("/bin/f", Some("/c"), "vless", "tun7", true, Some("/l"), Some("/t"));
    assert_eq!(unit, FULL_UNIT);
    let without = render_unit("/bin/f", Some("/c"), "vless", "tun7", true, Some("/l"), None);
    assert_eq!(without, FULL_UNIT.replace("Environment=FLOPPA_TOKEN_FILE=/t\n", ""));
    let from_server = render_unit("/bin/f", None, "vless", "tun7", true, Some("/l"), Some("/t"));
    assert_eq!(from_server, FULL_UNIT.replace(" --config /c", ""));
}

#[test]
fn unit_is_not_restarted_on_a_rejected_token() {
    let unit = render_unit("/bin/f", None, "wireguard", "floppa0", false, None, None);
    let code = Outcome::Rejected.exit_code();
    assert_eq!(code, 77);
    assert_eq!(code, EXIT_AUTH);
    assert!(unit.contains(&format!("RestartPreventExitStatus={code}\n")));
}

#[test]
fn outcomes_have_their_exit_codes() {
    assert_eq!(Outcome::Done.exit_code(), 0);
    assert_eq!(Outcome::Done.report(), None);
    assert_eq!(
        Outcome::Rejected.report(),
        Some("Token expired or rejected. Run `floppa-cli login` again.".to_string())
    );
    let failed = Outcome::Failed("no route: gone".to_string());
    assert_eq!(failed.exit_code(), 1);
    assert_eq!(failed.report(), Some("Error: no route: gone".to_string()));
}

#[test]
fn printed_unit_is_the_installed_one() {
    let printed =
        print_unit(Some("/bin/f"), Some("/c"), "vless", "tun7", true, Some("/l"), Some("/t"));
    assert_eq!(printed, FULL_UNIT);
    let plan = install(
        0,
        Some("/bin/f"),
        ConfigFile::Found("/c"),
        "vless",
        "tun7",
        true,
        Some("/l"),
        Some("/t"),
        true,
    )
    .unwrap();
    assert_eq!(plan.unit, printed);
    let unknown = print_unit(None, None, "wireguard", "floppa0", false, None, None);
    assert!(unknown.contains("ExecStart=/usr/local/bin/floppa-cli connect --protocol wireguard"));
}

#[test]
fn install_takes_its_steps_in_order() {
    let plan = |now: bool| {
        install(
            0,
            Some("/bin/f"),
            ConfigFile::FromServer,
            "wireguard",
            "floppa0",
            false,
            None,
            None,
            now,
        )
        .unwrap()
        .steps
    };
    assert_eq!(
        plan(true),
        vec![
            ServiceStep::WriteUnit,
            ServiceStep::Tell(Notice::Wrote),
            ServiceStep::Call(Systemctl::DaemonReload),
            ServiceStep::Call(Systemctl::EnableNow),
            ServiceStep::Tell(Notice::EnabledAndStarted),
            ServiceStep::Tell(Notice::HowToCheck),
        ]
    );
    assert_eq!(
        plan(false),
        vec![
            ServiceStep::WriteUnit,
            ServiceStep::Tell(Notice::Wrote),
            ServiceStep::Call(Systemctl::DaemonReload),
            ServiceStep::Call(Systemctl::Enable),
            ServiceStep::Tell(Notice::EnabledOnly),
        ]
    );
}

#[test]
fn install_refuses_in_order() {
    let run = |uid: u32, exe: Option<&str>, config: ConfigFile| {
        install(uid, exe, config, "wireguard", "floppa0", false, None, None, true)
    };
    let error = run(1000, None, ConfigFile::Missing("x")).unwrap_err();
    assert!(matches!(error, ServiceError::NotRoot));
    assert_eq!(error.message(), "`floppa-cli service` needs root. Re-run with sudo.");
    let error = run(0, None, ConfigFile::Missing("x")).unwrap_err();
    assert!(matches!(error, ServiceError::NoExecPath));
    assert_eq!(error.message(), "Cannot resolve path to floppa-cli binary");
    let error = run(0, Some("/bin/f"), ConfigFile::Missing("x.conf")).unwrap_err();
    assert_eq!(error.message(), "Config file not found: x.conf");
}

#[test]
fn uninstall_undoes_install() {
    assert_eq!(
        uninstall(0, true).unwrap(),
        vec![
            ServiceStep::Try(Systemctl::DisableNow),
            ServiceStep::RemoveUnit,
            ServiceStep::Tell(Notice::Removed),
            ServiceStep::Call(Systemctl::DaemonReload),
        ]
    );
    assert_eq!(uninstall(0, false).unwrap(), vec![ServiceStep::Tell(Notice::NothingToRemove)]);
    assert!(matches!(uninstall(5, true), Err(ServiceError::NotRoot)));
    assert!(matches!(uninstall(5, false), Err(ServiceError::NotRoot)));
}

#[test]
fn only_root_is_root() {
    assert!(require_root(0).is_ok());
    assert!(matches!(require_root(1), Err(ServiceError::NotRoot)));
    assert!(matches!(require_root(u32::MAX), Err(ServiceError::NotRoot)));
}

#[test]
fn root_is_never_guessed() {
    let ran = |success: bool, stdout: &[u8]| {
        effective_uid(Some(CommandOutput { success, stdout: stdout.to_vec() }))
    };
    assert_eq!(ran(true, b"0\n"), 0);
    assert_eq!(ran(true, b" 1000 \n"), 1000);
    assert_eq!(ran(false, b"0\n"), 1);
    assert_eq!(ran(true, b""), 1);
    assert_eq!(ran(true, b"root"), 1);
    assert_eq!(ran(true, &[0x30, 0xff]), 1);
    assert_eq!(effective_uid(None), 1);
}

#[test]
fn uid_is_parsed_as_std_does() {
    let texts = [
        "0", "00", "+0", "-0", "+", "", " ", "1 2", "4294967295", "4294967296", "+4294967295",
        "99999999999999999999", "1_000", "0x1", "٣", "++1", "1+", "000000000000000000001",
    ];
    for text in texts {
        assert_eq!(parse_uid(text), text.trim().parse::<u32>().unwrap_or(1), "{text:?}");
    }
}

#[test]
fn systemctl_is_judged_by_its_end() {
    let ended = |success: bool, code: Option<i32>| CallStatus::Ended { success, code };
    assert!(systemctl(Systemctl::Enable, ended(true, Some(0))).is_ok());
    let error = systemctl(Systemctl::DaemonReload, ended(false, Some(1))).unwrap_err();
    assert_eq!(error.message(), "systemctl daemon-reload failed (exit Some(1))");
    let error = systemctl(Systemctl::EnableNow, ended(false, None)).unwrap_err();
    assert_eq!(
        error.message(),
        "systemctl enable --now floppa-cli.service failed (exit None)"
    );
    let error = systemctl(Systemctl::Enable, ended(false, Some(-7))).unwrap_err();
    assert_eq!(error.message(), "systemctl enable floppa-cli.service failed (exit Some(-7))");
    let error = systemctl(Systemctl::DisableNow, CallStatus::NotRun).unwrap_err();
    assert_eq!(error.message(), "Failed to run: systemctl disable --now floppa-cli.service");
}

#[test]
fn notices_name_the_unit() {
    assert_eq!(UNIT_NAME, "floppa-cli.service");
    assert_eq!(UNIT_PATH, "/etc/systemd/system/floppa-cli.service");
    assert_eq!(Notice::Wrote.text(), "Wrote /etc/systemd/system/floppa-cli.service");
    assert_eq!(Notice::EnabledAndStarted.text(), "Enabled and started floppa-cli.service");
    assert_eq!(
        Notice::HowToCheck.text(),
        "Check status: systemctl status floppa-cli.service"
    );
    assert_eq!(
        Notice::EnabledOnly.text(),
        "Enabled floppa-cli.service (not started). Start with: systemctl start floppa-cli.service"
    );
    assert_eq!(Notice::Removed.text(), "Removed /etc/systemd/system/floppa-cli.service");
    assert_eq!(
        Notice::NothingToRemove.text(),
        "/etc/systemd/system/floppa-cli.service not present; nothing to uninstall."
    );
}

#[test]
fn only_a_tried_step_may_fail() {
    let steps = uninstall(0, true).unwrap();
    let going_on: Vec<bool> = steps.iter().map(|step| step.goes_on(false)).collect();
    assert_eq!(going_on, vec![true, false, false, false]);
    assert!(steps.iter().all(|step| step.goes_on(true)));
    assert!(!ServiceStep::WriteUnit.goes_on(false));
    assert!(!ServiceStep::Call(Systemctl::DaemonReload).goes_on(false));
}
