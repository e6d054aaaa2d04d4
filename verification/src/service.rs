//! The systemd unit that runs the connector on boot: what it says, and the
//! steps that install and remove it.

use crate::exit::{status_of, Outcome, EXIT_AUTH};
use crate::numerals::{
    decimal, decimal_chars, law_number_is_read_as_written, lemma_decimal, parse_u32, parsed_u32,
    repeated, signed_chars, signed_decimal,
};
use crate::text::{
    all_white, chars_of, from_utf8_lossy, law_trimming_takes_the_white_space_around, string_of, trim,
    trimmed, utf8_lossy,
};
use crate::token::text_of;
use vstd::prelude::*;
use vstd::string::StringExecFns;
use vstd::utf8::{decode_utf8, valid_utf8};

verus! {

/// The name of the unit.
pub const UNIT_NAME: &'static str = "floppa-cli.service";

/// The file that holds the unit.
pub const UNIT_PATH: &'static str = "/etc/systemd/system/floppa-cli.service";

/// The program that a printed unit runs where the path of this one is unknown.
pub const DEFAULT_EXEC_PATH: &'static str = "/usr/local/bin/floppa-cli";

/// The unit between its protocol and its environment.
pub const UNIT_AFTER_PROTOCOL: &'static str = ")\n\
    Documentation=https://github.com/ni9aii/floppa-CLI/blob/main/docs/RECONNECT.md\n\
    After=network-online.target\n\
    Wants=network-online.target\n\
    StartLimitIntervalSec=120\n\
    StartLimitBurst=10\n\
    \n\
    [Service]\n\
    Type=simple\n\
    User=root\n";

/// The unit between its command and the exit status that it does not restart
/// on.
pub const UNIT_AFTER_COMMAND: &'static str = "# Auto-reconnect is handled in-process (see docs/RECONNECT.md); this\n\
    # only recovers from a fatal process exit.\n\
    Restart=on-failure\n\
    RestartSec=5\n\
    # A 401 from the API (expired/rejected token) is fatal, not transient —\n\
    # exit 77 (EX_NOPERM) means \"stop and tell the user\", not \"retry\".\n\
    # Without this, an expired token burns the whole StartLimitBurst in\n\
    # seconds and leaves the unit in start-limit-hit.\n";

/// The end of the unit.
pub const UNIT_END: &'static str = "# A clean SIGINT/SIGTERM shutdown (130/143) is not a failure.\n\
    SuccessExitStatus=0 130 143\n\
    \n\
    [Install]\n\
    WantedBy=multi-user.target\n";

/// ` --name value`, or nothing where there is no value.
pub open spec fn option_text(name: Seq<char>, value: Option<Seq<char>>) -> Seq<char> {
    match value {
        Some(value) => name + value,
        None => Seq::empty(),
    }
}

/// The command that the unit runs.
pub open spec fn command_text(
    exec_path: Seq<char>,
    config: Option<Seq<char>>,
    protocol: Seq<char>,
    interface: Seq<char>,
    no_dns: bool,
    log_file: Option<Seq<char>>,
) -> Seq<char> {
    exec_path + " connect --protocol "@ + protocol + " --interface "@ + interface + option_text(
        " --config "@,
        config,
    ) + (if no_dns { " --no-dns"@ } else { Seq::empty() }) + option_text(" --log-file "@, log_file)
}

/// The line of the unit that says where the token is kept, where that is said.
pub open spec fn environment_text(token_file: Option<Seq<char>>) -> Seq<char> {
    match token_file {
        Some(path) => "Environment=FLOPPA_TOKEN_FILE="@ + path + "\n"@,
        None => Seq::empty(),
    }
}

/// The unit, for the protocol and the command that it runs and the line that
/// it has for the token.
pub open spec fn unit_around(
    protocol: Seq<char>,
    environment: Seq<char>,
    command: Seq<char>,
) -> Seq<char> {
    "[Unit]\nDescription=Floppa VPN CLI client ("@ + protocol + UNIT_AFTER_PROTOCOL@ + environment
        + "ExecStart="@ + command + "\n"@ + UNIT_AFTER_COMMAND@ + "RestartPreventExitStatus="@
        + decimal(EXIT_AUTH as nat) + "\n"@ + UNIT_END@
}

/// The unit for the given program and connection.
pub open spec fn unit_text(
    exec_path: Seq<char>,
    config: Option<Seq<char>>,
    protocol: Seq<char>,
    interface: Seq<char>,
    no_dns: bool,
    log_file: Option<Seq<char>>,
    token_file: Option<Seq<char>>,
) -> Seq<char> {
    unit_around(
        protocol,
        environment_text(token_file),
        command_text(exec_path, config, protocol, interface, no_dns, log_file),
    )
}

/// Appends ` --name value`, or nothing where there is no value.
fn push_option(text: &mut String, name: &str, value: Option<&str>)
    ensures
        final(text)@ == old(text)@ + option_text(name@, text_of(value)),
{
    let ghost before = text@;
    match value {
        Some(value) => {
            text.append(name);
            text.append(value);
            assert(text@ =~= before + (name@ + value@));
        },
        None => {
            assert(text@ =~= before + Seq::<char>::empty());
        },
    }
}

/// Renders the unit for a program and the arguments that it connects with.
/// Without a configuration file the connector asks the server for one.
pub fn render_unit(
    exec_path: &str,
    config: Option<&str>,
    protocol: &str,
    interface: &str,
    no_dns: bool,
    log_file: Option<&str>,
    token_file: Option<&str>,
) -> (unit: String)
    ensures
        unit@ == unit_text(
            exec_path@,
            text_of(config),
            protocol@,
            interface@,
            no_dns,
            text_of(log_file),
            text_of(token_file),
        ),
{
    let mut command = exec_path.to_owned();
    command.append(" connect --protocol ");
    command.append(protocol);
    command.append(" --interface ");
    command.append(interface);
    push_option(&mut command, " --config ", config);
    let ghost before = command@;
    if no_dns {
        command.append(" --no-dns");
    } else {
        assert(command@ =~= before + Seq::<char>::empty());
    }
    push_option(&mut command, " --log-file ", log_file);

    let mut environment = String::new();
    if let Some(path) = token_file {
        environment.append("Environment=FLOPPA_TOKEN_FILE=");
        assert(environment@ =~= "Environment=FLOPPA_TOKEN_FILE="@);
        environment.append(path);
        environment.append("\n");
    }
    let mut unit = String::new();
    unit.append("[Unit]\nDescription=Floppa VPN CLI client (");
    assert(unit@ =~= "[Unit]\nDescription=Floppa VPN CLI client ("@);
    unit.append(protocol);
    unit.append(UNIT_AFTER_PROTOCOL);
    unit.append(environment.as_str());
    unit.append("ExecStart=");
    unit.append(command.as_str());
    unit.append("\n");
    unit.append(UNIT_AFTER_COMMAND);
    unit.append("RestartPreventExitStatus=");
    unit.append(string_of(decimal_chars(EXIT_AUTH as u64).as_slice()).as_str());
    unit.append("\n");
    unit.append(UNIT_END);
    unit
}

/// The calls of `systemctl` that managing the unit takes.
#[derive(Clone, Copy, Debug, PartialEq, Eq, Structural)]
pub enum Systemctl {
    DaemonReload,
    Enable,
    EnableNow,
    DisableNow,
}

impl Systemctl {
    /// The arguments of the call.
    pub open spec fn arguments(self) -> Seq<Seq<char>> {
        match self {
            Systemctl::DaemonReload => seq!["daemon-reload"@],
            Systemctl::Enable => seq!["enable"@, UNIT_NAME@],
            Systemctl::EnableNow => seq!["enable"@, "--now"@, UNIT_NAME@],
            Systemctl::DisableNow => seq!["disable"@, "--now"@, UNIT_NAME@],
        }
    }

    /// The arguments of the call, in order.
    pub fn args(&self) -> (r: Vec<&'static str>)
        ensures
            r@.map_values(|arg: &'static str| arg@) == self.arguments(),
    {
        let mut r: Vec<&'static str> = Vec::new();
        match self {
            Systemctl::DaemonReload => {
                r.push("daemon-reload");
            },
            Systemctl::Enable => {
                r.push("enable");
                r.push(UNIT_NAME);
            },
            Systemctl::EnableNow => {
                r.push("enable");
                r.push("--now");
                r.push(UNIT_NAME);
            },
            Systemctl::DisableNow => {
                r.push("disable");
                r.push("--now");
                r.push(UNIT_NAME);
            },
        }
        assert(r@.map_values(|arg: &'static str| arg@) =~= self.arguments());
        r
    }
}

/// Texts with a space between each two of them.
pub open spec fn spaced(texts: Seq<Seq<char>>) -> Seq<char>
    decreases texts.len(),
{
    if texts.len() == 0 {
        Seq::empty()
    } else if texts.len() == 1 {
        texts[0]
    } else {
        spaced(texts.drop_last()) + " "@ + texts.last()
    }
}

/// Joins texts with a space between each two of them.
fn join_spaced(texts: &Vec<&'static str>) -> (r: String)
    ensures
        r@ == spaced(texts@.map_values(|text: &'static str| text@)),
{
    let ghost all = texts@.map_values(|text: &'static str| text@);
    let mut r = String::new();
    let mut i: usize = 0;
    assert(all.take(0) =~= Seq::empty());
    while i < texts.len()
        invariant
            i <= texts@.len(),
            all == texts@.map_values(|text: &'static str| text@),
            r@ == spaced(all.take(i as int)),
        decreases texts@.len() - i,
    {
        assert(all.take(i + 1).drop_last() =~= all.take(i as int));
        assert(all.take(i + 1).last() == texts@[i as int]@);
        if i > 0 {
            r.append(" ");
            r.append(texts[i]);
        } else {
            r.append(texts[i]);
            assert(r@ =~= texts@[0]@);
        }
        i += 1;
    }
    assert(all.take(i as int) =~= all);
    r
}

/// What stands in the way of managing the unit.
#[derive(Debug)]
pub enum ServiceError {
    /// The user is not root.
    NotRoot,
    /// The path of this program is unknown.
    NoExecPath,
    /// The configuration file is not there.
    ConfigNotFound(String),
    /// `systemctl` did not start.
    SystemctlNotRun(Systemctl),
    /// `systemctl` failed, with an exit status or without one.
    SystemctlFailed(Systemctl, Option<i32>),
}

/// An exit status as it is shown in an error, where there is one.
pub open spec fn shown_code(code: Option<i32>) -> Seq<char> {
    match code {
        Some(code) => "Some("@ + signed_decimal(code as int) + ")"@,
        None => "None"@,
    }
}

/// What the user is told of an error.
pub open spec fn error_text(error: ServiceError) -> Seq<char> {
    match error {
        ServiceError::NotRoot => "`floppa-cli service` needs root. Re-run with sudo."@,
        ServiceError::NoExecPath => "Cannot resolve path to floppa-cli binary"@,
        ServiceError::ConfigNotFound(path) => "Config file not found: "@ + path@,
        ServiceError::SystemctlNotRun(call) => "Failed to run: systemctl "@ + spaced(
            call.arguments(),
        ),
        ServiceError::SystemctlFailed(call, code) => "systemctl "@ + spaced(call.arguments())
            + " failed (exit "@ + shown_code(code) + ")"@,
    }
}

/// Renders an exit status, where there is one.
fn show_code(code: Option<i32>) -> (r: String)
    ensures
        r@ == shown_code(code),
{
    match code {
        Some(code) => {
            let mut r = String::new();
            r.append("Some(");
            assert(r@ =~= "Some("@);
            r.append(string_of(signed_chars(code as i64).as_slice()).as_str());
            r.append(")");
            r
        },
        None => "None".to_owned(),
    }
}

impl ServiceError {
    /// What the user is told.
    pub fn message(&self) -> (text: String)
        ensures
            text@ == error_text(*self),
    {
        match self {
            ServiceError::NotRoot => "`floppa-cli service` needs root. Re-run with sudo.".to_owned(),
            ServiceError::NoExecPath => "Cannot resolve path to floppa-cli binary".to_owned(),
            ServiceError::ConfigNotFound(path) => {
                let mut text = "Config file not found: ".to_owned();
                text.append(path.as_str());
                text
            },
            ServiceError::SystemctlNotRun(call) => {
                let mut text = "Failed to run: systemctl ".to_owned();
                text.append(join_spaced(&call.args()).as_str());
                text
            },
            ServiceError::SystemctlFailed(call, code) => {
                let mut text = "systemctl ".to_owned();
                text.append(join_spaced(&call.args()).as_str());
                text.append(" failed (exit ");
                text.append(show_code(*code).as_str());
                text.append(")");
                text
            },
        }
    }
}

/// Refuses whoever is not root: writing the unit and calling `systemctl` both
/// need it.
pub fn require_root(uid: u32) -> (r: Result<(), ServiceError>)
    ensures
        r is Ok <==> uid == 0,
        r matches Err(error) ==> error is NotRoot,
{
    if uid != 0 {
        return Err(ServiceError::NotRoot);
    }
    Ok(())
}

/// What a program that ran to its end left behind.
#[derive(Debug)]
pub struct CommandOutput {
    pub success: bool,
    pub stdout: Vec<u8>,
}

/// The user id that a text names; 1, which is not root, where it names none.
pub open spec fn uid_in(text: Seq<char>) -> u32 {
    match parsed_u32(trimmed(text)) {
        Some(uid) => uid,
        None => 1,
    }
}

/// The user id that `id -u` prints, where it ran and succeeded; else 1, which
/// is not root.
pub open spec fn uid_of(output: Option<CommandOutput>) -> u32 {
    match output {
        Some(output) if output.success => uid_in(utf8_lossy(output.stdout@)),
        _ => 1,
    }
}

/// Reads a user id.
pub fn parse_uid(text: &str) -> (uid: u32)
    ensures
        uid == uid_in(text@),
{
    let chars = chars_of(text);
    match parse_u32(trim(chars.as_slice())) {
        Some(uid) => uid,
        None => 1,
    }
}

/// Reads the effective user id out of what `id -u` left behind, if it ran.
pub fn effective_uid(output: Option<CommandOutput>) -> (uid: u32)
    ensures
        uid == uid_of(output),
        output matches Some(out) ==> (out.success && valid_utf8(out.stdout@) ==> uid == uid_in(
            decode_utf8(out.stdout@),
        )),
{
    match output {
        Some(output) => if output.success {
            parse_uid(from_utf8_lossy(output.stdout.as_slice()).as_str())
        } else {
            1
        },
        None => 1,
    }
}

/// How a call of `systemctl` went.
#[derive(Clone, Copy, Debug, PartialEq, Eq, Structural)]
pub enum CallStatus {
    /// It did not start.
    NotRun,
    /// It ended, successfully or not, with an exit status unless it was killed.
    Ended { success: bool, code: Option<i32> },
}

/// Judges how a call of `systemctl` went.
pub fn systemctl(call: Systemctl, status: CallStatus) -> (r: Result<(), ServiceError>)
    ensures
        match status {
            CallStatus::NotRun => r == Err::<(), ServiceError>(ServiceError::SystemctlNotRun(call)),
            CallStatus::Ended { success, code } => r == (if success {
                Ok::<(), ServiceError>(())
            } else {
                Err::<(), ServiceError>(ServiceError::SystemctlFailed(call, code))
            }),
        },
{
    match status {
        CallStatus::NotRun => Err(ServiceError::SystemctlNotRun(call)),
        CallStatus::Ended { success, code } => if success {
            Ok(())
        } else {
            Err(ServiceError::SystemctlFailed(call, code))
        },
    }
}

/// What the user is told while the unit is managed.
#[derive(Clone, Copy, Debug, PartialEq, Eq, Structural)]
pub enum Notice {
    Wrote,
    EnabledAndStarted,
    HowToCheck,
    EnabledOnly,
    Removed,
    NothingToRemove,
}

/// The words of a notice.
pub open spec fn notice_text(notice: Notice) -> Seq<char> {
    match notice {
        Notice::Wrote => "Wrote "@ + UNIT_PATH@,
        Notice::EnabledAndStarted => "Enabled and started "@ + UNIT_NAME@,
        Notice::HowToCheck => "Check status: systemctl status "@ + UNIT_NAME@,
        Notice::EnabledOnly => "Enabled "@ + UNIT_NAME@
            + " (not started). Start with: systemctl start "@ + UNIT_NAME@,
        Notice::Removed => "Removed "@ + UNIT_PATH@,
        Notice::NothingToRemove => UNIT_PATH@ + " not present; nothing to uninstall."@,
    }
}

impl Notice {
    /// The words of the notice.
    pub fn text(&self) -> (text: String)
        ensures
            text@ == notice_text(*self),
    {
        match self {
            Notice::Wrote => {
                let mut text = "Wrote ".to_owned();
                text.append(UNIT_PATH);
                text
            },
            Notice::EnabledAndStarted => {
                let mut text = "Enabled and started ".to_owned();
                text.append(UNIT_NAME);
                text
            },
            Notice::HowToCheck => {
                let mut text = "Check status: systemctl status ".to_owned();
                text.append(UNIT_NAME);
                text
            },
            Notice::EnabledOnly => {
                let mut text = "Enabled ".to_owned();
                text.append(UNIT_NAME);
                text.append(" (not started). Start with: systemctl start ");
                text.append(UNIT_NAME);
                text
            },
            Notice::Removed => {
                let mut text = "Removed ".to_owned();
                text.append(UNIT_PATH);
                text
            },
            Notice::NothingToRemove => {
                let mut text = UNIT_PATH.to_owned();
                text.append(" not present; nothing to uninstall.");
                text
            },
        }
    }
}

/// One step of managing the unit. Steps are taken in order, and the first that
/// fails ends the work, but for those that are only tried.
#[derive(Clone, Copy, Debug, PartialEq, Eq, Structural)]
pub enum ServiceStep {
    /// Write the unit's file.
    WriteUnit,
    /// Remove the unit's file.
    RemoveUnit,
    /// Call `systemctl`.
    Call(Systemctl),
    /// Call `systemctl` and go on whether or not it fails.
    Try(Systemctl),
    /// Tell the user.
    Tell(Notice),
}

impl ServiceStep {
    /// Whether a failure of the step ends the work: it does unless the step is
    /// only tried.
    pub open spec fn must_succeed(self) -> bool {
        !(self is Try)
    }

    /// Tells whether the work goes on after the step, which succeeded or not.
    pub fn goes_on(&self, ok: bool) -> (r: bool)
        ensures
            r == (ok || !self.must_succeed()),
    {
        match self {
            ServiceStep::Try(_) => true,
            _ => ok,
        }
    }
}

/// How the unit is installed.
#[derive(Debug)]
pub struct InstallPlan {
    /// What the unit's file is to hold.
    pub unit: String,
    /// The steps to take.
    pub steps: Vec<ServiceStep>,
}

/// The configuration file that the unit is to use.
#[derive(Clone, Copy, Debug)]
pub enum ConfigFile<'a> {
    /// None: the connector asks the server.
    FromServer,
    /// The file with this absolute path.
    Found(&'a str),
    /// A file that is not there.
    Missing(&'a str),
}

/// The path of the configuration file, where the unit has one.
pub open spec fn config_path(config: ConfigFile) -> Option<Seq<char>> {
    match config {
        ConfigFile::Found(path) => Some(path@),
        _ => None,
    }
}

/// The steps that install the unit.
pub open spec fn install_steps(enable_now: bool) -> Seq<ServiceStep> {
    if enable_now {
        seq![
            ServiceStep::WriteUnit,
            ServiceStep::Tell(Notice::Wrote),
            ServiceStep::Call(Systemctl::DaemonReload),
            ServiceStep::Call(Systemctl::EnableNow),
            ServiceStep::Tell(Notice::EnabledAndStarted),
            ServiceStep::Tell(Notice::HowToCheck),
        ]
    } else {
        seq![
            ServiceStep::WriteUnit,
            ServiceStep::Tell(Notice::Wrote),
            ServiceStep::Call(Systemctl::DaemonReload),
            ServiceStep::Call(Systemctl::Enable),
            ServiceStep::Tell(Notice::EnabledOnly),
        ]
    }
}

/// The steps that remove the unit, where its file is there.
pub open spec fn uninstall_steps(present: bool) -> Seq<ServiceStep> {
    if present {
        seq![
            ServiceStep::Try(Systemctl::DisableNow),
            ServiceStep::RemoveUnit,
            ServiceStep::Tell(Notice::Removed),
            ServiceStep::Call(Systemctl::DaemonReload),
        ]
    } else {
        seq![ServiceStep::Tell(Notice::NothingToRemove)]
    }
}

/// Plans the installation of the unit, for the user with the given id and this
/// program's path, where it is known.
pub fn install(
    uid: u32,
    exec_path: Option<&str>,
    config: ConfigFile,
    protocol: &str,
    interface: &str,
    no_dns: bool,
    log_file: Option<&str>,
    token_file: Option<&str>,
    enable_now: bool,
) -> (r: Result<InstallPlan, ServiceError>)
    ensures
        uid != 0 ==> r == Err::<InstallPlan, ServiceError>(ServiceError::NotRoot),
        uid == 0 && exec_path is None ==> r == Err::<InstallPlan, ServiceError>(
            ServiceError::NoExecPath,
        ),
        uid == 0 && exec_path is Some ==> match config {
            ConfigFile::Missing(path) => r matches Err(ServiceError::ConfigNotFound(named))
                && named@ == path@,
            _ => r matches Ok(plan) && plan.unit@ == unit_text(
                exec_path.unwrap()@,
                config_path(config),
                protocol@,
                interface@,
                no_dns,
                text_of(log_file),
                text_of(token_file),
            ) && plan.steps@ == install_steps(enable_now),
        },
{
    match require_root(uid) {
        Ok(()) => {},
        Err(error) => {
            return Err(error);
        },
    }
    let exec_path = match exec_path {
        Some(path) => path,
        None => {
            return Err(ServiceError::NoExecPath);
        },
    };
    let config: Option<&str> = match config {
        ConfigFile::FromServer => None,
        ConfigFile::Found(path) => Some(path),
        ConfigFile::Missing(path) => {
            return Err(ServiceError::ConfigNotFound(path.to_owned()));
        },
    };
    let unit = render_unit(exec_path, config, protocol, interface, no_dns, log_file, token_file);
    let mut steps: Vec<ServiceStep> = Vec::new();
    steps.push(ServiceStep::WriteUnit);
    steps.push(ServiceStep::Tell(Notice::Wrote));
    steps.push(ServiceStep::Call(Systemctl::DaemonReload));
    if enable_now {
        steps.push(ServiceStep::Call(Systemctl::EnableNow));
        steps.push(ServiceStep::Tell(Notice::EnabledAndStarted));
        steps.push(ServiceStep::Tell(Notice::HowToCheck));
    } else {
        steps.push(ServiceStep::Call(Systemctl::Enable));
        steps.push(ServiceStep::Tell(Notice::EnabledOnly));
    }
    assert(steps@ =~= install_steps(enable_now));
    Ok(InstallPlan { unit, steps })
}

/// Plans the removal of the unit, for the user with the given id and whether
/// the unit's file is there.
pub fn uninstall(uid: u32, present: bool) -> (r: Result<Vec<ServiceStep>, ServiceError>)
    ensures
        uid != 0 ==> r == Err::<Vec<ServiceStep>, ServiceError>(ServiceError::NotRoot),
        uid == 0 ==> (r matches Ok(steps) && steps@ == uninstall_steps(present)),
{
    match require_root(uid) {
        Ok(()) => {},
        Err(error) => {
            return Err(error);
        },
    }
    let mut steps: Vec<ServiceStep> = Vec::new();
    if present {
        steps.push(ServiceStep::Try(Systemctl::DisableNow));
        steps.push(ServiceStep::RemoveUnit);
        steps.push(ServiceStep::Tell(Notice::Removed));
        steps.push(ServiceStep::Call(Systemctl::DaemonReload));
    } else {
        steps.push(ServiceStep::Tell(Notice::NothingToRemove));
    }
    assert(steps@ =~= uninstall_steps(present));
    Ok(steps)
}

/// The unit that is printed, for this program's path, where it is known.
pub open spec fn printed_text(
    exec_path: Option<Seq<char>>,
    config: Option<Seq<char>>,
    protocol: Seq<char>,
    interface: Seq<char>,
    no_dns: bool,
    log_file: Option<Seq<char>>,
    token_file: Option<Seq<char>>,
) -> Seq<char> {
    unit_text(
        match exec_path {
            Some(path) => path,
            None => DEFAULT_EXEC_PATH@,
        },
        config,
        protocol,
        interface,
        no_dns,
        log_file,
        token_file,
    )
}

/// Renders the unit for printing, without touching the system. It is the unit
/// that an installation would write, so `config` is to be the absolute path of
/// the configuration file, as in `ConfigFile::Found`.
pub fn print_unit(
    exec_path: Option<&str>,
    config: Option<&str>,
    protocol: &str,
    interface: &str,
    no_dns: bool,
    log_file: Option<&str>,
    token_file: Option<&str>,
) -> (unit: String)
    ensures
        unit@ == printed_text(
            text_of(exec_path),
            text_of(config),
            protocol@,
            interface@,
            no_dns,
            text_of(log_file),
            text_of(token_file),
        ),
{
    let exec_path: &str = match exec_path {
        Some(path) => path,
        None => DEFAULT_EXEC_PATH,
    };
    render_unit(exec_path, config, protocol, interface, no_dns, log_file, token_file)
}

/// Whether `part` occurs in `text`.
pub open spec fn holds(text: Seq<char>, part: Seq<char>) -> bool {
    exists|before: Seq<char>, after: Seq<char>| text == #[trigger] (before + part + after)
}

/// The unit runs the connector with the arguments that it was made for, in a
/// line of its own.
pub proof fn law_unit_runs_the_command(
    exec_path: Seq<char>,
    config: Option<Seq<char>>,
    protocol: Seq<char>,
    interface: Seq<char>,
    no_dns: bool,
    log_file: Option<Seq<char>>,
    token_file: Option<Seq<char>>,
)
    ensures
        holds(
            unit_text(exec_path, config, protocol, interface, no_dns, log_file, token_file),
            "ExecStart="@ + command_text(exec_path, config, protocol, interface, no_dns, log_file)
                + "\n"@,
        ),
{
    let command = command_text(exec_path, config, protocol, interface, no_dns, log_file);
    let before = "[Unit]\nDescription=Floppa VPN CLI client ("@ + protocol + UNIT_AFTER_PROTOCOL@
        + environment_text(token_file);
    let after = UNIT_AFTER_COMMAND@ + "RestartPreventExitStatus="@ + decimal(EXIT_AUTH as nat)
        + "\n"@ + UNIT_END@;
    assert(unit_text(exec_path, config, protocol, interface, no_dns, log_file, token_file)
        =~= before + ("ExecStart="@ + command + "\n"@) + after);
}

/// Whatever the unit was made for, it is not restarted on the exit status with
/// which this program ends where its token was rejected.
pub proof fn law_rejected_token_stops_the_unit(
    exec_path: Seq<char>,
    config: Option<Seq<char>>,
    protocol: Seq<char>,
    interface: Seq<char>,
    no_dns: bool,
    log_file: Option<Seq<char>>,
    token_file: Option<Seq<char>>,
)
    ensures
        holds(
            unit_text(exec_path, config, protocol, interface, no_dns, log_file, token_file),
            "RestartPreventExitStatus="@ + decimal(status_of(Outcome::Rejected) as nat) + "\n"@,
        ),
{
    let command = command_text(exec_path, config, protocol, interface, no_dns, log_file);
    let before = "[Unit]\nDescription=Floppa VPN CLI client ("@ + protocol + UNIT_AFTER_PROTOCOL@
        + environment_text(token_file) + "ExecStart="@ + command + "\n"@ + UNIT_AFTER_COMMAND@;
    let line = "RestartPreventExitStatus="@ + decimal(EXIT_AUTH as nat) + "\n"@;
    assert(unit_text(exec_path, config, protocol, interface, no_dns, log_file, token_file)
        =~= before + line + UNIT_END@);
}

/// A token file adds one line to the unit, before its command, and changes
/// nothing else; without one there is no such line.
pub proof fn law_token_file_adds_one_line(
    exec_path: Seq<char>,
    config: Option<Seq<char>>,
    protocol: Seq<char>,
    interface: Seq<char>,
    no_dns: bool,
    log_file: Option<Seq<char>>,
    path: Seq<char>,
)
    ensures
        exists|before: Seq<char>, after: Seq<char>|
            #![trigger before + after]
            {
                &&& unit_text(exec_path, config, protocol, interface, no_dns, log_file, None)
                    == before + after
                &&& unit_text(exec_path, config, protocol, interface, no_dns, log_file, Some(path))
                    == before + ("Environment=FLOPPA_TOKEN_FILE="@ + path + "\n"@) + after
                &&& ("ExecStart="@ + command_text(
                    exec_path,
                    config,
                    protocol,
                    interface,
                    no_dns,
                    log_file,
                )).is_prefix_of(after)
            },
{
    let command = command_text(exec_path, config, protocol, interface, no_dns, log_file);
    let before = "[Unit]\nDescription=Floppa VPN CLI client ("@ + protocol + UNIT_AFTER_PROTOCOL@;
    let after = "ExecStart="@ + command + "\n"@ + UNIT_AFTER_COMMAND@ + "RestartPreventExitStatus="@
        + decimal(EXIT_AUTH as nat) + "\n"@ + UNIT_END@;
    assert(unit_text(exec_path, config, protocol, interface, no_dns, log_file, None) =~= before
        + after);
    assert(unit_text(exec_path, config, protocol, interface, no_dns, log_file, Some(path))
        =~= before + ("Environment=FLOPPA_TOKEN_FILE="@ + path + "\n"@) + after);
}

/// Without a configuration file the unit's command names none: it is the
/// command with one, less that one argument.
pub proof fn law_config_is_one_argument(
    exec_path: Seq<char>,
    config: Seq<char>,
    protocol: Seq<char>,
    interface: Seq<char>,
    no_dns: bool,
    log_file: Option<Seq<char>>,
)
    ensures
        exists|before: Seq<char>, after: Seq<char>|
            #![trigger before + after]
            {
                &&& command_text(exec_path, None, protocol, interface, no_dns, log_file) == before
                    + after
                &&& command_text(exec_path, Some(config), protocol, interface, no_dns, log_file)
                    == before + (" --config "@ + config) + after
                &&& before == exec_path + " connect --protocol "@ + protocol + " --interface "@
                    + interface
            },
{
    let before = exec_path + " connect --protocol "@ + protocol + " --interface "@ + interface;
    let after = (if no_dns { " --no-dns"@ } else { Seq::empty() }) + option_text(
        " --log-file "@,
        log_file,
    );
    assert(command_text(exec_path, None, protocol, interface, no_dns, log_file) =~= before + after);
    assert(command_text(exec_path, Some(config), protocol, interface, no_dns, log_file) =~= before
        + (" --config "@ + config) + after);
}

/// What is printed is what an installation would write.
pub proof fn law_printed_unit_is_the_installed_one(
    exec_path: Seq<char>,
    config: ConfigFile,
    protocol: Seq<char>,
    interface: Seq<char>,
    no_dns: bool,
    log_file: Option<Seq<char>>,
    token_file: Option<Seq<char>>,
)
    ensures
        printed_text(
            Some(exec_path),
            config_path(config),
            protocol,
            interface,
            no_dns,
            log_file,
            token_file,
        ) == unit_text(
            exec_path,
            config_path(config),
            protocol,
            interface,
            no_dns,
            log_file,
            token_file,
        ),
{
}

/// Nobody is taken for root unless `id -u` ran, succeeded and printed a zero.
pub proof fn law_root_is_never_guessed(output: Option<CommandOutput>)
    ensures
        uid_of(output) == 0 <==> (output matches Some(out) && out.success && parsed_u32(
            trimmed(utf8_lossy(out.stdout@)),
        ) == Some(0u32)),
{
}

/// The unit as the system has it.
pub struct UnitState {
    /// Whether its file is there.
    pub present: bool,
    /// Whether it starts on boot.
    pub enabled: bool,
    /// Whether it runs.
    pub running: bool,
}

impl UnitState {
    /// The state after a call of `systemctl` that succeeded.
    pub open spec fn called(self, call: Systemctl) -> UnitState {
        match call {
            Systemctl::DaemonReload => self,
            Systemctl::Enable => UnitState { enabled: true, ..self },
            Systemctl::EnableNow => UnitState { enabled: true, running: true, ..self },
            Systemctl::DisableNow => UnitState { enabled: false, running: false, ..self },
        }
    }

    /// The state after a step that succeeded.
    pub open spec fn stepped(self, step: ServiceStep) -> UnitState {
        match step {
            ServiceStep::WriteUnit => UnitState { present: true, ..self },
            ServiceStep::RemoveUnit => UnitState { present: false, ..self },
            ServiceStep::Call(call) => self.called(call),
            ServiceStep::Try(call) => self.called(call),
            ServiceStep::Tell(_) => self,
        }
    }

    /// Whether a step that failed may lead to the state `later`. A file that
    /// could not be written may be there or not, and a call of `systemctl` that
    /// failed may have done a part of its work, but no such call touches the
    /// unit's file.
    pub open spec fn failed(self, step: ServiceStep, later: UnitState) -> bool {
        match step {
            ServiceStep::WriteUnit => later.enabled == self.enabled && later.running
                == self.running,
            ServiceStep::RemoveUnit => later == self,
            ServiceStep::Call(Systemctl::DaemonReload) => later == self,
            ServiceStep::Try(Systemctl::DaemonReload) => later == self,
            ServiceStep::Call(_) => later.present == self.present,
            ServiceStep::Try(_) => later.present == self.present,
            ServiceStep::Tell(_) => false,
        }
    }

    /// The state after steps that all succeeded.
    pub open spec fn after(self, steps: Seq<ServiceStep>) -> UnitState
        decreases steps.len(),
    {
        if steps.len() == 0 {
            self
        } else {
            self.stepped(steps.first()).after(steps.drop_first())
        }
    }
}

/// Whether taking `steps` in order can go through `states`, from the state
/// before the first step to the one after the last that was taken, where `ok`
/// tells of each step that was taken whether it succeeded.
pub open spec fn takes(steps: Seq<ServiceStep>, ok: Seq<bool>, states: Seq<UnitState>) -> bool {
    &&& ok.len() <= steps.len()
    &&& states.len() == ok.len() + 1
    &&& forall|i: int|
        0 <= i < ok.len() ==> if #[trigger] ok[i] {
            states[i + 1] == states[i].stepped(steps[i])
        } else {
            states[i].failed(steps[i], states[i + 1])
        }
    // Only the last step taken may have failed where it had to succeed,
    &&& forall|i: int| 0 <= i < ok.len() - 1 && !#[trigger] ok[i] ==> !steps[i].must_succeed()
    // and only where it did are steps left over.
    &&& ok.len() < steps.len() ==> ok.len() > 0 && !ok.last() && steps[ok.len()
        - 1].must_succeed()
}

proof fn lemma_successes_add_up(
    steps: Seq<ServiceStep>,
    ok: Seq<bool>,
    states: Seq<UnitState>,
    n: int,
)
    requires
        takes(steps, ok, states),
        forall|i: int| 0 <= i < ok.len() ==> ok[i],
        0 <= n <= steps.len(),
    ensures
        ok.len() == steps.len(),
        states[n].after(steps.skip(n)) == states.last(),
    decreases steps.len() - n,
{
    if ok.len() < steps.len() {
        assert(ok[ok.len() - 1]);
    }
    if n < steps.len() {
        lemma_successes_add_up(steps, ok, states, n + 1);
        assert(ok[n]);
        assert(steps.skip(n).drop_first() =~= steps.skip(n + 1));
    }
}

/// Where no step fails, all are taken, and each adds what it does.
pub proof fn law_steps_without_failure_are_all_taken(
    steps: Seq<ServiceStep>,
    ok: Seq<bool>,
    states: Seq<UnitState>,
)
    requires
        takes(steps, ok, states),
        forall|i: int| 0 <= i < ok.len() ==> ok[i],
    ensures
        ok.len() == steps.len(),
        states.last() == states.first().after(steps),
{
    lemma_successes_add_up(steps, ok, states, 0);
    assert(steps.skip(0) =~= steps);
}

/// Only writing the unit's file and removing it decide whether it is there.
proof fn lemma_file_stays(
    steps: Seq<ServiceStep>,
    ok: Seq<bool>,
    states: Seq<UnitState>,
    i: int,
)
    requires
        takes(steps, ok, states),
        0 <= i < ok.len(),
        !(steps[i] is WriteUnit || steps[i] is RemoveUnit),
    ensures
        states[i + 1].present == states[i].present,
{
    if ok[i] {
        assert(states[i + 1] == states[i].stepped(steps[i]));
    } else {
        assert(states[i].failed(steps[i], states[i + 1]));
    }
}

/// A removal goes on to the unit's file whether or not disabling the unit
/// succeeds, and the unit is gone afterwards just when its file could be
/// removed, whatever else failed.
pub proof fn law_removal_does_not_need_disabling(ok: Seq<bool>, states: Seq<UnitState>)
    requires
        takes(uninstall_steps(true), ok, states),
        states.first().present,
    ensures
        ok.len() >= 2,
        ok[1] <==> !states.last().present,
{
    let steps = uninstall_steps(true);
    assert(!steps[0].must_succeed());
    lemma_file_stays(steps, ok, states, 0);
    assert(ok[1] <==> !states[2].present);
    if ok.len() >= 3 {
        lemma_file_stays(steps, ok, states, 2);
    }
    if ok.len() == 4 {
        lemma_file_stays(steps, ok, states, 3);
    }
}

/// Where `systemctl` fails to reload its units after the unit was written, an
/// installation ends there: enabling is not reached, the unit that was written
/// stays, and whether it is enabled and runs is as it was before.
pub proof fn law_failed_reload_ends_the_installation(
    enable_now: bool,
    ok: Seq<bool>,
    states: Seq<UnitState>,
)
    requires
        takes(install_steps(enable_now), ok, states),
        ok.len() >= 3,
        !ok[2],
    ensures
        ok.len() == 3,
        states.last() == (UnitState { present: true, ..states.first() }),
{
    let steps = install_steps(enable_now);
    assert(steps[2].must_succeed());
    assert(steps[0].must_succeed());
    assert(ok[0]);
    assert(ok[1]);
}

/// Where the unit cannot be written, an installation calls no `systemctl` at
/// all.
pub proof fn law_failed_write_ends_the_installation(
    enable_now: bool,
    ok: Seq<bool>,
    states: Seq<UnitState>,
)
    requires
        takes(install_steps(enable_now), ok, states),
        ok.len() >= 1,
        !ok[0],
    ensures
        ok.len() == 1,
        states.last().enabled == states.first().enabled,
        states.last().running == states.first().running,
{
    assert(install_steps(enable_now)[0].must_succeed());
}

/// An installation leaves the unit in place and enabled, and running where it
/// was to be started.
pub proof fn law_install_enables(state: UnitState, enable_now: bool)
    ensures
        state.after(install_steps(enable_now)).present,
        state.after(install_steps(enable_now)).enabled,
        enable_now ==> state.after(install_steps(enable_now)).running,
        !enable_now ==> state.after(install_steps(enable_now)).running == state.running,
{
    reveal_with_fuel(UnitState::after, 7);
}

/// A removal undoes an installation: the unit is gone, is not enabled and does
/// not run.
pub proof fn law_uninstall_undoes_install(state: UnitState, enable_now: bool)
    ensures
        state.after(install_steps(enable_now)).after(uninstall_steps(true)) == (UnitState {
            present: false,
            enabled: false,
            running: false,
        }),
{
    reveal_with_fuel(UnitState::after, 7);
}

/// A removal changes nothing where there is no unit.
pub proof fn law_uninstall_without_unit_changes_nothing(state: UnitState)
    ensures
        state.after(uninstall_steps(false)) == state,
{
    reveal_with_fuel(UnitState::after, 3);
}

/// The unit's command runs the program to connect with the protocol and on the
/// interface. Each further argument adds itself and changes nothing else: a
/// configuration file, leaving the name servers alone, and a log file, in that
/// order, whichever of them are given.
pub proof fn law_each_argument_adds_itself(
    exec_path: Seq<char>,
    config: Option<Seq<char>>,
    protocol: Seq<char>,
    interface: Seq<char>,
    no_dns: bool,
    log_file: Option<Seq<char>>,
    path: Seq<char>,
)
    ensures
        command_text(exec_path, None, protocol, interface, false, None) == exec_path
            + " connect --protocol "@ + protocol + " --interface "@ + interface,
        command_text(exec_path, Some(path), protocol, interface, false, None) == command_text(
            exec_path,
            None,
            protocol,
            interface,
            false,
            None,
        ) + " --config "@ + path,
        command_text(exec_path, config, protocol, interface, true, None) == command_text(
            exec_path,
            config,
            protocol,
            interface,
            false,
            None,
        ) + " --no-dns"@,
        command_text(exec_path, config, protocol, interface, no_dns, Some(path)) == command_text(
            exec_path,
            config,
            protocol,
            interface,
            no_dns,
            None,
        ) + " --log-file "@ + path,
{
    assert(command_text(exec_path, None, protocol, interface, false, None) =~= exec_path
        + " connect --protocol "@ + protocol + " --interface "@ + interface);
    assert(command_text(exec_path, Some(path), protocol, interface, false, None) =~= command_text(
        exec_path,
        None,
        protocol,
        interface,
        false,
        None,
    ) + " --config "@ + path);
    assert(command_text(exec_path, config, protocol, interface, true, None) =~= command_text(
        exec_path,
        config,
        protocol,
        interface,
        false,
        None,
    ) + " --no-dns"@);
    assert(command_text(exec_path, config, protocol, interface, no_dns, Some(path))
        =~= command_text(exec_path, config, protocol, interface, no_dns, None) + " --log-file "@
        + path);
}

/// Leaving the name servers alone is one argument, whatever the others are: the
/// commands with it and without it differ in nothing else.
pub proof fn law_no_dns_is_one_argument(
    exec_path: Seq<char>,
    config: Option<Seq<char>>,
    protocol: Seq<char>,
    interface: Seq<char>,
    log_file: Option<Seq<char>>,
)
    ensures
        exists|before: Seq<char>, after: Seq<char>|
            #![trigger before + after]
            {
                &&& command_text(exec_path, config, protocol, interface, false, log_file) == before
                    + after
                &&& command_text(exec_path, config, protocol, interface, true, log_file) == before
                    + " --no-dns"@ + after
                &&& before == command_text(exec_path, config, protocol, interface, false, None)
            },
{
    let before = command_text(exec_path, config, protocol, interface, false, None);
    let after = option_text(" --log-file "@, log_file);
    assert(command_text(exec_path, config, protocol, interface, false, log_file) =~= before
        + after);
    assert(command_text(exec_path, config, protocol, interface, true, log_file) =~= before
        + " --no-dns"@ + after);
}

/// Whether every unit is the three given texts with, between them, the protocol
/// and the lines for the token file, where one is given, and for the command.
pub open spec fn is_every_unit(head: Seq<char>, middle: Seq<char>, end: Seq<char>) -> bool {
    forall|
        exec_path: Seq<char>,
        config: Option<Seq<char>>,
        protocol: Seq<char>,
        interface: Seq<char>,
        no_dns: bool,
        log_file: Option<Seq<char>>,
        token_file: Option<Seq<char>>,
    |
        #[trigger]
        unit_text(exec_path, config, protocol, interface, no_dns, log_file, token_file) == head
            + protocol + middle + (match token_file {
            Some(path) => "Environment=FLOPPA_TOKEN_FILE="@ + path + "\n"@,
            None => Seq::empty(),
        }) + ("ExecStart="@ + command_text(
            exec_path,
            config,
            protocol,
            interface,
            no_dns,
            log_file,
        ) + "\n"@) + end
}

proof fn lemma_unit_around(protocol: Seq<char>, environment: Seq<char>, command: Seq<char>)
    ensures
        unit_around(protocol, environment, command)
            == "[Unit]\nDescription=Floppa VPN CLI client ("@ + protocol + UNIT_AFTER_PROTOCOL@
            + environment + ("ExecStart="@ + command + "\n"@) + (UNIT_AFTER_COMMAND@
            + "RestartPreventExitStatus="@ + decimal(EXIT_AUTH as nat) + "\n"@ + UNIT_END@),
{
    assert(unit_around(protocol, environment, command)
        =~= "[Unit]\nDescription=Floppa VPN CLI client ("@ + protocol + UNIT_AFTER_PROTOCOL@
        + environment + ("ExecStart="@ + command + "\n"@) + (UNIT_AFTER_COMMAND@
        + "RestartPreventExitStatus="@ + decimal(EXIT_AUTH as nat) + "\n"@ + UNIT_END@));
}

/// A unit says the same whatever it is made for, but for three places: its
/// description names the protocol, a line names the token file where one is
/// given, and a line runs the command.
pub proof fn law_units_differ_in_three_places()
    ensures
        exists|head: Seq<char>, middle: Seq<char>, end: Seq<char>| #[trigger]
            is_every_unit(head, middle, end),
{
    let head = "[Unit]\nDescription=Floppa VPN CLI client ("@;
    let middle = UNIT_AFTER_PROTOCOL@;
    let end = UNIT_AFTER_COMMAND@ + "RestartPreventExitStatus="@ + decimal(EXIT_AUTH as nat)
        + "\n"@ + UNIT_END@;
    assert forall|
        exec_path: Seq<char>,
        config: Option<Seq<char>>,
        protocol: Seq<char>,
        interface: Seq<char>,
        no_dns: bool,
        log_file: Option<Seq<char>>,
        token_file: Option<Seq<char>>,
    |
        #[trigger]
        unit_text(exec_path, config, protocol, interface, no_dns, log_file, token_file) == head
            + protocol + middle + (match token_file {
            Some(path) => "Environment=FLOPPA_TOKEN_FILE="@ + path + "\n"@,
            None => Seq::empty(),
        }) + ("ExecStart="@ + command_text(
            exec_path,
            config,
            protocol,
            interface,
            no_dns,
            log_file,
        ) + "\n"@) + end by {
        lemma_unit_around(
            protocol,
            environment_text(token_file),
            command_text(exec_path, config, protocol, interface, no_dns, log_file),
        );
    }
    assert(is_every_unit(head, middle, end));
}

/// A unit that is printed where the path of this program is unknown runs the
/// program at its usual place; an installation takes the configuration file
/// that was found, and none where the server is to be asked.
pub proof fn law_usual_place_of_the_program(
    config: Option<Seq<char>>,
    protocol: Seq<char>,
    interface: Seq<char>,
    no_dns: bool,
    log_file: Option<Seq<char>>,
    token_file: Option<Seq<char>>,
    path: &str,
)
    ensures
        printed_text(None, config, protocol, interface, no_dns, log_file, token_file) == unit_text(
            "/usr/local/bin/floppa-cli"@,
            config,
            protocol,
            interface,
            no_dns,
            log_file,
            token_file,
        ),
        config_path(ConfigFile::Found(path)) == Some(path@),
        config_path(ConfigFile::FromServer) is None,
{
}

/// A user id is read from the number that `id -u` prints, whatever white space
/// stands around it, and where it prints no such number, or failed, or did not
/// run, the user is nobody in particular and not root.
pub proof fn law_user_id_is_read(n: u32, lead: Seq<char>, trail: Seq<char>, out: CommandOutput)
    requires
        all_white(lead),
        all_white(trail),
    ensures
        uid_in(lead + decimal(n as nat) + trail) == n,
        parsed_u32(trimmed(utf8_lossy(out.stdout@))) is None ==> uid_of(Some(out)) == 1,
        !out.success ==> uid_of(Some(out)) == 1,
        out.success ==> uid_of(Some(out)) == uid_in(utf8_lossy(out.stdout@)),
        uid_of(None) == 1,
{
    let digits = decimal(n as nat);
    lemma_decimal(n as nat);
    assert('0' <= digits[0] <= '9');
    assert('0' <= digits[digits.len() - 1] <= '9');
    law_trimming_takes_the_white_space_around(lead, digits, trail);
    law_number_is_read_as_written(n as nat, 0);
    assert(repeated('0', 0) + digits =~= digits);
}

/// An error says what it is about: the file that is not there, as it was named,
/// or the call of `systemctl` with its arguments, and with its exit status
/// where it has one.
pub proof fn law_errors_say_what_they_are_about(path: String, call: Systemctl, code: i32)
    ensures
        error_text(ServiceError::ConfigNotFound(path)) == "Config file not found: "@ + path@,
        error_text(ServiceError::SystemctlNotRun(call)) == "Failed to run: systemctl "@ + spaced(
            call.arguments(),
        ),
        error_text(ServiceError::SystemctlFailed(call, Some(code))) == "systemctl "@ + spaced(
            call.arguments(),
        ) + " failed (exit "@ + ("Some("@ + signed_decimal(code as int) + ")"@) + ")"@,
        error_text(ServiceError::SystemctlFailed(call, None)) == "systemctl "@ + spaced(
            call.arguments(),
        ) + " failed (exit "@ + "None"@ + ")"@,
{
}

/// Only a step that is merely tried may fail without ending the work.
pub proof fn law_only_tried_steps_may_fail(step: ServiceStep)
    ensures
        !step.must_succeed() <==> (step matches ServiceStep::Try(_)),
{
}

/// Where the unit cannot be enabled, an installation ends there: nobody is told
/// that it was, and the unit that was written stays.
pub proof fn law_failed_enabling_ends_the_installation(
    enable_now: bool,
    ok: Seq<bool>,
    states: Seq<UnitState>,
)
    requires
        takes(install_steps(enable_now), ok, states),
        ok.len() >= 4,
        !ok[3],
    ensures
        ok.len() == 4,
        states.last().present,
{
    let steps = install_steps(enable_now);
    assert(steps[0].must_succeed() && steps[2].must_succeed() && steps[3].must_succeed());
    assert(ok[0] && ok[1] && ok[2]);
    lemma_file_stays(steps, ok, states, 3);
}

}
