//! The commands of the program, and what each of them does next.

use crate::exit::{status_of, Failure, Outcome, EXIT_AUTH};
use crate::numerals::{push_repeated, repeated, signed_chars, signed_decimal};
use crate::text::{
    all_white, chars_of, is_white, law_every_text_has_a_core, same_text, starts_with, string_of,
    trim, trimmed,
};
use crate::time::UnixTime;
use crate::token::{expiry_of, expiry_warning, warn_if_expiring, LOGGED_OUT};
use vstd::prelude::*;
use vstd::string::StringExecFns;

verus! {

/// The server that is asked unless another one is named.
pub const DEFAULT_API_URL: &'static str = "https://floppa.okhsunrog.dev/api";

/// Whether a configuration is the URI of a VLESS server.
pub open spec fn is_vless_text(config: Seq<char>) -> bool {
    "vless://"@.is_prefix_of(trimmed(config))
}

/// Tells whether a configuration is the URI of a VLESS server.
pub fn is_vless(config_str: &str) -> (r: bool)
    ensures
        r == is_vless_text(config_str@),
{
    let chars = chars_of(config_str);
    let scheme = chars_of("vless://");
    starts_with(trim(chars.as_slice()), scheme.as_slice())
}

/// What the program is asked to do.
#[derive(Debug)]
pub enum Command {
    /// Log in with the browser.
    Login { api_url: String },
    /// Connect, with the configuration in a file or with one from the server.
    Connect {
        config: Option<String>,
        protocol: String,
        interface: String,
        no_dns: bool,
        api_url: String,
    },
    /// List the peers.
    Peers { api_url: String },
    /// Print a configuration from the server.
    Config { protocol: String, peer_id: Option<i64>, api_url: String },
    /// Forget the token.
    Logout,
    /// Manage the systemd unit.
    Service(ServiceAction),
}

/// What is to be done with the systemd unit.
#[derive(Debug)]
pub enum ServiceAction {
    Install {
        config: Option<String>,
        protocol: String,
        interface: String,
        no_dns: bool,
        log_file: Option<String>,
        no_start: bool,
    },
    Uninstall,
    Print {
        config: Option<String>,
        protocol: String,
        interface: String,
        no_dns: bool,
        log_file: Option<String>,
    },
}

/// What the program is asked to do, and where the token is kept if not in its
/// usual place.
#[derive(Debug)]
pub struct Cli {
    pub token_file: Option<String>,
    pub command: Command,
}

/// What a systemd unit is made for.
#[derive(Debug)]
pub struct UnitArguments {
    pub config: Option<String>,
    pub protocol: String,
    pub interface: String,
    pub no_dns: bool,
    pub log_file: Option<String>,
    pub token_file: Option<String>,
}

/// A user's subscription.
#[derive(Debug)]
pub struct Subscription {
    pub plan_name: String,
    pub speed_limit_mbps: Option<i64>,
}

/// A peer of the user's.
#[derive(Debug)]
pub struct Peer {
    pub id: i64,
    pub assigned_ip: String,
    pub sync_status: String,
    pub device_name: Option<String>,
}

/// What a run waits for.
#[derive(Debug)]
pub enum Stage {
    /// To begin.
    Begin,
    /// For the configuration file.
    ConfigFile,
    /// For the saved token.
    SavedToken,
    /// For the user's account, asked for with this token.
    Account { token: String },
    /// For a configuration from the server.
    ServerConfig,
    /// For the user's peers.
    PeerList,
    /// For the last action to end.
    LastAction,
    /// For nothing any more.
    Over,
}

/// What a run is told.
#[derive(Debug)]
pub enum Event {
    /// The run begins.
    Started,
    /// The configuration that was read or fetched.
    Fetched(String),
    /// The saved token, if there is one, and the time at which it was looked up.
    Token { token: Option<String>, now: UnixTime },
    /// The user's subscription, if there is one.
    Account(Option<Subscription>),
    /// The user's peers.
    Peers(Vec<Peer>),
    /// The last action ended.
    Ended,
    /// The action that the run waits for failed.
    Failed(Failure),
}

/// Why a run fails of its own accord.
#[derive(Clone, Copy, Debug, PartialEq, Eq, Structural)]
pub enum RunError {
    NotLoggedIn,
    NoSubscription,
}

/// What the user is told of an error.
pub open spec fn error_text(error: RunError) -> Seq<char> {
    match error {
        RunError::NotLoggedIn => "Not logged in. Run `floppa-cli login` first."@,
        RunError::NoSubscription => "No active subscription"@,
    }
}

impl RunError {
    /// What the user is told.
    pub fn message(&self) -> (text: &'static str)
        ensures
            text@ == error_text(*self),
    {
        match self {
            RunError::NotLoggedIn => "Not logged in. Run `floppa-cli login` first.",
            RunError::NoSubscription => "No active subscription",
        }
    }
}

/// What is to be done next, with all that it takes.
#[derive(Debug)]
pub enum Action {
    /// Log in at the server, and save the token.
    Login { api_url: String, token_file: Option<String> },
    /// Read the configuration file.
    ReadFile { path: String },
    /// Look up the saved token.
    LoadToken { token_file: Option<String> },
    /// Ask the server for the user's account.
    GetAccount { api_url: String, token: String },
    /// Ask the server for the VLESS configuration.
    GetVlessConfig { api_url: String, token: String },
    /// Ask the server for a peer of the given protocol, and for a new one where
    /// there is none, and fetch its configuration.
    FindOrCreatePeer { api_url: String, token: String, protocol: String },
    /// Ask the server for the configuration of a peer.
    GetPeerConfig { api_url: String, token: String, id: i64 },
    /// Ask the server for the user's peers.
    ListPeers { api_url: String, token: String },
    /// Keep a WireGuard tunnel up on the interface.
    ConnectWireguard { config: String, interface: String, no_dns: bool },
    /// Keep a VLESS tunnel up on the interface.
    ConnectVless { config: String, interface: String, no_dns: bool },
    /// Log out.
    Logout { token_file: Option<String> },
    /// Install the systemd unit, and start it where it is to be started.
    Install { unit: UnitArguments, enable_now: bool },
    /// Remove the systemd unit.
    Uninstall,
    /// Print the systemd unit.
    PrintUnit { unit: UnitArguments },
    /// End well.
    Finish,
    /// End with an error.
    Fail(RunError),
    /// End with the failure of the last action.
    Abort(Failure),
}

/// Whether a run whose action is to end ends with the given outcome.
pub open spec fn ends_with(action: Action, outcome: Outcome) -> bool {
    match action {
        Action::Finish => outcome is Done,
        Action::Fail(error) => outcome matches Outcome::Failed(reason) && reason@ == error_text(
            error,
        ),
        Action::Abort(Failure::Rejected) => outcome is Rejected,
        Action::Abort(Failure::Other(cause)) => outcome matches Outcome::Failed(reason) && reason@
            == cause@,
        _ => false,
    }
}

impl Action {
    /// Whether the action is to end.
    pub open spec fn is_end(self) -> bool {
        self is Finish || self is Fail || self is Abort
    }

    /// The outcome of a run whose action is to end.
    pub fn outcome(&self) -> (r: Option<Outcome>)
        ensures
            match r {
                Some(outcome) => ends_with(*self, outcome),
                None => !self.is_end(),
            },
    {
        match self {
            Action::Finish => Some(Outcome::Done),
            Action::Fail(error) => Some(Outcome::Failed(error.message().to_owned())),
            Action::Abort(failure) => match failure {
                Failure::Rejected => Some(Outcome::Rejected),
                Failure::Other(cause) => Some(Outcome::Failed(cause.clone())),
            },
            _ => None,
        }
    }
}

/// Where a piece of output goes.
#[derive(Clone, Copy, Debug, PartialEq, Eq, Structural)]
pub enum Channel {
    /// A line for the user, beside the output proper.
    Note,
    /// A line of the output proper.
    Line,
    /// Output proper without a line ending.
    Raw,
}

/// A piece of output.
#[derive(Debug)]
pub struct Output {
    pub channel: Channel,
    pub text: String,
}

/// What a run does after an event.
#[derive(Debug)]
pub struct Step {
    /// What is put out first.
    pub outputs: Vec<Output>,
    /// What the run waits for from then on.
    pub stage: Stage,
    /// What is to be done.
    pub action: Action,
}

/// Whether the command takes its configuration from a file.
pub open spec fn uses_file(command: Command) -> bool {
    command matches Command::Connect { config: Some(_), .. }
}

/// Whether the command needs the saved token.
pub open spec fn needs_token(command: Command) -> bool {
    match command {
        Command::Connect { config, .. } => config is None,
        Command::Peers { .. } => true,
        Command::Config { .. } => true,
        _ => false,
    }
}

/// Whether a run of the command can wait for what the stage says.
pub open spec fn can_wait(command: Command, stage: Stage) -> bool {
    match stage {
        Stage::Begin => true,
        Stage::ConfigFile => uses_file(command),
        Stage::SavedToken => needs_token(command),
        Stage::Account { .. } => needs_token(command) && command is Connect,
        Stage::ServerConfig => needs_token(command) && (command is Connect || command is Config),
        Stage::PeerList => command is Peers,
        Stage::LastAction => !(command is Peers || command is Config),
        Stage::Over => true,
    }
}

/// Whether the event is what the stage waits for: what came of the action
/// before, or that it failed.
pub open spec fn answers(stage: Stage, event: Event) -> bool {
    match stage {
        Stage::Begin => event is Started,
        Stage::ConfigFile => event is Fetched || event is Failed,
        Stage::SavedToken => event is Token || event is Failed,
        Stage::Account { .. } => event is Account || event is Failed,
        Stage::ServerConfig => event is Fetched || event is Failed,
        Stage::PeerList => event is Peers || event is Failed,
        Stage::LastAction => event is Ended || event is Failed,
        Stage::Over => false,
    }
}

/// The connection that a configuration asks for, on the given interface and
/// with the given choice about name servers.
pub open spec fn connection(config: String, interface: String, no_dns: bool) -> Action {
    if is_vless_text(config@) {
        Action::ConnectVless { config, interface, no_dns }
    } else {
        Action::ConnectWireguard { config, interface, no_dns }
    }
}

/// How a configuration is asked for from the server: that of VLESS, that of
/// the peer named, or that of any peer of the protocol.
pub open spec fn config_request(
    api_url: String,
    token: String,
    protocol: String,
    peer_id: Option<i64>,
) -> Action {
    if protocol@ == "vless"@ {
        Action::GetVlessConfig { api_url, token }
    } else {
        match peer_id {
            Some(id) => Action::GetPeerConfig { api_url, token, id },
            None => Action::FindOrCreatePeer { api_url, token, protocol },
        }
    }
}

/// What a run waits for after it has begun, and what it does first.
pub open spec fn first(cli: Cli) -> (Stage, Action) {
    let token_file = cli.token_file;
    match cli.command {
        Command::Login { api_url } => (Stage::LastAction, Action::Login { api_url, token_file }),
        Command::Connect { config: Some(path), .. } => (
            Stage::ConfigFile,
            Action::ReadFile { path },
        ),
        Command::Connect { config: None, .. } => (
            Stage::SavedToken,
            Action::LoadToken { token_file },
        ),
        Command::Peers { .. } => (Stage::SavedToken, Action::LoadToken { token_file }),
        Command::Config { .. } => (Stage::SavedToken, Action::LoadToken { token_file }),
        Command::Logout => (Stage::LastAction, Action::Logout { token_file }),
        Command::Service(
            ServiceAction::Install { config, protocol, interface, no_dns, log_file, no_start },
        ) => (
            Stage::LastAction,
            Action::Install {
                unit: UnitArguments { config, protocol, interface, no_dns, log_file, token_file },
                enable_now: !no_start,
            },
        ),
        Command::Service(ServiceAction::Uninstall) => (Stage::LastAction, Action::Uninstall),
        Command::Service(
            ServiceAction::Print { config, protocol, interface, no_dns, log_file },
        ) => (
            Stage::LastAction,
            Action::PrintUnit {
                unit: UnitArguments { config, protocol, interface, no_dns, log_file, token_file },
            },
        ),
    }
}

/// What a run does with the saved token.
pub open spec fn with_token(command: Command, token: String) -> (Stage, Action) {
    match command {
        Command::Connect { api_url, .. } => (
            Stage::Account { token },
            Action::GetAccount { api_url, token },
        ),
        Command::Peers { api_url } => (Stage::PeerList, Action::ListPeers { api_url, token }),
        Command::Config { protocol, peer_id, api_url } => (
            Stage::ServerConfig,
            config_request(api_url, token, protocol, peer_id),
        ),
        _ => (Stage::Over, Action::Finish),
    }
}

/// What a run does with a configuration: a command to connect connects with it.
pub open spec fn with_config(command: Command, config: String) -> (Stage, Action) {
    match command {
        Command::Connect { interface, no_dns, .. } => (
            Stage::LastAction,
            connection(config, interface, no_dns),
        ),
        _ => (Stage::Over, Action::Finish),
    }
}

/// What a run waits for after an event, and what it does.
pub open spec fn next(cli: Cli, stage: Stage, event: Event) -> (Stage, Action) {
    match (stage, event) {
        (_, Event::Failed(failure)) => (Stage::Over, Action::Abort(failure)),
        (Stage::Begin, _) => first(cli),
        (Stage::ConfigFile, Event::Fetched(config)) => with_config(cli.command, config),
        (Stage::SavedToken, Event::Token { token: Some(token), .. }) => with_token(
            cli.command,
            token,
        ),
        (Stage::SavedToken, _) => (Stage::Over, Action::Fail(RunError::NotLoggedIn)),
        (Stage::Account { token }, Event::Account(Some(_))) => match cli.command {
            Command::Connect { protocol, api_url, .. } => (
                Stage::ServerConfig,
                config_request(api_url, token, protocol, None),
            ),
            _ => (Stage::Over, Action::Finish),
        },
        (Stage::Account { .. }, _) => (Stage::Over, Action::Fail(RunError::NoSubscription)),
        (Stage::ServerConfig, Event::Fetched(config)) => with_config(cli.command, config),
        _ => (Stage::Over, Action::Finish),
    }
}

/// The speed limit of a subscription, in words.
pub open spec fn speed_text(limit: Option<i64>) -> Seq<char> {
    match limit {
        Some(mbps) => signed_decimal(mbps as int) + " Mbps"@,
        None => "unlimited"@,
    }
}

/// What the user is told of a subscription.
pub open spec fn plan_text(subscription: Subscription) -> Seq<char> {
    "Plan: "@ + subscription.plan_name@ + " (speed limit: "@ + speed_text(
        subscription.speed_limit_mbps,
    ) + ")"@
}

/// A text, filled up with spaces until it takes `width` characters.
pub open spec fn padded(s: Seq<char>, width: int) -> Seq<char> {
    s + repeated(' ', width - s.len())
}

/// A row of the table of peers.
pub open spec fn row_text(
    id: Seq<char>,
    ip: Seq<char>,
    status: Seq<char>,
    device: Seq<char>,
) -> Seq<char> {
    padded(id, 6) + " "@ + padded(ip, 18) + " "@ + padded(status, 14) + " "@ + device
}

/// The row of a peer; a dash stands for a device without a name.
pub open spec fn peer_text(peer: Peer) -> Seq<char> {
    row_text(
        signed_decimal(peer.id as int),
        peer.assigned_ip@,
        peer.sync_status@,
        match peer.device_name {
            Some(name) => name@,
            None => "-"@,
        },
    )
}

/// The table of peers, or word that there are none.
pub open spec fn peers_output(peers: Seq<Peer>) -> Seq<(Channel, Seq<char>)> {
    if peers.len() == 0 {
        seq![(Channel::Note, "No peers found."@)]
    } else {
        seq![(Channel::Line, row_text("ID"@, "IP"@, "Status"@, "Device"@))] + peers.map_values(
            |peer: Peer| (Channel::Line, peer_text(peer)),
        )
    }
}

/// What a run puts out after an event.
pub open spec fn outputs_after(command: Command, stage: Stage, event: Event) -> Seq<
    (Channel, Seq<char>),
> {
    match (stage, event) {
        (Stage::SavedToken, Event::Token { token: Some(token), now }) => if command is Connect {
            match expiry_warning(expiry_of(token@), now) {
                Some(warning) => seq![(Channel::Note, warning)],
                None => Seq::empty(),
            }
        } else {
            Seq::empty()
        },
        (Stage::Account { .. }, Event::Account(Some(subscription))) => seq![
            (Channel::Note, plan_text(subscription)),
        ],
        (Stage::ServerConfig, Event::Fetched(config)) => if command is Config {
            seq![(Channel::Raw, config@)]
        } else {
            Seq::empty()
        },
        (Stage::PeerList, Event::Peers(peers)) => peers_output(peers@),
        (Stage::LastAction, Event::Ended) => if command is Logout {
            seq![(Channel::Note, LOGGED_OUT@)]
        } else {
            Seq::empty()
        },
        _ => Seq::empty(),
    }
}

/// Pieces of output, each as where it goes and what it says.
pub open spec fn shown(outputs: Seq<Output>) -> Seq<(Channel, Seq<char>)> {
    outputs.map_values(|output: Output| (output.channel, output.text@))
}

/// Renders the speed limit of a subscription.
fn speed(limit: Option<i64>) -> (text: String)
    ensures
        text@ == speed_text(limit),
{
    match limit {
        Some(mbps) => {
            let mut text = string_of(signed_chars(mbps).as_slice());
            text.append(" Mbps");
            text
        },
        None => "unlimited".to_owned(),
    }
}

impl Subscription {
    /// What the user is told of the subscription.
    pub fn line(&self) -> (text: String)
        ensures
            text@ == plan_text(*self),
    {
        let mut text = "Plan: ".to_owned();
        text.append(self.plan_name.as_str());
        text.append(" (speed limit: ");
        text.append(speed(self.speed_limit_mbps).as_str());
        text.append(")");
        text
    }
}

/// Fills a text up with spaces until it takes `width` characters.
fn pad(s: &str, width: usize) -> (r: String)
    ensures
        r@ == padded(s@, width as int),
{
    let mut chars = chars_of(s);
    if chars.len() < width {
        let missing: usize = width - chars.len();
        push_repeated(&mut chars, ' ', missing);
    } else {
        assert(chars@ =~= padded(s@, width as int));
    }
    string_of(chars.as_slice())
}

/// Renders a row of the table of peers.
fn row(id: &str, ip: &str, status: &str, device: &str) -> (text: String)
    ensures
        text@ == row_text(id@, ip@, status@, device@),
{
    let mut text = pad(id, 6);
    text.append(" ");
    text.append(pad(ip, 18).as_str());
    text.append(" ");
    text.append(pad(status, 14).as_str());
    text.append(" ");
    text.append(device);
    text
}

impl Peer {
    /// The row of the peer in the table of peers.
    pub fn row(&self) -> (text: String)
        ensures
            text@ == peer_text(*self),
    {
        let id = string_of(signed_chars(self.id).as_slice());
        let device: &str = match &self.device_name {
            Some(name) => name.as_str(),
            None => "-",
        };
        row(id.as_str(), self.assigned_ip.as_str(), self.sync_status.as_str(), device)
    }
}

/// Renders the table of peers, or word that there are none.
pub fn peer_table(peers: &Vec<Peer>) -> (outputs: Vec<Output>)
    ensures
        shown(outputs@) == peers_output(peers@),
{
    let mut outputs: Vec<Output> = Vec::new();
    if peers.len() == 0 {
        outputs.push(Output { channel: Channel::Note, text: "No peers found.".to_owned() });
        assert(shown(outputs@) =~= peers_output(peers@));
        return outputs;
    }
    outputs.push(Output { channel: Channel::Line, text: row("ID", "IP", "Status", "Device") });
    let mut i: usize = 0;
    while i < peers.len()
        invariant
            i <= peers@.len(),
            outputs@.len() == i + 1,
            outputs@[0].channel == Channel::Line,
            outputs@[0].text@ == row_text("ID"@, "IP"@, "Status"@, "Device"@),
            forall|j: int|
                0 <= j < i ==> (#[trigger] outputs@[j + 1]).channel == Channel::Line && outputs@[j
                    + 1].text@ == peer_text(peers@[j]),
        decreases peers@.len() - i,
    {
        outputs.push(Output { channel: Channel::Line, text: peers[i].row() });
        i += 1;
    }
    assert(shown(outputs@) =~= peers_output(peers@)) by {
        assert forall|k: int| 0 <= k < outputs@.len() implies shown(outputs@)[k] == peers_output(
            peers@,
        )[k] by {
            if k > 0 {
                assert(outputs@[(k - 1) + 1].text@ == peer_text(peers@[k - 1]));
            }
        }
    }
    outputs
}

/// What the user is told where the configuration file cannot be read.
pub fn read_failure(path: &str) -> (text: String)
    ensures
        text@ == "Failed to read config file: "@ + path@,
{
    let mut text = "Failed to read config file: ".to_owned();
    text.append(path);
    text
}

/// The same text, where there is one.
fn same(text: &Option<String>) -> (r: Option<String>)
    ensures
        r == *text,
{
    match text {
        Some(text) => Some(text.clone()),
        None => None,
    }
}

/// Chooses what a run does with a configuration.
fn use_config(command: &Command, config: &String) -> (r: (Stage, Action))
    ensures
        r == with_config(*command, *config),
{
    match command {
        Command::Connect { interface, no_dns, .. } => {
            let config_str = config.clone();
            let interface = interface.clone();
            let no_dns: bool = *no_dns;
            if is_vless(config.as_str()) {
                (
                    Stage::LastAction,
                    Action::ConnectVless { config: config_str, interface, no_dns },
                )
            } else {
                (
                    Stage::LastAction,
                    Action::ConnectWireguard { config: config_str, interface, no_dns },
                )
            }
        },
        _ => (Stage::Over, Action::Finish),
    }
}

/// Chooses how a configuration is asked for from the server.
fn request_config(
    api_url: &String,
    token: &String,
    protocol: &String,
    peer_id: Option<i64>,
) -> (action: Action)
    ensures
        action == config_request(*api_url, *token, *protocol, peer_id),
{
    let api_url = api_url.clone();
    let token = token.clone();
    if same_text(protocol.as_str(), "vless") {
        Action::GetVlessConfig { api_url, token }
    } else {
        match peer_id {
            Some(id) => Action::GetPeerConfig { api_url, token, id },
            None => Action::FindOrCreatePeer { api_url, token, protocol: protocol.clone() },
        }
    }
}

/// Collects what a systemd unit is made for.
fn unit_arguments(
    config: &Option<String>,
    protocol: &String,
    interface: &String,
    no_dns: bool,
    log_file: &Option<String>,
    token_file: &Option<String>,
) -> (unit: UnitArguments)
    ensures
        unit == (UnitArguments {
            config: *config,
            protocol: *protocol,
            interface: *interface,
            no_dns,
            log_file: *log_file,
            token_file: *token_file,
        }),
{
    UnitArguments {
        config: same(config),
        protocol: protocol.clone(),
        interface: interface.clone(),
        no_dns,
        log_file: same(log_file),
        token_file: same(token_file),
    }
}

/// Chooses the first action of a run.
fn begin(cli: &Cli) -> (r: (Stage, Action))
    ensures
        r == first(*cli),
{
    let token_file = same(&cli.token_file);
    match &cli.command {
        Command::Login { api_url } => (
            Stage::LastAction,
            Action::Login { api_url: api_url.clone(), token_file },
        ),
        Command::Connect { config, .. } => match config {
            Some(path) => (Stage::ConfigFile, Action::ReadFile { path: path.clone() }),
            None => (Stage::SavedToken, Action::LoadToken { token_file }),
        },
        Command::Peers { .. } => (Stage::SavedToken, Action::LoadToken { token_file }),
        Command::Config { .. } => (Stage::SavedToken, Action::LoadToken { token_file }),
        Command::Logout => (Stage::LastAction, Action::Logout { token_file }),
        Command::Service(action) => match action {
            ServiceAction::Install { config, protocol, interface, no_dns, log_file, no_start } => {
                let unit = unit_arguments(
                    config,
                    protocol,
                    interface,
                    *no_dns,
                    log_file,
                    &cli.token_file,
                );
                (Stage::LastAction, Action::Install { unit, enable_now: !*no_start })
            },
            ServiceAction::Uninstall => (Stage::LastAction, Action::Uninstall),
            ServiceAction::Print { config, protocol, interface, no_dns, log_file } => {
                let unit = unit_arguments(
                    config,
                    protocol,
                    interface,
                    *no_dns,
                    log_file,
                    &cli.token_file,
                );
                (Stage::LastAction, Action::PrintUnit { unit })
            },
        },
    }
}

/// Chooses what a run does with the saved token.
fn use_token(command: &Command, token: &String) -> (r: (Stage, Action))
    ensures
        r == with_token(*command, *token),
{
    match command {
        Command::Connect { api_url, .. } => (
            Stage::Account { token: token.clone() },
            Action::GetAccount { api_url: api_url.clone(), token: token.clone() },
        ),
        Command::Peers { api_url } => (
            Stage::PeerList,
            Action::ListPeers { api_url: api_url.clone(), token: token.clone() },
        ),
        Command::Config { protocol, peer_id, api_url } => (
            Stage::ServerConfig,
            request_config(api_url, token, protocol, *peer_id),
        ),
        _ => (Stage::Over, Action::Finish),
    }
}

/// Ends a run with the failure of its last action.
fn abort(failure: &Failure) -> (action: Action)
    ensures
        action == Action::Abort(*failure),
{
    match failure {
        Failure::Rejected => Action::Abort(Failure::Rejected),
        Failure::Other(cause) => Action::Abort(Failure::Other(cause.clone())),
    }
}

/// One piece of output.
fn one_output(channel: Channel, text: String) -> (outputs: Vec<Output>)
    ensures
        shown(outputs@) == seq![(channel, text@)],
{
    let mut outputs: Vec<Output> = Vec::new();
    outputs.push(Output { channel, text });
    assert(shown(outputs@) =~= seq![(channel, text@)]);
    outputs
}

/// No output.
fn no_output() -> (outputs: Vec<Output>)
    ensures
        shown(outputs@) == Seq::<(Channel, Seq<char>)>::empty(),
{
    let outputs: Vec<Output> = Vec::new();
    assert(shown(outputs@) =~= Seq::<(Channel, Seq<char>)>::empty());
    outputs
}

/// Takes a run one step further: tells what it puts out, does and waits for
/// after an event.
pub fn run(cli: &Cli, stage: &Stage, event: &Event) -> (step: Step)
    requires
        can_wait(cli.command, *stage),
        answers(*stage, *event),
        event matches Event::Token { now, .. } ==> now.wf(),
    ensures
        (step.stage, step.action) == next(*cli, *stage, *event),
        shown(step.outputs@) == outputs_after(cli.command, *stage, *event),
{
    match (stage, event) {
        (_, Event::Failed(failure)) => {
            Step { outputs: no_output(), stage: Stage::Over, action: abort(failure) }
        },
        (Stage::Begin, _) => {
            let (stage, action) = begin(cli);
            Step { outputs: no_output(), stage, action }
        },
        (Stage::ConfigFile, Event::Fetched(config)) => {
            let (stage, action) = use_config(&cli.command, config);
            Step { outputs: no_output(), stage, action }
        },
        (Stage::SavedToken, Event::Token { token, now }) => match token {
            Some(token) => {
                let (stage, action) = use_token(&cli.command, token);
                let outputs = match &cli.command {
                    Command::Connect { .. } => match warn_if_expiring(token.as_str(), now) {
                        Some(warning) => one_output(Channel::Note, warning),
                        None => no_output(),
                    },
                    _ => no_output(),
                };
                Step { outputs, stage, action }
            },
            None => Step {
                outputs: no_output(),
                stage: Stage::Over,
                action: Action::Fail(RunError::NotLoggedIn),
            },
        },
        (Stage::Account { token }, Event::Account(subscription)) => match subscription {
            Some(subscription) => {
                let outputs = one_output(Channel::Note, subscription.line());
                match &cli.command {
                    Command::Connect { protocol, api_url, .. } => Step {
                        outputs,
                        stage: Stage::ServerConfig,
                        action: request_config(api_url, token, protocol, None),
                    },
                    _ => Step { outputs, stage: Stage::Over, action: Action::Finish },
                }
            },
            None => Step {
                outputs: no_output(),
                stage: Stage::Over,
                action: Action::Fail(RunError::NoSubscription),
            },
        },
        (Stage::ServerConfig, Event::Fetched(config)) => {
            let (stage, action) = use_config(&cli.command, config);
            let outputs = match &cli.command {
                Command::Config { .. } => one_output(Channel::Raw, config.clone()),
                _ => no_output(),
            };
            Step { outputs, stage, action }
        },
        (Stage::PeerList, Event::Peers(peers)) => Step {
            outputs: peer_table(peers),
            stage: Stage::Over,
            action: Action::Finish,
        },
        _ => {
            let outputs = match &cli.command {
                Command::Logout => one_output(Channel::Note, LOGGED_OUT.to_owned()),
                _ => no_output(),
            };
            Step { outputs, stage: Stage::Over, action: Action::Finish }
        },
    }
}

/// How many more events a run that waits for the given thing can take.
pub open spec fn events_left(stage: Stage) -> int {
    match stage {
        Stage::Begin => 5,
        Stage::SavedToken => 4,
        Stage::Account { .. } => 3,
        Stage::ConfigFile => 2,
        Stage::ServerConfig => 2,
        Stage::PeerList => 1,
        Stage::LastAction => 1,
        Stage::Over => 0,
    }
}

/// A run always comes to its end: every event brings it closer, what it waits
/// for next is what its command can wait for, and it is over just when its
/// action is to end.
pub proof fn law_run_comes_to_its_end(cli: Cli, stage: Stage, event: Event)
    requires
        can_wait(cli.command, stage),
        answers(stage, event),
    ensures
        ({
            let (later, action) = next(cli, stage, event);
            &&& can_wait(cli.command, later)
            &&& 0 <= events_left(later) < events_left(stage)
            &&& later is Over <==> action.is_end()
        }),
{
}

/// Whether an action may save a token: only a login does.
pub open spec fn saves_token(action: Action) -> bool {
    action is Login
}

/// An action that fails ends the run, at whatever stage, with that very
/// failure: nothing is put out any more, no tunnel comes up, no token is saved,
/// the server is not asked again, and no event follows.
pub proof fn law_failed_action_ends_the_run(cli: Cli, stage: Stage, failure: Failure)
    requires
        can_wait(cli.command, stage),
        answers(stage, Event::Failed(failure)),
    ensures
        ({
            let (later, action) = next(cli, stage, Event::Failed(failure));
            &&& action == Action::Abort(failure)
            &&& !connects(action) && !saves_token(action) && token_sent(action) is None
            &&& outputs_after(cli.command, stage, Event::Failed(failure)) == Seq::<
                (Channel, Seq<char>),
            >::empty()
            &&& forall|event: Event| !#[trigger] answers(later, event)
        }),
{
}

/// Every action but the ends can fail, and the run can be told so.
pub proof fn law_every_action_can_fail(
    cli: Cli,
    stage: Stage,
    event: Event,
    failure: Failure,
)
    requires
        can_wait(cli.command, stage),
        answers(stage, event),
    ensures
        ({
            let (later, action) = next(cli, stage, event);
            answers(later, Event::Failed(failure)) <==> !action.is_end()
        }),
{
}

/// A run ends with the exit status of a rejected token just when an action
/// failed because the token was rejected, and it ends well only where none
/// failed.
pub proof fn law_rejected_token_ends_the_run_with_auth(
    cli: Cli,
    stage: Stage,
    event: Event,
    outcome: Outcome,
)
    requires
        can_wait(cli.command, stage),
        answers(stage, event),
        ends_with(next(cli, stage, event).1, outcome),
    ensures
        status_of(outcome) == EXIT_AUTH <==> event == Event::Failed(Failure::Rejected),
        event matches Event::Failed(Failure::Other(cause)) ==> (outcome matches Outcome::Failed(
            reason,
        ) && reason@ == cause@),
        status_of(outcome) == 0 ==> !(event is Failed),
{
}

/// The token that an action hands to the server, where it asks the server
/// anything on the user's behalf.
pub open spec fn token_sent(action: Action) -> Option<String> {
    match action {
        Action::GetAccount { token, .. } => Some(token),
        Action::GetVlessConfig { token, .. } => Some(token),
        Action::FindOrCreatePeer { token, .. } => Some(token),
        Action::GetPeerConfig { token, .. } => Some(token),
        Action::ListPeers { token, .. } => Some(token),
        _ => None,
    }
}

/// The token that a run holds after an event.
pub open spec fn token_held(stage: Stage, event: Event) -> Option<String> {
    match (stage, event) {
        (Stage::SavedToken, Event::Token { token, .. }) => token,
        (Stage::Account { token }, _) => Some(token),
        _ => None,
    }
}

/// The server is asked with the token that was saved and with no other, and it
/// is not asked without one.
pub proof fn law_server_is_asked_with_the_saved_token(cli: Cli, stage: Stage, event: Event)
    requires
        can_wait(cli.command, stage),
        answers(stage, event),
    ensures
        ({
            let (later, action) = next(cli, stage, event);
            &&& token_sent(action) is Some ==> token_sent(action) == token_held(stage, event)
            &&& later matches Stage::Account { token } ==> Some(token) == token_held(stage, event)
        }),
{
}

/// Without a saved token a command that needs one fails with word of that, and
/// does nothing else.
pub proof fn law_no_token_no_service(cli: Cli, now: UnixTime)
    requires
        needs_token(cli.command),
    ensures
        next(cli, Stage::SavedToken, (Event::Token { token: None, now })) == (
            Stage::Over,
            Action::Fail(RunError::NotLoggedIn),
        ),
{
}

/// Who connects with a configuration file needs neither a token nor the
/// server: neither is asked for at any step.
pub proof fn law_config_file_needs_no_server(cli: Cli, stage: Stage, event: Event)
    requires
        uses_file(cli.command),
        can_wait(cli.command, stage),
        answers(stage, event),
    ensures
        ({
            let (later, action) = next(cli, stage, event);
            &&& token_sent(action) is None
            &&& !(action is LoadToken || action is Login)
        }),
{
}

/// Whether an action brings a tunnel up.
pub open spec fn connects(action: Action) -> bool {
    action is ConnectWireguard || action is ConnectVless
}

/// A tunnel comes up only for a command to connect, and only once there is a
/// configuration for it; and a configuration from the server is asked for, when
/// connecting, only once the account has shown a subscription.
pub proof fn law_no_tunnel_without_configuration(cli: Cli, stage: Stage, event: Event)
    requires
        can_wait(cli.command, stage),
        answers(stage, event),
    ensures
        ({
            let (later, action) = next(cli, stage, event);
            &&& connects(action) ==> cli.command is Connect && event is Fetched
            &&& cli.command is Connect && later is ServerConfig ==> (event matches Event::Account(Some(
                _,
            )))
        }),
{
}

/// The kind of tunnel follows the configuration alone, wherever it came from
/// and whatever protocol was asked for. The tunnel gets that configuration, and
/// the interface and the choice about name servers that the command names.
pub proof fn law_configuration_decides_the_tunnel(cli: Cli, stage: Stage, config: String)
    requires
        cli.command is Connect,
        can_wait(cli.command, stage),
        answers(stage, Event::Fetched(config)),
    ensures
        ({
            let (later, action) = next(cli, stage, Event::Fetched(config));
            &&& cli.command matches Command::Connect { interface, no_dns, .. }
            &&& is_vless_text(config@) ==> action == (Action::ConnectVless {
                config,
                interface,
                no_dns,
            })
            &&& !is_vless_text(config@) ==> action == (Action::ConnectWireguard {
                config,
                interface,
                no_dns,
            })
        }),
{
}

/// A connection with a configuration file has two actions: the very file that
/// the command names is read, and then one tunnel is brought up with what was
/// read. Where either fails, the run ends with that failure.
pub proof fn law_connection_from_a_file(
    cli: Cli,
    path: String,
    config: String,
    failure: Failure,
)
    requires
        cli.command matches Command::Connect { config: Some(named), .. } && named == path,
    ensures
        next(cli, Stage::Begin, Event::Started) == (Stage::ConfigFile, Action::ReadFile { path }),
        ({
            let (later, action) = next(cli, Stage::ConfigFile, Event::Fetched(config));
            later is LastAction && connects(action)
        }),
        next(cli, Stage::LastAction, Event::Ended) == (Stage::Over, Action::Finish),
        next(cli, Stage::ConfigFile, Event::Failed(failure)) == (
            Stage::Over,
            Action::Abort(failure),
        ),
        next(cli, Stage::LastAction, Event::Failed(failure)) == (
            Stage::Over,
            Action::Abort(failure),
        ),
{
}

/// What an action makes a systemd unit for, where it installs or prints one.
pub open spec fn unit_made(action: Action) -> Option<UnitArguments> {
    match action {
        Action::Install { unit, .. } => Some(unit),
        Action::PrintUnit { unit } => Some(unit),
        _ => None,
    }
}

/// Whether the systemd unit has to do with the action.
pub open spec fn manages_unit(action: Action) -> bool {
    action is Install || action is Uninstall || action is PrintUnit
}

/// A command about the systemd unit takes that one action and no other. A unit
/// that is installed or printed is made for what the command names, with the
/// token file that was given for the whole program, and an installation starts
/// it unless the command says not to.
pub proof fn law_unit_is_made_for_the_command(cli: Cli)
    ensures
        ({
            let (later, action) = next(cli, Stage::Begin, Event::Started);
            &&& manages_unit(action) <==> cli.command is Service
            &&& manages_unit(action) ==> later is LastAction
            &&& match cli.command {
                Command::Service(
                    ServiceAction::Install {
                        config,
                        protocol,
                        interface,
                        no_dns,
                        log_file,
                        no_start,
                    },
                ) => {
                    &&& action matches Action::Install { unit, enable_now }
                    &&& unit.config == config
                    &&& unit.protocol == protocol
                    &&& unit.interface == interface
                    &&& unit.no_dns == no_dns
                    &&& unit.log_file == log_file
                    &&& unit.token_file == cli.token_file
                    &&& enable_now == !no_start
                },
                Command::Service(ServiceAction::Uninstall) => action is Uninstall,
                Command::Service(
                    ServiceAction::Print { config, protocol, interface, no_dns, log_file },
                ) => {
                    &&& action matches Action::PrintUnit { unit }
                    &&& unit.config == config
                    &&& unit.protocol == protocol
                    &&& unit.interface == interface
                    &&& unit.no_dns == no_dns
                    &&& unit.log_file == log_file
                    &&& unit.token_file == cli.token_file
                },
                _ => unit_made(action) is None,
            }
        }),
{
}

/// The token file that an action uses, where it uses one.
pub open spec fn token_file_used(action: Action) -> Option<Option<String>> {
    match action {
        Action::Login { token_file, .. } => Some(token_file),
        Action::LoadToken { token_file } => Some(token_file),
        Action::Logout { token_file } => Some(token_file),
        Action::Install { unit, .. } => Some(unit.token_file),
        Action::PrintUnit { unit } => Some(unit.token_file),
        _ => None,
    }
}

/// There is one token file: every action that uses one uses that which was
/// given for the whole program.
pub proof fn law_token_file_is_the_same_everywhere(cli: Cli, stage: Stage, event: Event)
    requires
        can_wait(cli.command, stage),
        answers(stage, event),
    ensures
        token_file_used(next(cli, stage, event).1) matches Some(file) ==> file == cli.token_file,
{
}

/// The server that a command names, where it names one.
pub open spec fn server_named(command: Command) -> Option<String> {
    match command {
        Command::Login { api_url } => Some(api_url),
        Command::Connect { api_url, .. } => Some(api_url),
        Command::Peers { api_url } => Some(api_url),
        Command::Config { api_url, .. } => Some(api_url),
        _ => None,
    }
}

/// The server that an action turns to, where it turns to one.
pub open spec fn server_asked(action: Action) -> Option<String> {
    match action {
        Action::Login { api_url, .. } => Some(api_url),
        Action::GetAccount { api_url, .. } => Some(api_url),
        Action::GetVlessConfig { api_url, .. } => Some(api_url),
        Action::FindOrCreatePeer { api_url, .. } => Some(api_url),
        Action::GetPeerConfig { api_url, .. } => Some(api_url),
        Action::ListPeers { api_url, .. } => Some(api_url),
        _ => None,
    }
}

/// No server is turned to but the one that the command names.
pub proof fn law_only_the_named_server_is_asked(cli: Cli, stage: Stage, event: Event)
    requires
        can_wait(cli.command, stage),
        answers(stage, event),
    ensures
        server_asked(next(cli, stage, event).1) is Some ==> server_asked(next(cli, stage, event).1)
            == server_named(cli.command),
{
}

/// Rows of the table line up: where its fields fit their columns, a row names
/// the device from its 42nd character on.
pub proof fn law_columns_line_up(
    id: Seq<char>,
    ip: Seq<char>,
    status: Seq<char>,
    device: Seq<char>,
)
    requires
        id.len() <= 6,
        ip.len() <= 18,
        status.len() <= 14,
    ensures
        id.is_prefix_of(row_text(id, ip, status, device)),
        ip.is_prefix_of(row_text(id, ip, status, device).skip(7)),
        status.is_prefix_of(row_text(id, ip, status, device).skip(26)),
        row_text(id, ip, status, device).skip(41) == device,
{
    reveal_strlit(" ");
    assert(row_text(id, ip, status, device).skip(41) =~= device);
}

proof fn lemma_scheme_is_solid()
    ensures
        "vless://"@.len() == 8,
        !is_white("vless://"@[0]),
        !is_white("vless://"@[7]),
{
    reveal_strlit("vless://");
}

/// A configuration is the URI of a VLESS server just where, behind whatever
/// white space, it begins with the scheme; what follows has no bearing on it.
pub proof fn law_vless_begins_with_its_scheme(lead: Seq<char>, config: Seq<char>)
    requires
        all_white(lead),
        config.len() > 0 ==> !is_white(config.first()),
    ensures
        is_vless_text(lead + config) <==> "vless://"@.is_prefix_of(config),
{
    let all = lead + config;
    let scheme = "vless://"@;
    lemma_scheme_is_solid();
    let (front, back) = law_every_text_has_a_core(all);
    let core = trimmed(all);
    if core.len() == 0 {
        if config.len() > 0 {
            let i = lead.len() as int;
            assert(all[i] == config.first());
            if i < front.len() {
                assert(is_white(front[i]));
            } else {
                assert(all[i] == back[i - front.len()]);
                assert(is_white(back[i - front.len()]));
            }
        }
    } else {
        assert(front.len() == lead.len()) by {
            if front.len() < lead.len() {
                assert(all[front.len() as int] == core.first());
                assert(is_white(lead[front.len() as int]));
            } else if front.len() > lead.len() {
                assert(all[lead.len() as int] == front[lead.len() as int]);
                assert(is_white(front[lead.len() as int]));
                assert(config.first() == all[lead.len() as int]);
            }
        }
        assert(config =~= core + back) by {
            assert(config =~= all.skip(lead.len() as int));
            assert(core + back =~= all.skip(front.len() as int));
        }
        if scheme.is_prefix_of(core) {
            assert(scheme =~= core.take(8));
            assert(scheme =~= config.take(8));
        }
        if scheme.is_prefix_of(config) {
            assert(scheme =~= config.take(8));
            if core.len() < 8 {
                assert(config[7] == back[7 - core.len()]);
                assert(is_white(back[7 - core.len()]));
                assert(config[7] == config.take(8)[7]);
            } else {
                assert(scheme =~= core.take(8));
            }
        }
    }
}

/// A connection with a configuration from the server takes its steps in order.
/// The saved token is looked up and the account asked for with it. Where that
/// shows a subscription, the configuration is asked for by the protocol that
/// the command names: for `vless` that of VLESS, and for any other that of a
/// peer of that very protocol. Without a subscription the run ends there.
pub proof fn law_connection_from_the_server(
    cli: Cli,
    token: String,
    now: UnixTime,
    subscription: Subscription,
    config: String,
)
    requires
        cli.command matches Command::Connect { config: None, .. },
    ensures
        cli.command matches Command::Connect { protocol, api_url, .. } && {
            let (asked, request) = next(
                cli,
                (Stage::Account { token }),
                Event::Account(Some(subscription)),
            );
            &&& next(cli, Stage::Begin, Event::Started) == (
                Stage::SavedToken,
                (Action::LoadToken { token_file: cli.token_file }),
            )
            &&& next(cli, Stage::SavedToken, (Event::Token { token: Some(token), now })) == (
                (Stage::Account { token }),
                (Action::GetAccount { api_url, token }),
            )
            &&& asked is ServerConfig
            &&& protocol@ == "vless"@ ==> request == (Action::GetVlessConfig { api_url, token })
            &&& protocol@ != "vless"@ ==> request == (Action::FindOrCreatePeer {
                api_url,
                token,
                protocol,
            })
            &&& next(cli, (Stage::Account { token }), Event::Account(None)) == (
                Stage::Over,
                Action::Fail(RunError::NoSubscription),
            )
            &&& next(cli, Stage::ServerConfig, Event::Fetched(config)).0 is LastAction
            &&& connects(next(cli, Stage::ServerConfig, Event::Fetched(config)).1)
            &&& next(cli, Stage::LastAction, Event::Ended) == (Stage::Over, Action::Finish)
        },
{
}

/// Printing a configuration asks the server for it by the protocol, and for the
/// peer that is named where one is, prints what the server gives as it is, and
/// ends. No account is asked for and no tunnel brought up.
pub proof fn law_configuration_is_printed(cli: Cli, token: String, now: UnixTime, config: String)
    requires
        cli.command is Config,
    ensures
        cli.command matches Command::Config { protocol, peer_id, api_url } && {
            let (asked, request) = next(
                cli,
                Stage::SavedToken,
                (Event::Token { token: Some(token), now }),
            );
            &&& next(cli, Stage::Begin, Event::Started) == (
                Stage::SavedToken,
                (Action::LoadToken { token_file: cli.token_file }),
            )
            &&& asked is ServerConfig
            &&& protocol@ == "vless"@ ==> request == (Action::GetVlessConfig { api_url, token })
            &&& protocol@ != "vless"@ && peer_id is None ==> request == (Action::FindOrCreatePeer {
                api_url,
                token,
                protocol,
            })
            &&& protocol@ != "vless"@ && peer_id is Some ==> request == (Action::GetPeerConfig {
                api_url,
                token,
                id: peer_id.unwrap(),
            })
            &&& next(cli, Stage::ServerConfig, Event::Fetched(config)) == (
                Stage::Over,
                Action::Finish,
            )
            &&& outputs_after(cli.command, Stage::ServerConfig, Event::Fetched(config)) == seq![
                (Channel::Raw, config@),
            ]
        },
{
}

/// Listing the peers asks the server for them with the saved token, shows them,
/// and ends.
pub proof fn law_peers_are_listed(cli: Cli, token: String, now: UnixTime, peers: Vec<Peer>)
    requires
        cli.command is Peers,
    ensures
        cli.command matches Command::Peers { api_url } && {
            &&& next(cli, Stage::Begin, Event::Started) == (
                Stage::SavedToken,
                (Action::LoadToken { token_file: cli.token_file }),
            )
            &&& next(cli, Stage::SavedToken, (Event::Token { token: Some(token), now })) == (
                Stage::PeerList,
                (Action::ListPeers { api_url, token }),
            )
            &&& next(cli, Stage::PeerList, Event::Peers(peers)) == (Stage::Over, Action::Finish)
            &&& outputs_after(cli.command, Stage::PeerList, Event::Peers(peers)) == peers_output(
                peers@,
            )
        },
{
}

/// A login and a logout are one action each, with the server that the command
/// names and the token file that was given, and every last action ends the run
/// well once it has ended.
pub proof fn law_login_and_logout_are_one_action(cli: Cli)
    ensures
        cli.command matches Command::Login { api_url } ==> next(cli, Stage::Begin, Event::Started)
            == (Stage::LastAction, (Action::Login { api_url, token_file: cli.token_file })),
        cli.command is Logout ==> next(cli, Stage::Begin, Event::Started) == (
            Stage::LastAction,
            (Action::Logout { token_file: cli.token_file }),
        ),
        next(cli, Stage::LastAction, Event::Ended) == (Stage::Over, Action::Finish),
{
}

/// What is put out follows the event. A saved token is warned of where its
/// expiry calls for it, but only before a connection. A subscription is told, a
/// configuration printed where that was the command, the peers shown, and a
/// logout told once it is done. Nothing else is put out.
pub proof fn law_output_follows_the_event(cli: Cli, stage: Stage, event: Event)
    requires
        can_wait(cli.command, stage),
        answers(stage, event),
    ensures
        ({
            let outputs = outputs_after(cli.command, stage, event);
            match event {
                Event::Started => outputs.len() == 0,
                Event::Fetched(config) => if cli.command is Config {
                    outputs == seq![(Channel::Raw, config@)]
                } else {
                    outputs.len() == 0
                },
                Event::Token { token, now } => match token {
                    Some(token) => match expiry_warning(expiry_of(token@), now) {
                        Some(warning) if cli.command is Connect => outputs == seq![
                            (Channel::Note, warning),
                        ],
                        _ => outputs.len() == 0,
                    },
                    None => outputs.len() == 0,
                },
                Event::Account(subscription) => match subscription {
                    Some(subscription) => outputs == seq![
                        (Channel::Note, plan_text(subscription)),
                    ],
                    None => outputs.len() == 0,
                },
                Event::Peers(peers) => outputs == peers_output(peers@),
                Event::Ended => if cli.command is Logout {
                    outputs == seq![(Channel::Note, "Logged out."@)]
                } else {
                    outputs.len() == 0
                },
                Event::Failed(_) => outputs.len() == 0,
            }
        }),
{
}

/// A subscription is told by its plan and its speed limit, where it has one.
pub proof fn law_subscription_is_told(subscription: Subscription)
    ensures
        plan_text(subscription) == "Plan: "@ + subscription.plan_name@ + " (speed limit: "@ + (
        match subscription.speed_limit_mbps {
            Some(mbps) => signed_decimal(mbps as int) + " Mbps"@,
            None => "unlimited"@,
        }) + ")"@,
{
}

/// How many spaces part a field from the next, in a column of the given width:
/// as many as fill the column up, and one more.
pub open spec fn spaces_behind(field: Seq<char>, width: int) -> Seq<char> {
    repeated(' ', 1 + (if field.len() < width { width - field.len() } else { 0 }))
}

/// A row holds its four fields in order and as they are, with spaces between
/// them and nothing else. A field that does not fit its column is not cut.
pub proof fn law_row_holds_its_fields(
    id: Seq<char>,
    ip: Seq<char>,
    status: Seq<char>,
    device: Seq<char>,
)
    ensures
        row_text(id, ip, status, device) == id + spaces_behind(id, 6) + ip + spaces_behind(ip, 18)
            + status + spaces_behind(status, 14) + device,
{
    reveal_strlit(" ");
    assert(padded(id, 6) + " "@ =~= id + spaces_behind(id, 6));
    assert(padded(ip, 18) + " "@ =~= ip + spaces_behind(ip, 18));
    assert(padded(status, 14) + " "@ =~= status + spaces_behind(status, 14));
    assert(row_text(id, ip, status, device) =~= (padded(id, 6) + " "@) + (padded(ip, 18) + " "@)
        + (padded(status, 14) + " "@) + device);
    assert(row_text(id, ip, status, device) =~= id + spaces_behind(id, 6) + ip + spaces_behind(
        ip,
        18,
    ) + status + spaces_behind(status, 14) + device);
}

/// Every peer has its row. Where there are peers, the output is the heading and
/// then a line for each of them, in order, that holds the peer's id, address and
/// status and its device's name, or a dash where that has none. Word that there
/// are no peers is put out just where there are none.
pub proof fn law_every_peer_has_its_row(peers: Seq<Peer>, i: int)
    ensures
        ({
            let outputs = peers_output(peers);
            let nothing = seq![(Channel::Note, "No peers found."@)];
            &&& peers.len() == 0 <==> outputs == nothing
            &&& peers.len() > 0 ==> outputs.len() == peers.len() + 1 && outputs[0] == (
                Channel::Line,
                "ID     IP                 Status         Device"@,
            )
            &&& 0 <= i < peers.len() ==> outputs[i + 1] == (
                Channel::Line,
                row_text(
                    signed_decimal(peers[i].id as int),
                    peers[i].assigned_ip@,
                    peers[i].sync_status@,
                    match peers[i].device_name {
                        Some(name) => name@,
                        None => "-"@,
                    },
                ),
            )
        }),
{
    lemma_heading();
    if peers.len() > 0 {
        let outputs = peers_output(peers);
        assert(outputs[0].0 == Channel::Line);
        assert(outputs != seq![(Channel::Note, "No peers found."@)]);
    }
}

proof fn lemma_heading()
    ensures
        row_text("ID"@, "IP"@, "Status"@, "Device"@)
            == "ID     IP                 Status         Device"@,
{
    reveal_strlit("ID");
    reveal_strlit("IP");
    reveal_strlit("Status");
    reveal_strlit("Device");
    reveal_strlit(" ");
    reveal_strlit("ID     IP                 Status         Device");
    assert(row_text("ID"@, "IP"@, "Status"@, "Device"@)
        =~= "ID     IP                 Status         Device"@);
}

/// Output is shown piece by piece, each where it belongs and as it is.
pub proof fn law_output_is_shown_piece_by_piece(outputs: Seq<Output>, i: int)
    ensures
        shown(outputs).len() == outputs.len(),
        0 <= i < outputs.len() ==> shown(outputs)[i] == (outputs[i].channel, outputs[i].text@),
{
}

/// A run that ends well is done, and one that ends of its own accord has failed
/// with word of what is missing.
pub proof fn law_ends_have_their_outcomes(outcome: Outcome)
    ensures
        ends_with(Action::Finish, outcome) <==> outcome is Done,
        ends_with(Action::Fail(RunError::NotLoggedIn), outcome) <==> (outcome matches
            Outcome::Failed(reason) && reason@ == "Not logged in. Run `floppa-cli login` first."@),
        ends_with(Action::Fail(RunError::NoSubscription), outcome) <==> (outcome matches
            Outcome::Failed(reason) && reason@ == "No active subscription"@),
        ends_with(Action::Abort(Failure::Rejected), outcome) <==> outcome is Rejected,
{
}

}
