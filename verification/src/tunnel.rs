//! Keeping a tunnel up: the steps that build it anew, whether it is alive, and
//! the steps that take it down.

use crate::text::{
    all_white, chars_of, is_white, law_separators_end_parts,
    law_trimming_takes_the_white_space_around, parts, split, string_of, trim, trimmed,
};
use crate::time::Span;
use vstd::prelude::*;
use vstd::string::StringExecFns;

verus! {

/// The kinds of tunnel.
#[derive(Clone, Copy, Debug, PartialEq, Eq, Structural)]
pub enum TunnelKind {
    Wireguard,
    Vless,
}

/// What the user is told of a tunnel.
#[derive(Clone, Copy, Debug, PartialEq, Eq, Structural)]
pub enum TunnelNotice {
    CreatingWireguard,
    CreatingVless,
    Server,
    Sni,
    ConfiguringNetwork,
    Disconnecting,
    Disconnected,
}

/// One step of building a tunnel or taking it down. Steps are taken in order.
/// Stopping a tunnel and restoring the name servers are only tried; the first
/// other step that fails ends the work.
#[derive(Clone, Copy, Debug, PartialEq, Eq, Structural)]
pub enum TunnelStep {
    /// Stop the tunnel that is held, and hold it no longer.
    Stop,
    /// Put back the name servers that were in use before.
    RestoreDns,
    /// Read the configuration.
    ReadConfig,
    /// Create the tunnel on its interface.
    Create,
    /// Set up addresses and routes.
    Configure,
    /// Put the name servers of the configuration to use.
    SetDns,
    /// Hold on to the tunnel that was created.
    Keep,
    /// Tell the user.
    Tell(TunnelNotice),
}

impl TunnelStep {
    /// Whether the step has to do with name servers.
    pub open spec fn touches_dns(self) -> bool {
        self is RestoreDns || self is SetDns
    }

    /// Whether a failure of the step ends the work.
    pub open spec fn can_fail(self) -> bool {
        self is ReadConfig || self is Create || self is Configure || self is SetDns
    }

    /// Tells whether the work goes on after the step, which succeeded or not.
    pub fn goes_on(&self, ok: bool) -> (r: bool)
        ensures
            r == (ok || !self.can_fail()),
    {
        match self {
            TunnelStep::ReadConfig => ok,
            TunnelStep::Create => ok,
            TunnelStep::Configure => ok,
            TunnelStep::SetDns => ok,
            _ => true,
        }
    }

    /// Whether a tunnel is held after the step, where it succeeded.
    pub open spec fn holds_after(self, held: bool) -> bool {
        match self {
            TunnelStep::Stop => false,
            TunnelStep::Keep => true,
            _ => held,
        }
    }
}

/// A step, where it is to be taken.
pub open spec fn when(wanted: bool, step: TunnelStep) -> Seq<TunnelStep> {
    if wanted { seq![step] } else { Seq::empty() }
}

/// What the user is told before a tunnel is created.
pub open spec fn creation_notices(kind: TunnelKind) -> Seq<TunnelStep> {
    match kind {
        TunnelKind::Wireguard => seq![TunnelStep::Tell(TunnelNotice::CreatingWireguard)],
        TunnelKind::Vless => seq![
            TunnelStep::Tell(TunnelNotice::CreatingVless),
            TunnelStep::Tell(TunnelNotice::Server),
            TunnelStep::Tell(TunnelNotice::Sni),
        ],
    }
}

/// The steps that build a tunnel, after taking down the one that is held.
pub open spec fn rebuild_steps(kind: TunnelKind, no_dns: bool, held: bool) -> Seq<TunnelStep> {
    when(held, TunnelStep::Stop) + when(!no_dns, TunnelStep::RestoreDns) + seq![
        TunnelStep::ReadConfig,
    ] + creation_notices(kind) + seq![
        TunnelStep::Create,
        TunnelStep::Tell(TunnelNotice::ConfiguringNetwork),
        TunnelStep::Configure,
    ] + when(!no_dns, TunnelStep::SetDns) + seq![TunnelStep::Keep]
}

/// The steps that take a tunnel down for good; the last word is left out where
/// keeping it up had failed.
pub open spec fn disconnect_steps(no_dns: bool, held: bool, ok: bool) -> Seq<TunnelStep> {
    seq![TunnelStep::Tell(TunnelNotice::Disconnecting)] + when(!no_dns, TunnelStep::RestoreDns)
        + when(held, TunnelStep::Stop) + when(ok, TunnelStep::Tell(TunnelNotice::Disconnected))
}

/// Appends a step, where it is to be taken.
fn push_when(steps: &mut Vec<TunnelStep>, wanted: bool, step: TunnelStep)
    ensures
        final(steps)@ == old(steps)@ + when(wanted, step),
{
    let ghost before = steps@;
    if wanted {
        steps.push(step);
    }
    assert(steps@ =~= before + when(wanted, step));
}

/// Plans how a tunnel is built, after taking down the one that is held.
fn plan_rebuild(kind: TunnelKind, no_dns: bool, held: bool) -> (steps: Vec<TunnelStep>)
    ensures
        steps@ == rebuild_steps(kind, no_dns, held),
{
    let mut steps: Vec<TunnelStep> = Vec::new();
    push_when(&mut steps, held, TunnelStep::Stop);
    push_when(&mut steps, !no_dns, TunnelStep::RestoreDns);
    steps.push(TunnelStep::ReadConfig);
    match kind {
        TunnelKind::Wireguard => {
            steps.push(TunnelStep::Tell(TunnelNotice::CreatingWireguard));
        },
        TunnelKind::Vless => {
            steps.push(TunnelStep::Tell(TunnelNotice::CreatingVless));
            steps.push(TunnelStep::Tell(TunnelNotice::Server));
            steps.push(TunnelStep::Tell(TunnelNotice::Sni));
        },
    }
    steps.push(TunnelStep::Create);
    steps.push(TunnelStep::Tell(TunnelNotice::ConfiguringNetwork));
    steps.push(TunnelStep::Configure);
    push_when(&mut steps, !no_dns, TunnelStep::SetDns);
    steps.push(TunnelStep::Keep);
    assert(steps@ =~= rebuild_steps(kind, no_dns, held));
    steps
}

/// Plans how a WireGuard tunnel is built, after taking down the one that is
/// held.
pub fn connect_wireguard(no_dns: bool, held: bool) -> (steps: Vec<TunnelStep>)
    ensures
        steps@ == rebuild_steps(TunnelKind::Wireguard, no_dns, held),
{
    plan_rebuild(TunnelKind::Wireguard, no_dns, held)
}

/// Plans how a VLESS tunnel is built, after taking down the one that is held.
pub fn connect_vless(no_dns: bool, held: bool) -> (steps: Vec<TunnelStep>)
    ensures
        steps@ == rebuild_steps(TunnelKind::Vless, no_dns, held),
{
    plan_rebuild(TunnelKind::Vless, no_dns, held)
}

/// Plans how a tunnel is taken down for good, after keeping it up had ended
/// well or not.
pub fn disconnect(no_dns: bool, held: bool, ok: bool) -> (steps: Vec<TunnelStep>)
    ensures
        steps@ == disconnect_steps(no_dns, held, ok),
{
    let mut steps: Vec<TunnelStep> = Vec::new();
    steps.push(TunnelStep::Tell(TunnelNotice::Disconnecting));
    assert(steps@ =~= seq![TunnelStep::Tell(TunnelNotice::Disconnecting)]);
    push_when(&mut steps, !no_dns, TunnelStep::RestoreDns);
    push_when(&mut steps, held, TunnelStep::Stop);
    push_when(&mut steps, ok, TunnelStep::Tell(TunnelNotice::Disconnected));
    steps
}

/// The words of a notice, for a tunnel on the given interface to the server
/// with the given address and name.
pub open spec fn tunnel_notice_text(
    notice: TunnelNotice,
    interface: Seq<char>,
    server_addr: Seq<char>,
    server_name: Seq<char>,
) -> Seq<char> {
    match notice {
        TunnelNotice::CreatingWireguard => "Creating WireGuard tunnel on "@ + interface + "..."@,
        TunnelNotice::CreatingVless => "Creating VLESS+REALITY tunnel on "@ + interface + "..."@,
        TunnelNotice::Server => "Server: "@ + server_addr,
        TunnelNotice::Sni => "SNI: "@ + server_name,
        TunnelNotice::ConfiguringNetwork => "Configuring networking..."@,
        TunnelNotice::Disconnecting => "\nDisconnecting..."@,
        TunnelNotice::Disconnected => "Disconnected."@,
    }
}

impl TunnelNotice {
    /// The words of the notice, for a tunnel on the given interface to the
    /// server with the given address and name.
    pub fn text(&self, interface: &str, server_addr: &str, server_name: &str) -> (text: String)
        ensures
            text@ == tunnel_notice_text(*self, interface@, server_addr@, server_name@),
    {
        match self {
            TunnelNotice::CreatingWireguard => {
                let mut text = "Creating WireGuard tunnel on ".to_owned();
                text.append(interface);
                text.append("...");
                text
            },
            TunnelNotice::CreatingVless => {
                let mut text = "Creating VLESS+REALITY tunnel on ".to_owned();
                text.append(interface);
                text.append("...");
                text
            },
            TunnelNotice::Server => {
                let mut text = "Server: ".to_owned();
                text.append(server_addr);
                text
            },
            TunnelNotice::Sni => {
                let mut text = "SNI: ".to_owned();
                text.append(server_name);
                text
            },
            TunnelNotice::ConfiguringNetwork => "Configuring networking...".to_owned(),
            TunnelNotice::Disconnecting => "\nDisconnecting...".to_owned(),
            TunnelNotice::Disconnected => "Disconnected.".to_owned(),
        }
    }
}

/// The name servers in a comma-separated list, each without the white space
/// around it.
pub open spec fn servers_in(list: Seq<char>) -> Seq<Seq<char>> {
    parts(list, ',').map_values(|server: Seq<char>| trimmed(server))
}

/// Reads a comma-separated list of name servers.
pub fn dns_servers(list: &str) -> (servers: Vec<String>)
    ensures
        servers@.map_values(|server: String| server@) == servers_in(list@),
{
    let chars = chars_of(list);
    let pieces = split(chars.as_slice(), ',');
    let mut servers: Vec<String> = Vec::new();
    let mut i: usize = 0;
    while i < pieces.len()
        invariant
            i <= pieces@.len(),
            servers@.len() == i,
            pieces@.len() == parts(list@, ',').len(),
            forall|j: int| 0 <= j < pieces@.len() ==> (#[trigger] pieces@[j])@ == parts(
                list@,
                ',',
            )[j],
            forall|j: int| 0 <= j < i ==> (#[trigger] servers@[j])@ == trimmed(
                parts(list@, ',')[j],
            ),
        decreases pieces@.len() - i,
    {
        servers.push(string_of(trim(pieces[i])));
        i += 1;
    }
    assert(servers@.map_values(|server: String| server@) =~= servers_in(list@));
    servers
}

/// Tells which name servers a VLESS tunnel puts to use: those that its
/// configuration lists, where it lists any.
pub fn vless_dns(list: Option<&str>) -> (r: Option<Vec<String>>)
    ensures
        match list {
            Some(list) => r matches Some(servers) && servers@.map_values(|server: String| server@)
                == servers_in(list@),
            None => r is None,
        },
{
    match list {
        Some(list) => Some(dns_servers(list)),
        None => None,
    }
}

/// The configuration of a VLESS tunnel is read without the white space around
/// it.
pub fn vless_uri(config: &str) -> (uri: String)
    ensures
        uri@ == trimmed(config@),
{
    let chars = chars_of(config);
    string_of(trim(chars.as_slice()))
}

/// Whether a peer's handshake is recent enough: it lies no further back than
/// `stale_after`, or even ahead of `now`.
pub open spec fn is_fresh(handshake: Option<Span>, now: Span, stale_after: Span) -> bool {
    handshake matches Some(at) && now.total() - at.total() <= stale_after.total()
}

/// Tells whether a WireGuard tunnel is alive, from the time of each peer's last
/// handshake, where it had one: the newest of them is recent enough. A tunnel
/// that is not there is not alive.
pub fn wireguard_alive(
    handshakes: Option<&Vec<Option<Span>>>,
    now: &Span,
    stale_after: &Span,
) -> (alive: bool)
    requires
        now.wf(),
        stale_after.wf(),
        handshakes matches Some(times) ==> forall|i: int|
            0 <= i < times@.len() && (#[trigger] times@[i]) is Some ==> times@[i].unwrap().wf(),
    ensures
        alive == (handshakes matches Some(times) && exists|i: int|
            0 <= i < times@.len() && is_fresh(#[trigger] times@[i], *now, *stale_after)),
{
    let times = match handshakes {
        Some(times) => times,
        None => {
            return false;
        },
    };
    let mut newest: Option<Span> = None;
    let ghost mut at: int = 0;
    let mut i: usize = 0;
    while i < times.len()
        invariant
            i <= times@.len(),
            forall|j: int|
                0 <= j < times@.len() && (#[trigger] times@[j]) is Some ==> times@[j].unwrap().wf(),
            newest is None ==> forall|j: int| 0 <= j < i ==> (#[trigger] times@[j]) is None,
            newest matches Some(span) ==> {
                &&& span.wf()
                &&& 0 <= at < i
                &&& times@[at] == newest
                &&& forall|j: int|
                    0 <= j < i && (#[trigger] times@[j]) is Some ==> times@[j].unwrap().total()
                        <= span.total()
            },
        decreases times@.len() - i,
    {
        if let Some(time) = times[i] {
            let later: bool = match newest {
                Some(span) => span.at_most(&time),
                None => true,
            };
            if later {
                newest = Some(time);
                proof {
                    at = i as int;
                }
            }
        }
        i += 1;
    }
    match newest {
        Some(span) => {
            let age = now.saturating_sub(&span);
            proof {
                if exists|j: int|
                    0 <= j < times@.len() && is_fresh(#[trigger] times@[j], *now, *stale_after) {
                    let j = choose|j: int|
                        0 <= j < times@.len() && is_fresh(#[trigger] times@[j], *now, *stale_after);
                    assert(times@[j] is Some);
                }
                assert(times@[at] == Some(span));
            }
            age.at_most(stale_after)
        },
        None => false,
    }
}

/// The address that is tried where that of the server cannot be read.
pub const FALLBACK_ADDR: &'static str = "127.0.0.1:443";

/// How long a server is waited for, in seconds.
pub const PROBE_SECS: u64 = 3;

/// Tells which address shows whether a VLESS tunnel is alive: that of its
/// server, or another where it is not an address. There is none where the
/// configuration cannot be read; the tunnel then is not alive.
pub fn probe_address(server_addr: Option<&str>, is_address: bool) -> (r: Option<String>)
    ensures
        match server_addr {
            Some(addr) => r matches Some(target) && target@ == (if is_address {
                addr@
            } else {
                FALLBACK_ADDR@
            }),
            None => r is None,
        },
{
    match server_addr {
        Some(addr) => if is_address {
            Some(addr.to_owned())
        } else {
            Some(FALLBACK_ADDR.to_owned())
        },
        None => None,
    }
}

/// Who asks that name servers be left alone gets that: neither building a
/// tunnel nor taking it down touches them.
pub proof fn law_no_dns_leaves_dns_alone(kind: TunnelKind, held: bool, ok: bool)
    ensures
        forall|i: int|
            0 <= i < rebuild_steps(kind, true, held).len() ==> !(#[trigger] rebuild_steps(
                kind,
                true,
                held,
            )[i]).touches_dns(),
        forall|i: int|
            0 <= i < disconnect_steps(true, held, ok).len() ==> !(#[trigger] disconnect_steps(
                true,
                held,
                ok,
            )[i]).touches_dns(),
{
}

/// Whether a tunnel is held after the first `n` of the given steps.
pub open spec fn held_after(steps: Seq<TunnelStep>, n: int, held: bool) -> bool
    decreases n,
{
    if n <= 0 {
        held
    } else {
        steps[n - 1].holds_after(held_after(steps, n - 1, held))
    }
}

/// Before the last step of building a tunnel none is held but the one that was
/// held before, and that one only until it is stopped.
proof fn lemma_not_held_before_end(kind: TunnelKind, no_dns: bool, held: bool, n: int)
    requires
        0 <= n < rebuild_steps(kind, no_dns, held).len(),
        held ==> n > 0,
    ensures
        !held_after(rebuild_steps(kind, no_dns, held), n, held),
    decreases n,
{
    let steps = rebuild_steps(kind, no_dns, held);
    if n > 0 {
        assert(held ==> steps[0] == TunnelStep::Stop);
        if !held || n > 1 {
            lemma_not_held_before_end(kind, no_dns, held, n - 1);
        }
    }
}

/// A tunnel is held once every step of building it has succeeded, and none is
/// where one of them failed: not the new one, nor the one that was held before.
pub proof fn law_only_a_finished_tunnel_is_held(
    kind: TunnelKind,
    no_dns: bool,
    held: bool,
    n: int,
)
    ensures
        ({
            let steps = rebuild_steps(kind, no_dns, held);
            &&& held_after(steps, steps.len() as int, held)
            &&& 0 <= n < steps.len() && steps[n].can_fail() ==> !held_after(steps, n, held)
        }),
{
    let steps = rebuild_steps(kind, no_dns, held);
    assert(steps.last() == TunnelStep::Keep);
    if 0 <= n < steps.len() && steps[n].can_fail() {
        assert(held ==> steps[0] == TunnelStep::Stop);
        lemma_not_held_before_end(kind, no_dns, held, n);
    }
}

/// Taking a tunnel down leaves none held, and, unless they are to be left
/// alone, puts the name servers back.
pub proof fn law_disconnect_leaves_nothing_behind(no_dns: bool, held: bool, ok: bool)
    ensures
        ({
            let steps = disconnect_steps(no_dns, held, ok);
            &&& !held_after(steps, steps.len() as int, held)
            &&& !no_dns ==> steps.contains(TunnelStep::RestoreDns)
        }),
{
    let steps = disconnect_steps(no_dns, held, ok);
    reveal_with_fuel(held_after, 5);
    if !no_dns {
        assert(steps[1] == TunnelStep::RestoreDns);
    }
}

/// A list of name servers is never read as none.
pub proof fn law_some_server_is_always_read(list: Seq<char>)
    ensures
        servers_in(list).len() >= 1,
{
}

proof fn lemma_filter_of_one(step: TunnelStep, keep: spec_fn(TunnelStep) -> bool)
    ensures
        seq![step].filter(keep) == (if keep(step) { seq![step] } else { Seq::empty() }),
        Seq::<TunnelStep>::empty().filter(keep) == Seq::<TunnelStep>::empty(),
{
    reveal_with_fuel(Seq::filter, 2);
    assert(seq![step].drop_last() =~= Seq::<TunnelStep>::empty());
    assert(seq![step].filter(keep) =~= (if keep(step) { seq![step] } else { Seq::empty() }));
}

/// What is picked of the steps that build a tunnel, piece by piece.
proof fn lemma_filter_of_rebuild(
    kind: TunnelKind,
    no_dns: bool,
    held: bool,
    keep: spec_fn(TunnelStep) -> bool,
)
    ensures
        rebuild_steps(kind, no_dns, held).filter(keep) == when(held, TunnelStep::Stop).filter(keep)
            + when(!no_dns, TunnelStep::RestoreDns).filter(keep) + seq![
            TunnelStep::ReadConfig,
        ].filter(keep) + creation_notices(kind).filter(keep) + seq![TunnelStep::Create].filter(keep)
            + seq![TunnelStep::Tell(TunnelNotice::ConfiguringNetwork)].filter(keep) + seq![
            TunnelStep::Configure,
        ].filter(keep) + when(!no_dns, TunnelStep::SetDns).filter(keep) + seq![
            TunnelStep::Keep,
        ].filter(keep),
{
    let a = when(held, TunnelStep::Stop);
    let b = a + when(!no_dns, TunnelStep::RestoreDns);
    let c = b + seq![TunnelStep::ReadConfig];
    let d = c + creation_notices(kind);
    let e = d + seq![TunnelStep::Create];
    let f = e + seq![TunnelStep::Tell(TunnelNotice::ConfiguringNetwork)];
    let g = f + seq![TunnelStep::Configure];
    let h = g + when(!no_dns, TunnelStep::SetDns);
    let all = h + seq![TunnelStep::Keep];
    assert(all =~= rebuild_steps(kind, no_dns, held));
    Seq::filter_distributes_over_add(a, when(!no_dns, TunnelStep::RestoreDns), keep);
    Seq::filter_distributes_over_add(b, seq![TunnelStep::ReadConfig], keep);
    Seq::filter_distributes_over_add(c, creation_notices(kind), keep);
    Seq::filter_distributes_over_add(d, seq![TunnelStep::Create], keep);
    let tell = TunnelStep::Tell(TunnelNotice::ConfiguringNetwork);
    Seq::filter_distributes_over_add(e, seq![tell], keep);
    Seq::filter_distributes_over_add(f, seq![TunnelStep::Configure], keep);
    Seq::filter_distributes_over_add(g, when(!no_dns, TunnelStep::SetDns), keep);
    Seq::filter_distributes_over_add(h, seq![TunnelStep::Keep], keep);
}

proof fn lemma_filter_of_pieces(kind: TunnelKind, keep: spec_fn(TunnelStep) -> bool)
    ensures
        forall|step: TunnelStep| #[trigger]
            seq![step].filter(keep) == (if keep(step) { seq![step] } else { Seq::empty() }),
        Seq::<TunnelStep>::empty().filter(keep) == Seq::<TunnelStep>::empty(),
        creation_notices(kind).filter(keep) == (match kind {
            TunnelKind::Wireguard => seq![
                TunnelStep::Tell(TunnelNotice::CreatingWireguard),
            ].filter(keep),
            TunnelKind::Vless => seq![TunnelStep::Tell(TunnelNotice::CreatingVless)].filter(keep)
                + seq![TunnelStep::Tell(TunnelNotice::Server)].filter(keep) + seq![
                TunnelStep::Tell(TunnelNotice::Sni),
            ].filter(keep),
        }),
{
    assert forall|step: TunnelStep| #[trigger]
        seq![step].filter(keep) == (if keep(step) { seq![step] } else { Seq::empty() }) by {
        lemma_filter_of_one(step, keep);
    }
    lemma_filter_of_one(TunnelStep::Keep, keep);
    let a = seq![TunnelStep::Tell(TunnelNotice::CreatingVless)];
    let b = seq![TunnelStep::Tell(TunnelNotice::Server)];
    let c = seq![TunnelStep::Tell(TunnelNotice::Sni)];
    Seq::filter_distributes_over_add(a, b, keep);
    Seq::filter_distributes_over_add(a + b, c, keep);
    assert(creation_notices(TunnelKind::Vless) =~= a + b + c);
}

/// Whatever the kind of tunnel, the choice about name servers and whether one
/// is held, building a tunnel reads the configuration, creates the tunnel, sets
/// up the network and keeps the tunnel, each once and in that order.
pub proof fn law_tunnel_is_read_created_configured_and_kept(
    kind: TunnelKind,
    no_dns: bool,
    held: bool,
)
    ensures
        rebuild_steps(kind, no_dns, held).filter(
            |step: TunnelStep|
                step == TunnelStep::ReadConfig || step == TunnelStep::Create || step
                    == TunnelStep::Configure || step == TunnelStep::Keep,
        ) == seq![
            TunnelStep::ReadConfig,
            TunnelStep::Create,
            TunnelStep::Configure,
            TunnelStep::Keep,
        ],
        rebuild_steps(kind, no_dns, held).last() == TunnelStep::Keep,
{
    let keep = |step: TunnelStep|
        step == TunnelStep::ReadConfig || step == TunnelStep::Create || step
            == TunnelStep::Configure || step == TunnelStep::Keep;
    lemma_filter_of_rebuild(kind, no_dns, held, keep);
    lemma_filter_of_pieces(kind, keep);
    assert(rebuild_steps(kind, no_dns, held).filter(keep) =~= seq![
        TunnelStep::ReadConfig,
        TunnelStep::Create,
        TunnelStep::Configure,
        TunnelStep::Keep,
    ]);
}

/// Leaving the name servers alone leaves out just the steps that touch them:
/// putting the old ones back, which comes before the configuration is read, and
/// setting the new ones, which comes after the network is set up and before the
/// tunnel is kept.
pub proof fn law_no_dns_leaves_out_just_dns(kind: TunnelKind, held: bool)
    ensures
        rebuild_steps(kind, true, held) == rebuild_steps(kind, false, held).filter(
            |step: TunnelStep| step != TunnelStep::RestoreDns && step != TunnelStep::SetDns,
        ),
        rebuild_steps(kind, false, held).filter(
            |step: TunnelStep| !(step is Stop || step is Tell),
        ) == seq![
            TunnelStep::RestoreDns,
            TunnelStep::ReadConfig,
            TunnelStep::Create,
            TunnelStep::Configure,
            TunnelStep::SetDns,
            TunnelStep::Keep,
        ],
{
    let other = |step: TunnelStep| step != TunnelStep::RestoreDns && step != TunnelStep::SetDns;
    lemma_filter_of_rebuild(kind, false, held, other);
    lemma_filter_of_pieces(kind, other);
    assert(rebuild_steps(kind, true, held) =~= rebuild_steps(kind, false, held).filter(other));
    let work = |step: TunnelStep| !(step is Stop || step is Tell);
    lemma_filter_of_rebuild(kind, false, held, work);
    lemma_filter_of_pieces(kind, work);
    assert(rebuild_steps(kind, false, held).filter(work) =~= seq![
        TunnelStep::RestoreDns,
        TunnelStep::ReadConfig,
        TunnelStep::Create,
        TunnelStep::Configure,
        TunnelStep::SetDns,
        TunnelStep::Keep,
    ]);
}

/// A tunnel that is held is stopped before anything else is done, and only
/// then is anything stopped; for the rest it makes no difference.
pub proof fn law_held_tunnel_is_stopped_first(kind: TunnelKind, no_dns: bool)
    ensures
        rebuild_steps(kind, no_dns, true) == seq![TunnelStep::Stop] + rebuild_steps(
            kind,
            no_dns,
            false,
        ),
        !rebuild_steps(kind, no_dns, false).contains(TunnelStep::Stop),
{
    assert(rebuild_steps(kind, no_dns, true) =~= seq![TunnelStep::Stop] + rebuild_steps(
        kind,
        no_dns,
        false,
    ));
}

/// Once the configuration is read, the user is told what kind of tunnel is
/// created, and for VLESS with which server, before it is; and that the network
/// is set up, before it is.
pub proof fn law_user_is_told_of_the_tunnel(kind: TunnelKind, no_dns: bool, held: bool)
    ensures
        rebuild_steps(kind, no_dns, held).filter(
            |step: TunnelStep|
                step is Tell || step == TunnelStep::ReadConfig || step == TunnelStep::Create || step
                    == TunnelStep::Configure,
        ) == (match kind {
            TunnelKind::Wireguard => seq![
                TunnelStep::ReadConfig,
                TunnelStep::Tell(TunnelNotice::CreatingWireguard),
                TunnelStep::Create,
                TunnelStep::Tell(TunnelNotice::ConfiguringNetwork),
                TunnelStep::Configure,
            ],
            TunnelKind::Vless => seq![
                TunnelStep::ReadConfig,
                TunnelStep::Tell(TunnelNotice::CreatingVless),
                TunnelStep::Tell(TunnelNotice::Server),
                TunnelStep::Tell(TunnelNotice::Sni),
                TunnelStep::Create,
                TunnelStep::Tell(TunnelNotice::ConfiguringNetwork),
                TunnelStep::Configure,
            ],
        }),
{
    let keep = |step: TunnelStep|
        step is Tell || step == TunnelStep::ReadConfig || step == TunnelStep::Create || step
            == TunnelStep::Configure;
    lemma_filter_of_rebuild(kind, no_dns, held, keep);
    lemma_filter_of_pieces(kind, keep);
    let tell = TunnelStep::Tell(TunnelNotice::ConfiguringNetwork);
    match kind {
        TunnelKind::Wireguard => {
            assert(rebuild_steps(kind, no_dns, held).filter(keep) =~= seq![
                TunnelStep::ReadConfig,
                TunnelStep::Tell(TunnelNotice::CreatingWireguard),
                TunnelStep::Create,
                tell,
                TunnelStep::Configure,
            ]);
        },
        TunnelKind::Vless => {
            assert(rebuild_steps(kind, no_dns, held).filter(keep) =~= seq![
                TunnelStep::ReadConfig,
                TunnelStep::Tell(TunnelNotice::CreatingVless),
                TunnelStep::Tell(TunnelNotice::Server),
                TunnelStep::Tell(TunnelNotice::Sni),
                TunnelStep::Create,
                tell,
                TunnelStep::Configure,
            ]);
        },
    }
}

/// A tunnel is taken down in order: the user is told, the name servers are put
/// back unless they are to be left alone, a tunnel that is held is stopped, and
/// the user is told that it is done just where keeping it up had not failed. A
/// failure changes nothing else.
pub proof fn law_tunnel_is_taken_down_in_order(no_dns: bool, held: bool, ok: bool)
    ensures
        ({
            let steps = disconnect_steps(no_dns, held, ok);
            let stop: int = if no_dns { 1 } else { 2 };
            &&& steps.first() == TunnelStep::Tell(TunnelNotice::Disconnecting)
            &&& !no_dns ==> steps[1] == TunnelStep::RestoreDns
            &&& held ==> steps[stop] == TunnelStep::Stop
            &&& steps.len() == stop + (if held { 1int } else { 0 }) + (if ok { 1int } else { 0 })
            &&& disconnect_steps(no_dns, held, true) == disconnect_steps(no_dns, held, false).push(
                TunnelStep::Tell(TunnelNotice::Disconnected),
            )
        }),
{
    assert(disconnect_steps(no_dns, held, true) =~= disconnect_steps(no_dns, held, false).push(
        TunnelStep::Tell(TunnelNotice::Disconnected),
    ));
}

/// Stopping a tunnel, putting name servers back, keeping a tunnel and telling
/// the user never end the work; a failure of any other step does.
pub proof fn law_four_steps_end_the_work(step: TunnelStep)
    ensures
        !step.can_fail() <==> step == TunnelStep::Stop || step == TunnelStep::RestoreDns || step
            == TunnelStep::Keep || step is Tell,
{
}

/// A notice names the interface, the server's address or its name, whichever it
/// is about, and those as they are.
pub proof fn law_notices_name_what_they_are_about(
    interface: Seq<char>,
    server_addr: Seq<char>,
    server_name: Seq<char>,
)
    ensures
        tunnel_notice_text(
            TunnelNotice::CreatingWireguard,
            interface,
            server_addr,
            server_name,
        ) == "Creating WireGuard tunnel on "@ + interface + "..."@,
        tunnel_notice_text(TunnelNotice::CreatingVless, interface, server_addr, server_name)
            == "Creating VLESS+REALITY tunnel on "@ + interface + "..."@,
        tunnel_notice_text(TunnelNotice::Server, interface, server_addr, server_name) == "Server: "@
            + server_addr,
        tunnel_notice_text(TunnelNotice::Sni, interface, server_addr, server_name) == "SNI: "@
            + server_name,
        tunnel_notice_text(
            TunnelNotice::ConfiguringNetwork,
            interface,
            server_addr,
            server_name,
        ) == "Configuring networking..."@,
        tunnel_notice_text(TunnelNotice::Disconnecting, interface, server_addr, server_name)
            == "\nDisconnecting..."@,
        tunnel_notice_text(TunnelNotice::Disconnected, interface, server_addr, server_name)
            == "Disconnected."@,
{
}

/// Name servers are read one by one between the commas, each without the white
/// space around it; an empty place among them counts too.
pub proof fn law_name_servers_stand_between_commas(
    lead: Seq<char>,
    server: Seq<char>,
    trail: Seq<char>,
    rest: Seq<char>,
)
    requires
        all_white(lead),
        all_white(trail),
        !server.contains(','),
        server.len() > 0 ==> !is_white(server.first()) && !is_white(server.last()),
    ensures
        servers_in(lead + server + trail) == seq![server],
        servers_in(lead + server + trail + seq![','] + rest) == seq![server] + servers_in(rest),
{
    let all = lead + server + trail;
    assert(!all.contains(',')) by {
        if all.contains(',') {
            let i = choose|i: int| 0 <= i < all.len() && all[i] == ',';
            if i < lead.len() {
                assert(is_white(lead[i]));
            } else if i < lead.len() + server.len() {
                assert(server[i - lead.len()] == ',');
            } else {
                assert(is_white(trail[i - lead.len() - server.len()]));
            }
        }
    }
    law_separators_end_parts(all, rest, ',');
    law_trimming_takes_the_white_space_around(lead, server, trail);
    assert(servers_in(all) =~= seq![server]);
    assert(servers_in(all + seq![','] + rest) =~= seq![server] + servers_in(rest));
}

/// A handshake is recent enough until `stale_after` has passed since, to the
/// nanosecond; a peer without one never is.
pub proof fn law_handshake_goes_stale(at: Span, now: Span, stale_after: Span)
    ensures
        is_fresh(Some(at), now, stale_after) <==> now.secs * 1_000_000_000 + now.nanos <= (at.secs
            + stale_after.secs) * 1_000_000_000 + at.nanos + stale_after.nanos,
        !is_fresh(None, now, stale_after),
{
}

}
