//! One refresh cycle: what the host is asked, in which order, and what is kept of it.
use crate::chars::{same, texts, trimmed};
use crate::config::{Config, ConfigView};
use crate::model::{
    no_snapshot, player_views, pm2_views, service_views, Player, Pm2App, ServiceStatus,
    ServiceView, Snapshot, SnapshotView,
};
use crate::palworld::{read_ini, IniView, PalIni};
use crate::pm2::{apps_in, json_in, json_text, pm2, PM2_COMMAND};
use crate::report::{
    metrics, metrics_fit, metrics_of, metrics_readable, parse_players, players_of, service_states,
    states_of, METRICS_SCRIPT,
};
use crate::shell::{
    lenient_output, lists_players, palworld_ini_command, read_ini_line, run, run_lenient,
    services_command, services_line, strict_output, Reply, ReplyView,
};
use vstd::prelude::*;

verus! {

/// What the host was asked last.
#[derive(Debug, Clone, Copy, PartialEq, Eq, Structural)]
pub enum Asked {
    Metrics,
    Services,
    Pm2,
    Ini,
    Players,
}

/// A refresh under way: what was asked last, and what is known so far.
#[derive(Debug)]
pub struct PollRun {
    asked: Asked,
    snap: Snapshot,
}

/// How a refresh goes on.
#[derive(Debug)]
pub enum PollMove {
    /// Run a command and hand its reply in.
    Ask(PollRun, String),
    Done(Snapshot),
    /// The host cannot be read, and why.
    Failed(String),
}

pub enum PollView {
    Ask(Asked, SnapshotView, Seq<char>),
    Done(SnapshotView),
    Failed(Seq<char>),
}

impl View for PollMove {
    type V = PollView;

    open spec fn view(&self) -> PollView {
        match self {
            PollMove::Ask(run, cmd) => PollView::Ask(run.asked(), run.snap(), cmd@),
            PollMove::Done(snap) => PollView::Done(snap@),
            PollMove::Failed(why) => PollView::Failed(why@),
        }
    }
}

/// The settings file in a snapshot is well-formed.
pub open spec fn snap_wf(snap: Snapshot) -> bool {
    snap.palworld_ini matches Some(ini) ==> ini.wf()
}

impl PollMove {
    pub open spec fn wf(&self) -> bool {
        match self {
            PollMove::Ask(run, _) => run.wf(),
            PollMove::Done(snap) => snap_wf(*snap),
            PollMove::Failed(_) => true,
        }
    }
}

// ---------------------------------------------------------------------------
// The order of the questions
// ---------------------------------------------------------------------------
/// The states of the units, where units are configured.
pub open spec fn ask_services(cfg: ConfigView, snap: SnapshotView) -> PollView {
    if cfg.services.len() > 0 {
        PollView::Ask(Asked::Services, snap, services_line(cfg.services))
    } else {
        ask_pm2(cfg, snap)
    }
}

/// The apps under PM2, where they are shown.
pub open spec fn ask_pm2(cfg: ConfigView, snap: SnapshotView) -> PollView {
    if cfg.show_pm2 {
        PollView::Ask(Asked::Pm2, snap, PM2_COMMAND@)
    } else {
        ask_ini(cfg, snap)
    }
}

/// The settings file, where the Palworld integration is enabled.
pub open spec fn ask_ini(cfg: ConfigView, snap: SnapshotView) -> PollView {
    if cfg.palworld.enabled {
        PollView::Ask(Asked::Ini, snap, read_ini_line(cfg.palworld))
    } else {
        PollView::Done(snap)
    }
}

/// The server is among the units, and running.
pub open spec fn palworld_up(services: Seq<ServiceView>, service: Seq<char>) -> bool {
    exists|i: int|
        0 <= i < services.len() && (#[trigger] services[i]).name == service && services[i].state
            == "active"@
}

/// The players, where the server runs. Without a command that lists them there are none.
pub open spec fn ask_players(cfg: ConfigView, snap: SnapshotView) -> PollView {
    if !palworld_up(snap.services, cfg.palworld.service) {
        PollView::Done(SnapshotView { players: None, ..snap })
    } else if trimmed(cfg.palworld.players_command).len() == 0 {
        PollView::Done(SnapshotView { players: Some(Seq::empty()), ..snap })
    } else {
        PollView::Ask(Asked::Players, snap, cfg.palworld.players_command)
    }
}

/// The settings file in a reply, where there is one that can be read.
pub open spec fn ini_in(cfg: ConfigView, reply: ReplyView) -> Option<IniView> {
    match strict_output(read_ini_line(cfg.palworld), reply) {
        Ok(text) => match read_ini(text) {
            Ok(ini) => Some(ini),
            Err(_) => None,
        },
        Err(_) => None,
    }
}

/// What follows on a reply. Only the host's metrics must be had: of the rest, what
/// cannot be had is left out. A stopped Palworld makes its questions fail; that's
/// expected, not an error.
pub open spec fn poll_step(
    cfg: ConfigView,
    asked: Asked,
    snap: SnapshotView,
    reply: ReplyView,
) -> PollView {
    match asked {
        Asked::Metrics => match strict_output(METRICS_SCRIPT@, reply) {
            Err(why) => PollView::Failed(why),
            Ok(out) => ask_services(cfg, SnapshotView { metrics: metrics_of(out), ..snap }),
        },
        Asked::Services => ask_pm2(
            cfg,
            SnapshotView {
                services: match lenient_output(services_line(cfg.services), reply) {
                    Ok(out) => states_of(cfg.services, out),
                    Err(_) => Seq::empty(),
                },
                ..snap
            },
        ),
        Asked::Pm2 => ask_ini(
            cfg,
            SnapshotView {
                pm2: match lenient_output(PM2_COMMAND@, reply) {
                    Ok(out) => apps_in(json_text(json_in(out))),
                    Err(_) => Seq::empty(),
                },
                ..snap
            },
        ),
        Asked::Ini => ask_players(cfg, SnapshotView { palworld_ini: ini_in(cfg, reply), ..snap }),
        Asked::Players => PollView::Done(
            SnapshotView {
                players: match lenient_output(cfg.palworld.players_command, reply) {
                    Ok(out) => Some(players_of(out)),
                    Err(_) => None,
                },
                ..snap
            },
        ),
    }
}

/// The first question.
pub open spec fn first_question() -> PollView {
    PollView::Ask(Asked::Metrics, no_snapshot(), METRICS_SCRIPT@)
}

/// The figures in the reply fit in 64 bits.
pub open spec fn reply_fits(asked: Asked, reply: ReplyView) -> bool {
    asked == Asked::Metrics ==> (strict_output(METRICS_SCRIPT@, reply) matches Ok(out) ==> metrics_fit(
        out,
    ))
}

// ---------------------------------------------------------------------------
// The run
// ---------------------------------------------------------------------------
impl PollRun {
    pub closed spec fn asked(&self) -> Asked {
        self.asked
    }

    pub closed spec fn snap(&self) -> SnapshotView {
        self.snap@
    }

    pub closed spec fn wf(&self) -> bool {
        snap_wf(self.snap)
    }

    /// Begins a refresh.
    pub fn begin() -> (r: (PollRun, String))
        ensures
            r.0.wf(),
            PollView::Ask(r.0.asked(), r.0.snap(), r.1@) == first_question(),
    {
        (
            PollRun { asked: Asked::Metrics, snap: Snapshot::default() },
            METRICS_SCRIPT.to_owned(),
        )
    }

    /// Whether the figures in the reply fit in 64 bits.
    pub fn accepts(&self, reply: &Reply) -> (r: bool)
        ensures
            r == reply_fits(self.asked(), reply@),
    {
        match (self.asked, reply) {
            (Asked::Metrics, Reply::Ran { status, stdout, stderr: _ }) => *status != 0
                || metrics_readable(stdout.as_str()),
            _ => true,
        }
    }

    /// Takes the reply to the last question.
    pub fn next(self, cfg: &Config, reply: Reply) -> (r: PollMove)
        requires
            self.wf(),
            reply_fits(self.asked(), reply@),
        ensures
            r.wf(),
            r@ == poll_step(cfg@, self.asked(), self.snap(), reply@),
    {
        let mut snap = self.snap;
        match self.asked {
            Asked::Metrics => match run(METRICS_SCRIPT, reply) {
                Err(why) => PollMove::Failed(why),
                Ok(out) => {
                    snap.metrics = metrics(out.as_str());
                    Self::services(cfg, snap)
                },
            },
            Asked::Services => {
                let cmd = services_command(&cfg.services);
                snap.services = match run_lenient(cmd.as_str(), reply) {
                    Ok(out) => service_states(&cfg.services, out.as_str()),
                    Err(_) => {
                        let none: Vec<ServiceStatus> = Vec::new();
                        assert(service_views(none@) =~= Seq::empty());
                        none
                    },
                };
                Self::pm2(cfg, snap)
            },
            Asked::Pm2 => {
                snap.pm2 = match run_lenient(PM2_COMMAND, reply) {
                    Ok(out) => pm2(out.as_str()),
                    Err(_) => {
                        let none: Vec<Pm2App> = Vec::new();
                        assert(pm2_views(none@) =~= Seq::empty());
                        none
                    },
                };
                Self::ini(cfg, snap)
            },
            Asked::Ini => {
                let cmd = palworld_ini_command(&cfg.palworld);
                snap.palworld_ini = match run(cmd.as_str(), reply) {
                    Ok(text) => match PalIni::parse(text.as_str()) {
                        Ok(ini) => Some(ini),
                        Err(_) => None,
                    },
                    Err(_) => None,
                };
                Self::players(cfg, snap)
            },
            Asked::Players => {
                snap.players = match run_lenient(cfg.palworld.players_command.as_str(), reply) {
                    Ok(out) => Some(parse_players(out.as_str())),
                    Err(_) => None,
                };
                PollMove::Done(snap)
            },
        }
    }

    fn services(cfg: &Config, snap: Snapshot) -> (r: PollMove)
        requires
            snap_wf(snap),
        ensures
            r.wf(),
            r@ == ask_services(cfg@, snap@),
    {
        assert(texts(cfg.services@).len() == cfg.services@.len());
        if cfg.services.len() > 0 {
            PollMove::Ask(
                PollRun { asked: Asked::Services, snap },
                services_command(&cfg.services),
            )
        } else {
            Self::pm2(cfg, snap)
        }
    }

    fn pm2(cfg: &Config, snap: Snapshot) -> (r: PollMove)
        requires
            snap_wf(snap),
        ensures
            r.wf(),
            r@ == ask_pm2(cfg@, snap@),
    {
        if cfg.show_pm2 {
            PollMove::Ask(PollRun { asked: Asked::Pm2, snap }, PM2_COMMAND.to_owned())
        } else {
            Self::ini(cfg, snap)
        }
    }

    fn ini(cfg: &Config, snap: Snapshot) -> (r: PollMove)
        requires
            snap_wf(snap),
        ensures
            r.wf(),
            r@ == ask_ini(cfg@, snap@),
    {
        if cfg.palworld.enabled {
            PollMove::Ask(
                PollRun { asked: Asked::Ini, snap },
                palworld_ini_command(&cfg.palworld),
            )
        } else {
            PollMove::Done(snap)
        }
    }

    fn players(cfg: &Config, snap: Snapshot) -> (r: PollMove)
        requires
            snap_wf(snap),
        ensures
            r.wf(),
            r@ == ask_players(cfg@, snap@),
    {
        let mut snap = snap;
        if !is_up(&snap.services, cfg.palworld.service.as_str()) {
            snap.players = None;
            PollMove::Done(snap)
        } else if !lists_players(&cfg.palworld) {
            let none: Vec<Player> = Vec::new();
            assert(player_views(none@) =~= Seq::empty());
            snap.players = Some(none);
            PollMove::Done(snap)
        } else {
            PollMove::Ask(
                PollRun { asked: Asked::Players, snap },
                cfg.palworld.players_command.clone(),
            )
        }
    }
}

/// Whether the server is among the units, and running.
pub fn is_up(services: &Vec<ServiceStatus>, service: &str) -> (r: bool)
    ensures
        r == palworld_up(service_views(services@), service@),
{
    let ghost all = service_views(services@);
    let mut i: usize = 0;
    while i < services.len()
        invariant
            i <= services.len(),
            all == service_views(services@),
            forall|j: int|
                0 <= j < i ==> !((#[trigger] all[j]).name == service@ && all[j].state == "active"@),
        decreases services.len() - i,
    {
        assert(all[i as int] == services@[i as int]@);
        if same(services[i].name.as_str(), service) && services[i].is_active() {
            return true;
        }
        i += 1;
    }
    false
}

} // verus!
