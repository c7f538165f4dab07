//! Plain data the SSH layer produces and the UI renders.
//!
//! Percentages are kept as the two counts they are the quotient of, and readings
//! that are floating-point numbers at their source as the bits of those numbers:
//! the library compares and passes them on, the program draws them.
use crate::chars::{same, texts};
use crate::numbers::{decimal, digit, push_decimal};
use crate::palworld::{IniView, PalIni};
use vstd::prelude::*;

verus! {

/// CPU time between two samples: `busy` of `total` ticks were not idle.
#[derive(Debug, Clone, Copy, PartialEq, Eq)]
pub struct CpuTicks {
    pub busy: u64,
    pub total: u64,
}

/// A part of a whole.
#[derive(Debug, Clone, Copy, PartialEq, Eq)]
pub struct Share {
    pub used: u64,
    pub total: u64,
}

/// What one look at the host shows.
#[derive(Debug, Clone)]
pub struct Metrics {
    pub hostname: String,
    pub uptime: String,
    pub cores: usize,
    /// `None` where the two samples cannot be compared.
    pub cpu: Option<CpuTicks>,
    /// The first three words of `/proc/loadavg`, or as many as there are.
    pub load: Vec<String>,
    pub mem_total: u64,
    pub mem_available: u64,
    pub swap_total: u64,
    pub swap_free: u64,
    pub disk_total: u64,
    pub disk_used: u64,
}

pub struct MetricsView {
    pub hostname: Seq<char>,
    pub uptime: Seq<char>,
    pub cores: usize,
    pub cpu: Option<CpuTicks>,
    pub load: Seq<Seq<char>>,
    pub mem_total: u64,
    pub mem_available: u64,
    pub swap_total: u64,
    pub swap_free: u64,
    pub disk_total: u64,
    pub disk_used: u64,
}

impl View for Metrics {
    type V = MetricsView;

    open spec fn view(&self) -> MetricsView {
        MetricsView {
            hostname: self.hostname@,
            uptime: self.uptime@,
            cores: self.cores,
            cpu: self.cpu,
            load: texts(self.load@),
            mem_total: self.mem_total,
            mem_available: self.mem_available,
            swap_total: self.swap_total,
            swap_free: self.swap_free,
            disk_total: self.disk_total,
            disk_used: self.disk_used,
        }
    }
}

/// `a` less `b`, or nothing where `b` is more.
pub open spec fn less(a: u64, b: u64) -> u64 {
    if a < b {
        0
    } else {
        (a - b) as u64
    }
}

/// A host that nothing is known of.
pub open spec fn no_metrics() -> MetricsView {
    MetricsView {
        hostname: Seq::empty(),
        uptime: Seq::empty(),
        cores: 0,
        cpu: None,
        load: Seq::empty(),
        mem_total: 0,
        mem_available: 0,
        swap_total: 0,
        swap_free: 0,
        disk_total: 0,
        disk_used: 0,
    }
}

impl Default for Metrics {
    fn default() -> (r: Self)
        ensures
            r@ == no_metrics(),
    {
        let r = Metrics {
            hostname: String::new(),
            uptime: String::new(),
            cores: 0,
            cpu: None,
            load: Vec::new(),
            mem_total: 0,
            mem_available: 0,
            swap_total: 0,
            swap_free: 0,
            disk_total: 0,
            disk_used: 0,
        };
        assert(r@.load =~= Seq::empty());
        r
    }
}

impl Metrics {
    /// Bytes of memory in use.
    pub fn mem_used(&self) -> (r: u64)
        ensures
            r == less(self.mem_total, self.mem_available),
    {
        if self.mem_total < self.mem_available {
            0
        } else {
            self.mem_total - self.mem_available
        }
    }

    /// The share of the memory in use.
    pub fn mem_percent(&self) -> (r: Share)
        ensures
            r.used == less(self.mem_total, self.mem_available),
            r.total == self.mem_total,
            r.used <= r.total,
    {
        Share { used: self.mem_used(), total: self.mem_total }
    }

    /// Bytes of swap in use.
    pub fn swap_used(&self) -> (r: u64)
        ensures
            r == less(self.swap_total, self.swap_free),
    {
        if self.swap_total < self.swap_free {
            0
        } else {
            self.swap_total - self.swap_free
        }
    }

    /// The share of the swap in use.
    pub fn swap_percent(&self) -> (r: Share)
        ensures
            r.used == less(self.swap_total, self.swap_free),
            r.total == self.swap_total,
            r.used <= r.total,
    {
        Share { used: self.swap_used(), total: self.swap_total }
    }

    /// The share of the disk in use.
    pub fn disk_percent(&self) -> (r: Share)
        ensures
            r.used == self.disk_used,
            r.total == self.disk_total,
    {
        Share { used: self.disk_used, total: self.disk_total }
    }
}

/// A systemd unit and what `systemctl` says of it.
#[derive(Debug, Clone)]
pub struct ServiceStatus {
    pub name: String,
    /// `systemctl is-active` verbatim: active / inactive / failed / activating…
    pub state: String,
}

pub struct ServiceView {
    pub name: Seq<char>,
    pub state: Seq<char>,
}

impl View for ServiceStatus {
    type V = ServiceView;

    open spec fn view(&self) -> ServiceView {
        ServiceView { name: self.name@, state: self.state@ }
    }
}

impl ServiceStatus {
    /// Whether the unit is running.
    pub fn is_active(&self) -> (r: bool)
        ensures
            r == (self.state@ == "active"@),
    {
        same(self.state.as_str(), "active")
    }
}

/// A process under PM2.
#[derive(Debug, Clone)]
pub struct Pm2App {
    pub name: String,
    pub status: String,
    /// CPU percentage: the bits of a double-precision number.
    pub cpu_bits: u64,
    pub memory: u64,
    pub restarts: u64,
}

pub struct Pm2View {
    pub name: Seq<char>,
    pub status: Seq<char>,
    pub cpu_bits: u64,
    pub memory: u64,
    pub restarts: u64,
}

impl View for Pm2App {
    type V = Pm2View;

    open spec fn view(&self) -> Pm2View {
        Pm2View {
            name: self.name@,
            status: self.status@,
            cpu_bits: self.cpu_bits,
            memory: self.memory,
            restarts: self.restarts,
        }
    }
}

impl Default for Pm2App {
    fn default() -> (r: Self)
        ensures
            r@ == (Pm2View { name: ""@, status: ""@, cpu_bits: 0, memory: 0, restarts: 0 }),
    {
        Pm2App {
            name: "".to_owned(),
            status: "".to_owned(),
            cpu_bits: 0,
            memory: 0,
            restarts: 0,
        }
    }
}

impl Pm2App {
    /// Whether the app is up.
    pub fn is_online(&self) -> (r: bool)
        ensures
            r == (self.status@ == "online"@),
    {
        same(self.status.as_str(), "online")
    }
}

/// A player on the server.
#[derive(Debug, Clone)]
pub struct Player {
    pub name: String,
    pub playeruid: String,
    pub steamid: String,
}

pub struct PlayerView {
    pub name: Seq<char>,
    pub playeruid: Seq<char>,
    pub steamid: Seq<char>,
}

impl View for Player {
    type V = PlayerView;

    open spec fn view(&self) -> PlayerView {
        PlayerView { name: self.name@, playeruid: self.playeruid@, steamid: self.steamid@ }
    }
}

/// One process. The command *name* only — never the full argv. This host runs an
/// MCP server whose argv carries an API key, and anything the UI draws can end up
/// in a screenshot in the (public) repo.
#[derive(Debug, Clone)]
pub struct Proc {
    pub pid: i32,
    pub ppid: i32,
    pub user: String,
    /// Instantaneous CPU percentage, from a /proc delta — not `ps` %CPU, which is
    /// an average over the whole lifetime: the bits of a single-precision number.
    pub cpu_bits: u32,
    pub rss: u64,
    pub uptime: u64,
    pub comm: String,
}

pub struct ProcView {
    pub pid: i32,
    pub ppid: i32,
    pub user: Seq<char>,
    pub cpu_bits: u32,
    pub rss: u64,
    pub uptime: u64,
    pub comm: Seq<char>,
}

impl View for Proc {
    type V = ProcView;

    open spec fn view(&self) -> ProcView {
        ProcView {
            pid: self.pid,
            ppid: self.ppid,
            user: self.user@,
            cpu_bits: self.cpu_bits,
            rss: self.rss,
            uptime: self.uptime,
            comm: self.comm@,
        }
    }
}

/// The thread daemon of the kernel, or one of its threads.
pub open spec fn of_the_kernel(p: ProcView) -> bool {
    p.pid == 2 || p.ppid == 2
}

impl Proc {
    /// Kernel threads (`kworker/*`, `kthreadd`…) are children of pid 2 and hold
    /// no memory. They idle at 0% and would just pad out the table.
    pub fn is_kernel_thread(&self) -> (r: bool)
        ensures
            r == of_the_kernel(self@),
    {
        self.pid == 2 || self.ppid == 2
    }
}

/// A session of the coding assistant: its process with the whole tree below it (MCP servers,
/// browsers…) rolled into it. Flat, that tree is ~40 processes per session and drowns out
/// everything else.
#[derive(Debug, Clone)]
pub struct ClaudeSession {
    pub pid: i32,
    /// Working directory — the only thing that tells two sessions apart.
    pub cwd: String,
    pub uptime: u64,
    /// The CPU readings of the session and its descendants, in the order in which
    /// they are added up.
    pub cpu_parts: Vec<u32>,
    /// Session + descendants.
    pub rss: u64,
    pub descendants: usize,
}

pub struct ClaudeView {
    pub pid: i32,
    pub cwd: Seq<char>,
    pub uptime: u64,
    pub cpu_parts: Seq<u32>,
    pub rss: int,
    pub descendants: int,
}

impl View for ClaudeSession {
    type V = ClaudeView;

    open spec fn view(&self) -> ClaudeView {
        ClaudeView {
            pid: self.pid,
            cwd: self.cwd@,
            uptime: self.uptime,
            cpu_parts: self.cpu_parts@,
            rss: self.rss as int,
            descendants: self.descendants as int,
        }
    }
}

/// A point in the rolling CPU/memory history behind the graphs.
#[derive(Debug, Clone, Copy)]
pub struct Sample {
    /// Time since the app started: whole seconds …
    pub secs: u64,
    /// … and nanoseconds.
    pub nanos: u32,
    pub cpu: Option<CpuTicks>,
    pub mem: Share,
}

/// Everything one poll cycle produces. Palworld pieces are `None` when the
/// Palworld integration is disabled or the host isn't running it.
#[derive(Debug, Clone)]
pub struct Snapshot {
    pub metrics: Metrics,
    pub services: Vec<ServiceStatus>,
    pub pm2: Vec<Pm2App>,
    pub players: Option<Vec<Player>>,
    pub palworld_ini: Option<PalIni>,
    pub procs: Vec<Proc>,
    pub claude: Vec<ClaudeSession>,
}

pub struct SnapshotView {
    pub metrics: MetricsView,
    pub services: Seq<ServiceView>,
    pub pm2: Seq<Pm2View>,
    pub players: Option<Seq<PlayerView>>,
    pub palworld_ini: Option<IniView>,
    pub procs: Seq<ProcView>,
    pub claude: Seq<ClaudeView>,
}

pub open spec fn service_views(v: Seq<ServiceStatus>) -> Seq<ServiceView> {
    v.map_values(|x: ServiceStatus| x@)
}

pub open spec fn pm2_views(v: Seq<Pm2App>) -> Seq<Pm2View> {
    v.map_values(|x: Pm2App| x@)
}

pub open spec fn player_views(v: Seq<Player>) -> Seq<PlayerView> {
    v.map_values(|x: Player| x@)
}

pub open spec fn proc_views(v: Seq<Proc>) -> Seq<ProcView> {
    v.map_values(|x: Proc| x@)
}

pub open spec fn claude_views(v: Seq<ClaudeSession>) -> Seq<ClaudeView> {
    v.map_values(|x: ClaudeSession| x@)
}

pub open spec fn players_view(v: Option<Vec<Player>>) -> Option<Seq<PlayerView>> {
    match v {
        Some(p) => Some(player_views(p@)),
        None => None,
    }
}

pub open spec fn ini_view(v: Option<PalIni>) -> Option<IniView> {
    match v {
        Some(ini) => Some(ini@),
        None => None,
    }
}

impl View for Snapshot {
    type V = SnapshotView;

    open spec fn view(&self) -> SnapshotView {
        SnapshotView {
            metrics: self.metrics@,
            services: service_views(self.services@),
            pm2: pm2_views(self.pm2@),
            players: players_view(self.players),
            palworld_ini: ini_view(self.palworld_ini),
            procs: proc_views(self.procs@),
            claude: claude_views(self.claude@),
        }
    }
}

/// Before anything was polled.
pub open spec fn no_snapshot() -> SnapshotView {
    SnapshotView {
        metrics: no_metrics(),
        services: Seq::empty(),
        pm2: Seq::empty(),
        players: None,
        palworld_ini: None,
        procs: Seq::empty(),
        claude: Seq::empty(),
    }
}

impl Default for Snapshot {
    fn default() -> (r: Self)
        ensures
            r@ == no_snapshot(),
    {
        let r = Snapshot {
            metrics: Metrics::default(),
            services: Vec::new(),
            pm2: Vec::new(),
            players: None,
            palworld_ini: None,
            procs: Vec::new(),
            claude: Vec::new(),
        };
        assert(r@.services =~= Seq::empty());
        assert(r@.pm2 =~= Seq::empty());
        assert(r@.procs =~= Seq::empty());
        assert(r@.claude =~= Seq::empty());
        r
    }
}

impl Snapshot {
    /// The first process with the command name `comm`.
    pub fn proc_by_comm(&self, comm: &str) -> (r: Option<&Proc>)
        ensures
            match r {
                Some(p) => exists|i: int|
                    0 <= i < self.procs@.len() && *p == #[trigger] self.procs@[i] && p.comm@ == comm@
                        && forall|j: int|
                        0 <= j < i ==> (#[trigger] self.procs@[j]).comm@ != comm@,
                None => forall|j: int|
                    0 <= j < self.procs@.len() ==> (#[trigger] self.procs@[j]).comm@ != comm@,
            },
    {
        let mut i: usize = 0;
        while i < self.procs.len()
            invariant
                i <= self.procs.len(),
                forall|j: int| 0 <= j < i ==> (#[trigger] self.procs@[j]).comm@ != comm@,
            decreases self.procs.len() - i,
        {
            if same(self.procs[i].comm.as_str(), comm) {
                return Some(&self.procs[i]);
            }
            i += 1;
        }
        None
    }
}

// ---------------------------------------------------------------------------
// Durations and sizes for people
// ---------------------------------------------------------------------------
/// A duration: hours and minutes, or minutes, or seconds where it is under a minute.
pub open spec fn secs_text(secs: nat) -> Seq<char> {
    let h = secs / 3600;
    let m = (secs % 3600) / 60;
    if h == 0 && m == 0 {
        decimal(secs) + "秒"@
    } else if h == 0 {
        decimal(m) + "分"@
    } else {
        decimal(h) + "時間"@ + decimal(m) + "分"@
    }
}

/// A duration in hours, minutes or seconds.
pub fn human_secs(secs: u64) -> (r: String)
    ensures
        r@ == secs_text(secs as nat),
{
    let h = secs / 3600;
    let m = (secs % 3600) / 60;
    let mut out = String::new();
    if h == 0 && m == 0 {
        push_decimal(&mut out, secs);
        out.append("秒");
        assert(out@ =~= secs_text(secs as nat));
    } else if h == 0 {
        push_decimal(&mut out, m);
        out.append("分");
        assert(out@ =~= secs_text(secs as nat));
    } else {
        push_decimal(&mut out, h);
        out.append("時間");
        push_decimal(&mut out, m);
        out.append("分");
        assert(out@ =~= secs_text(secs as nat));
    }
    out
}

/// `n / d` rounded to the nearest integer, to the even one of two that are as near.
pub open spec fn nearest(n: nat, d: nat) -> nat {
    let q = n / d;
    let r = n % d;
    if 2 * r < d || (2 * r == d && q % 2 == 0) {
        q
    } else {
        q + 1
    }
}

/// The distance of the double-precision numbers around `n`: they have 53 bits.
pub open spec fn double_gap(n: nat) -> nat
    decreases n,
{
    if n < 0x20_0000_0000_0000 {
        1
    } else {
        2 * double_gap(n / 2)
    }
}

/// The double-precision number nearest to `n`.
pub open spec fn as_double(n: nat) -> nat {
    nearest(n, double_gap(n)) * double_gap(n)
}

/// The largest of the units from KB to TB that `v` bytes are one of, as its size and
/// its name.
pub open spec fn size_unit(v: nat) -> (nat, Seq<char>) {
    if v < 0x10_0000 {
        (0x400, "KB"@)
    } else if v < 0x4000_0000 {
        (0x10_0000, "MB"@)
    } else if v < 0x100_0000_0000 {
        (0x4000_0000, "GB"@)
    } else {
        (0x100_0000_0000, "TB"@)
    }
}

/// A size in bytes with one decimal in the largest unit that it is at least one of.
pub open spec fn bytes_text(n: nat) -> Seq<char> {
    let v = as_double(n);
    if v < 1024 {
        decimal(n) + " B"@
    } else {
        let (unit, name) = size_unit(v);
        let tenths = nearest(10 * v, unit);
        decimal(tenths / 10) + seq!['.', digit((tenths % 10) as int), ' '] + name
    }
}

fn gap_of(n: u64) -> (r: u64)
    ensures
        r == double_gap(n as nat),
        n < 0x20_0000_0000_0000 ==> r == 1,
        n >= 0x20_0000_0000_0000 ==> r * 0x10_0000_0000_0000 <= n,
        r >= 1,
    decreases n,
{
    if n < 0x20_0000_0000_0000 {
        1
    } else {
        2 * gap_of(n / 2)
    }
}

fn nearest_of(n: u128, d: u128) -> (r: u128)
    requires
        0 < d <= 0x1_0000_0000_0000_0000,
        n <= 0x100_0000_0000_0000_0000,
    ensures
        r == nearest(n as nat, d as nat),
        r <= n / d + 1,
{
    let q = n / d;
    let rest = n % d;
    proof {
        assert(n as nat / d as nat == q);
        assert(n as nat % d as nat == rest);
        vstd::arithmetic::div_mod::lemma_div_is_ordered_by_denominator(n as int, 1, d as int);
        assert(n / 1 == n);
        assert(rest < d);
    }
    if 2 * rest < d || (2 * rest == d && q % 2 == 0) {
        q
    } else {
        q + 1
    }
}

fn push_size(out: &mut String, v: u128, unit: u128, name: &str)
    requires
        unit == 0x400 || unit == 0x10_0000 || unit == 0x4000_0000 || unit == 0x100_0000_0000,
        v <= 0x1_0000_0000_0000_1000,
        v / unit <= 0x1000_0000,
    ensures
        final(out)@ == old(out)@ + ({
            let tenths = nearest(10 * v as nat, unit as nat);
            decimal(tenths / 10) + seq!['.', digit((tenths % 10) as int), ' '] + name@
        }),
{
    let ghost before = out@;
    let tenths = nearest_of(10 * v, unit);
    assert(tenths <= 0x10_0000_0000);
    push_decimal(out, (tenths / 10) as u64);
    out.push('.');
    let c = (48u8 + (tenths % 10) as u8) as char;
    assert(c == digit((tenths % 10) as int));
    out.push(c);
    out.push(' ');
    out.append(name);
    assert(out@ =~= before + (decimal(tenths as nat / 10) + seq!['.', c, ' '] + name@));
}

/// A size in bytes, KB, MB, GB or TB.
pub fn human_bytes(n: u64) -> (r: String)
    ensures
        r@ == bytes_text(n as nat),
{
    let gap = gap_of(n);
    let q = nearest_of(n as u128, gap as u128);
    proof {
        assert(gap <= 0x1000);
        assert((n as int / gap as int) * (gap as int) <= n as int) by (nonlinear_arith)
            requires
                gap > 0,
                n >= 0,
        ;
        assert(q * gap <= (n as int / gap as int) * (gap as int) + gap) by (nonlinear_arith)
            requires
                q <= n as int / gap as int + 1,
                gap > 0,
        ;
    }
    let v: u128 = q * gap as u128;
    let mut out = String::new();
    if v < 1024 {
        push_decimal(&mut out, n);
        out.append(" B");
    } else if v < 0x10_0000 {
        push_size(&mut out, v, 0x400, "KB");
    } else if v < 0x4000_0000 {
        push_size(&mut out, v, 0x10_0000, "MB");
    } else if v < 0x100_0000_0000 {
        push_size(&mut out, v, 0x4000_0000, "GB");
    } else {
        push_size(&mut out, v, 0x100_0000_0000, "TB");
    }
    assert(out@ =~= bytes_text(n as nat));
    out
}

} // verus!
