//! The takeover of the system proxy and its release, as steps the caller carries out
//! in order: persist the record of the user's settings, change the settings, restore
//! them from the record, clear the record.
use vstd::prelude::*;
use crate::command::SystemCommand;
use crate::text::decimal;
use crate::scan::contains;
use crate::records::{MacServiceRecord, WinProxyRecord, LinuxProxyRecord, ProxyTakeoverRecord};
use crate::macos::{MacAction, MacProxyState, describes, pac_is_ours, socks_is_ours, reportable, autoproxy_output, socks_output, is_service_record, opt_view, lemma_service_record_describes, mac_run, mac_apply, restore_actions, restore_mac_services, is_takeover_actions, apply_takeover_mac, lemma_restore_actions, distinct_names};
use crate::windows::{WinAction, server_is_ours, win_snapshot_of, reg_reportable, enable_query_output, sz_query_output, reg_query_value, is_win_record, lemma_win_record_describes, is_reg_set, win_run, win_apply, is_win_restore, restore_win_proxy, is_win_takeover, apply_takeover_win, lemma_win_restore, enable_flag, holds_or_lacks, socks_server_value};
use crate::linux::{GSet, mode_is_manual, gsettings_run, gsettings_apply, is_linux_restore, restore_linux_proxy, is_linux_takeover, apply_takeover_linux, lemma_linux_restore, restored_mode, mode_key, host_key, port_key};

verus! {

/// The operating system whose proxy settings are handled.
#[derive(Debug, Clone, Copy, PartialEq, Eq, Structural)]
pub enum Platform {
    MacOs,
    Windows,
    Linux,
}

/// A change to the system proxy settings of one platform.
#[derive(Debug, Clone)]
pub enum ProxyAction {
    Mac(MacAction),
    Win(WinAction),
    Linux(GSet),
}

impl ProxyAction {
    /// The program invocation that carries out this change.
    pub fn to_command(&self) -> (c: SystemCommand)
        ensures
            match *self {
                ProxyAction::Mac(a) => c.is("networksetup"@, crate::macos::mac_action_args(a)),
                ProxyAction::Win(a) => c.is(crate::windows::win_action_command(a).0, crate::windows::win_action_command(a).1),
                ProxyAction::Linux(a) => c.is("gsettings"@, seq!["set"@, a.schema@, a.key@, a.value@]),
            },
    {
        match self {
            ProxyAction::Mac(a) => a.to_command(),
            ProxyAction::Win(a) => a.to_command(),
            ProxyAction::Linux(a) => a.to_command(),
        }
    }
}

/// The user's settings, as read on one platform just before a takeover.
#[derive(Debug, Clone)]
pub enum PlatformSnapshot {
    Mac(Vec<MacServiceRecord>),
    Windows(WinProxyRecord),
    Linux(LinuxProxyRecord),
}

/// One thing to do, in order, to take the proxy over or give it back.
#[derive(Debug, Clone)]
pub enum Step {
    /// Write the record to disk (atomically) before anything is changed.
    Persist(ProxyTakeoverRecord),
    /// Change a setting.
    Run(ProxyAction),
    /// Remove the record from disk.
    ClearRecord,
    /// No record exists: clear, on the platform, only what an earlier version of this
    /// shell left behind.
    FeatureCleanup(Platform),
}

/// The record a takeover persists: format version 1, the time, and the snapshot in the
/// section of its platform.
pub open spec fn takeover_record_of(taken_at: u64, snapshot: PlatformSnapshot) -> ProxyTakeoverRecord {
    ProxyTakeoverRecord {
        version: 1,
        taken_at,
        macos: match snapshot { PlatformSnapshot::Mac(v) => Some(v), _ => None },
        windows: match snapshot { PlatformSnapshot::Windows(w) => Some(w), _ => None },
        linux: match snapshot { PlatformSnapshot::Linux(l) => Some(l), _ => None },
    }
}

/// The record a takeover persists.
pub fn takeover_record(taken_at: u64, snapshot: PlatformSnapshot) -> (r: ProxyTakeoverRecord)
    ensures
        r == takeover_record_of(taken_at, snapshot),
{
    match snapshot {
        PlatformSnapshot::Mac(v) => ProxyTakeoverRecord { version: 1, taken_at, macos: Some(v), windows: None, linux: None },
        PlatformSnapshot::Windows(w) => ProxyTakeoverRecord { version: 1, taken_at, macos: None, windows: Some(w), linux: None },
        PlatformSnapshot::Linux(l) => ProxyTakeoverRecord { version: 1, taken_at, macos: None, windows: None, linux: Some(l) },
    }
}

pub open spec fn mac_steps(acts: Seq<MacAction>) -> Seq<Step> {
    acts.map_values(|a: MacAction| Step::Run(ProxyAction::Mac(a)))
}

pub open spec fn win_steps(acts: Seq<WinAction>) -> Seq<Step> {
    acts.map_values(|a: WinAction| Step::Run(ProxyAction::Win(a)))
}

pub open spec fn linux_steps(acts: Seq<GSet>) -> Seq<Step> {
    acts.map_values(|a: GSet| Step::Run(ProxyAction::Linux(a)))
}

/// The changes of a takeover on the snapshot's platform: on macOS each listed service is
/// pointed at the daemon's PAC; elsewhere the system proxy is pointed at the SOCKS port.
pub open spec fn is_takeover_changes(steps: Seq<Step>, snapshot: PlatformSnapshot, port: u16, services: Seq<String>) -> bool {
    match snapshot {
        PlatformSnapshot::Mac(_) => exists|acts: Seq<MacAction>| is_takeover_actions(acts, services) && steps == mac_steps(acts),
        PlatformSnapshot::Windows(_) => exists|acts: Seq<WinAction>| is_win_takeover(acts, port) && steps == win_steps(acts),
        PlatformSnapshot::Linux(_) => exists|acts: Seq<GSet>| is_linux_takeover(acts, port) && steps == linux_steps(acts),
    }
}

fn push_mac(steps: &mut Vec<Step>, acts: Vec<MacAction>)
    ensures
        final(steps)@ == old(steps)@ + mac_steps(acts@),
{
    let ghost start = steps@;
    for a in it: acts
        invariant
            it.seq() == acts@,
            steps@ == start + mac_steps(it.seq().take(it.index())),
    {
        proof {
            assert(it.seq().take(it.index() + 1) =~= it.seq().take(it.index()).push(a));
        }
        steps.push(Step::Run(ProxyAction::Mac(a)));
        proof {
            assert(steps@ =~= start + mac_steps(it.seq().take(it.index() + 1)));
        }
    }
    proof {
        assert(acts@.take(acts@.len() as int) =~= acts@);
    }
}

fn push_win(steps: &mut Vec<Step>, acts: Vec<WinAction>)
    ensures
        final(steps)@ == old(steps)@ + win_steps(acts@),
{
    let ghost start = steps@;
    for a in it: acts
        invariant
            it.seq() == acts@,
            steps@ == start + win_steps(it.seq().take(it.index())),
    {
        proof {
            assert(it.seq().take(it.index() + 1) =~= it.seq().take(it.index()).push(a));
        }
        steps.push(Step::Run(ProxyAction::Win(a)));
        proof {
            assert(steps@ =~= start + win_steps(it.seq().take(it.index() + 1)));
        }
    }
    proof {
        assert(acts@.take(acts@.len() as int) =~= acts@);
    }
}

fn push_linux(steps: &mut Vec<Step>, acts: Vec<GSet>)
    ensures
        final(steps)@ == old(steps)@ + linux_steps(acts@),
{
    let ghost start = steps@;
    for a in it: acts
        invariant
            it.seq() == acts@,
            steps@ == start + linux_steps(it.seq().take(it.index())),
    {
        proof {
            assert(it.seq().take(it.index() + 1) =~= it.seq().take(it.index()).push(a));
        }
        steps.push(Step::Run(ProxyAction::Linux(a)));
        proof {
            assert(steps@ =~= start + linux_steps(it.seq().take(it.index() + 1)));
        }
    }
    proof {
        assert(acts@.take(acts@.len() as int) =~= acts@);
    }
}

/// The changes of a takeover on the snapshot's platform: on macOS the listed services are
/// taken over (none when the list is empty); elsewhere the system proxy is pointed at
/// `socks_port`.
pub fn takeover_changes(snapshot: &PlatformSnapshot, socks_port: u16, services: &Vec<String>) -> (res: Vec<Step>)
    ensures
        is_takeover_changes(res@, *snapshot, socks_port, services@),
{
    let mut res: Vec<Step> = Vec::new();
    match snapshot {
        PlatformSnapshot::Mac(_) => {
            let acts = apply_takeover_mac(services);
            let ghost a = acts@;
            push_mac(&mut res, acts);
            assert(res@ =~= mac_steps(a));
        },
        PlatformSnapshot::Windows(_) => {
            let acts = apply_takeover_win(socks_port);
            let ghost a = acts@;
            push_win(&mut res, acts);
            assert(res@ =~= win_steps(a));
        },
        PlatformSnapshot::Linux(_) => {
            let acts = apply_takeover_linux(socks_port);
            let ghost a = acts@;
            push_linux(&mut res, acts);
            assert(res@ =~= linux_steps(a));
        },
    }
    res
}

/// The steps of a takeover: persist the record of the snapshot first, then change the
/// settings of the snapshot's platform.
pub fn engage_steps(taken_at: u64, snapshot: PlatformSnapshot, socks_port: u16, services: &Vec<String>) -> (res: Vec<Step>)
    ensures
        res@.len() >= 1,
        res@[0] == Step::Persist(takeover_record_of(taken_at, snapshot)),
        is_takeover_changes(res@.drop_first(), snapshot, socks_port, services@),
{
    let changes = takeover_changes(&snapshot, socks_port, services);
    let record = takeover_record(taken_at, snapshot);
    let mut res: Vec<Step> = Vec::new();
    res.push(Step::Persist(record));
    let ghost c = changes@;
    for st in it: changes
        invariant
            it.seq() == c,
            res@.len() >= 1,
            res@[0] == Step::Persist(takeover_record_of(taken_at, snapshot)),
            res@.drop_first() == c.take(it.index()),
    {
        proof {
            assert(c.take(it.index() + 1) =~= c.take(it.index()).push(st));
        }
        res.push(st);
        proof {
            assert(res@.drop_first() =~= c.take(it.index() + 1));
        }
    }
    proof {
        assert(c.take(c.len() as int) =~= c);
    }
    res
}

/// Whether to go on after carrying out a step: a takeover stops where its record could
/// not be persisted, so that no setting is changed without the record on disk; after any
/// other step the caller goes on.
pub fn go_on_after(step: &Step, succeeded: bool) -> (go_on: bool)
    ensures
        go_on == (succeeded || !(*step is Persist)),
{
    match step {
        Step::Persist(_) => succeeded,
        _ => true,
    }
}

/// The steps that give the proxy back on `platform`: with a record, restore the
/// settings its section for the platform holds (none when that section is absent) and
/// then clear the record; without a record, only the feature cleanup.
pub open spec fn is_release_steps(steps: Seq<Step>, platform: Platform, record: Option<ProxyTakeoverRecord>) -> bool {
    match record {
        None => steps == seq![Step::FeatureCleanup(platform)],
        Some(r) => {
            &&& steps.len() >= 1
            &&& steps.last() == Step::ClearRecord
            &&& is_restore_changes(steps.drop_last(), platform, r)
        },
    }
}

/// The changes that restore the record's section for `platform`.
pub open spec fn is_restore_changes(steps: Seq<Step>, platform: Platform, r: ProxyTakeoverRecord) -> bool {
    match platform {
        Platform::MacOs => match r.macos {
            Some(recs) => steps == mac_steps(restore_actions(recs@)),
            None => steps.len() == 0,
        },
        Platform::Windows => match r.windows {
            Some(w) => exists|acts: Seq<WinAction>| is_win_restore(acts, w) && steps == win_steps(acts),
            None => steps.len() == 0,
        },
        Platform::Linux => match r.linux {
            Some(l) => exists|acts: Seq<GSet>| is_linux_restore(acts, l) && steps == linux_steps(acts),
            None => steps.len() == 0,
        },
    }
}

/// The steps that give the proxy back, from the record read from disk (`None` where
/// there is none or it could not be read).
pub fn release_proxy(platform: Platform, record: Option<ProxyTakeoverRecord>) -> (res: Vec<Step>)
    ensures
        is_release_steps(res@, platform, record),
{
    let mut res: Vec<Step> = Vec::new();
    match record {
        None => {
            res.push(Step::FeatureCleanup(platform));
            assert(res@ =~= seq![Step::FeatureCleanup(platform)]);
        },
        Some(r) => {
            match platform {
                Platform::MacOs => {
                    if let Some(recs) = &r.macos {
                        let acts = restore_mac_services(recs);
                        push_mac(&mut res, acts);
                    }
                },
                Platform::Windows => {
                    if let Some(w) = &r.windows {
                        let acts = restore_win_proxy(w);
                        let ghost a = acts@;
                        push_win(&mut res, acts);
                        assert(res@ =~= win_steps(a));
                    }
                },
                Platform::Linux => {
                    if let Some(l) = &r.linux {
                        let acts = restore_linux_proxy(l);
                        let ghost a = acts@;
                        push_linux(&mut res, acts);
                        assert(res@ =~= linux_steps(a));
                    }
                },
            }
            let ghost changes = res@;
            res.push(Step::ClearRecord);
            assert(res@.drop_last() =~= changes);
            assert(changes =~= Seq::<Step>::empty() + changes);
        },
    }
    res
}

/// The steps of the self-healing at start-up: a record left by a crash or a kill is
/// released exactly as a normal release would; without one, only the feature cleanup.
pub fn recover_orphaned_takeover(platform: Platform, record: Option<ProxyTakeoverRecord>) -> (res: Vec<Step>)
    ensures
        is_release_steps(res@, platform, record),
{
    release_proxy(platform, record)
}

/// A request to change the system proxy: take it over (with the user's settings read
/// just before, the time, the SOCKS port, on macOS the services to take over, and the
/// record already on disk, if any), or give it back (with the record read from disk).
#[derive(Debug)]
pub enum ProxyRequest {
    Enable {
        taken_at: u64,
        snapshot: PlatformSnapshot,
        socks_port: u16,
        services: Vec<String>,
        on_disk: Option<ProxyTakeoverRecord>,
    },
    Disable { platform: Platform, record: Option<ProxyTakeoverRecord> },
}

/// The steps that carry out a request. A takeover with no record on disk persists the
/// record of the user's settings before it changes them; a takeover while a record is on
/// disk (the proxy is already taken over) keeps that record, which holds the user's own
/// settings, and only makes the changes. A release restores the settings from the record.
pub fn set_system_proxy(request: ProxyRequest) -> (res: Vec<Step>)
    ensures
        match request {
            ProxyRequest::Enable { taken_at, snapshot, socks_port, services, on_disk } => match on_disk {
                None => {
                    &&& res@.len() >= 1
                    &&& res@[0] == Step::Persist(takeover_record_of(taken_at, snapshot))
                    &&& is_takeover_changes(res@.drop_first(), snapshot, socks_port, services@)
                },
                Some(_) => is_takeover_changes(res@, snapshot, socks_port, services@),
            },
            ProxyRequest::Disable { platform, record } => is_release_steps(res@, platform, record),
        },
{
    match request {
        ProxyRequest::Enable { taken_at, snapshot, socks_port, services, on_disk } => match on_disk {
            None => engage_steps(taken_at, snapshot, socks_port, &services),
            Some(_) => takeover_changes(&snapshot, socks_port, &services),
        },
        ProxyRequest::Disable { platform, record } => release_proxy(platform, record),
    }
}

/// What is on the takeover-record file when it is read.
#[derive(Debug, Clone)]
pub enum RecordFile {
    /// There is no file, or it cannot be read.
    Missing,
    /// The file holds text that is not a record.
    Corrupt,
    /// The file holds a record.
    Valid(ProxyTakeoverRecord),
}

/// What reading the record gives, and whether the file is to be deleted: a corrupt
/// file reads as no record and is deleted; a missing one reads as no record.
pub fn read_outcome(file: RecordFile) -> (res: (Option<ProxyTakeoverRecord>, bool))
    ensures
        match file {
            RecordFile::Missing => res.0 is None && !res.1,
            RecordFile::Corrupt => res.0 is None && res.1,
            RecordFile::Valid(r) => res.0 == Some(r) && !res.1,
        },
{
    match file {
        RecordFile::Missing => (None, false),
        RecordFile::Corrupt => (None, true),
        RecordFile::Valid(r) => (Some(r), false),
    }
}

} // verus!

verus! {

// ---------------------------------------------------------------------------
// A model of the machine: the record on disk and the proxy settings
// ---------------------------------------------------------------------------

/// The takeover record on disk and the proxy settings of each platform.
pub struct SystemModel {
    pub record: Option<ProxyTakeoverRecord>,
    pub mac: Map<Seq<char>, MacProxyState>,
    pub win: Map<Seq<char>, Seq<char>>,
    pub gnome: Map<(Seq<char>, Seq<char>), Seq<char>>,
}

/// A macOS service after the feature cleanup, which reads the service through what
/// `networksetup` prints: a PAC address of this shell switches the PAC proxy off and
/// clears the address; a SOCKS proxy at one of this shell's ports is switched off.
pub open spec fn mac_cleaned(m: MacProxyState) -> MacProxyState {
    let pac = pac_is_ours(autoproxy_output(m));
    let socks = socks_is_ours(socks_output(m));
    MacProxyState {
        auto_url: if pac { Seq::empty() } else { m.auto_url },
        auto_on: if pac { false } else { m.auto_on },
        socks_host: m.socks_host,
        socks_port: m.socks_port,
        socks_on: if socks { false } else { m.socks_on },
    }
}

/// The `ProxyServer` value that the cleanup reads through `reg query`.
pub open spec fn win_server_shown(reg: Map<Seq<char>, Seq<char>>) -> Option<Seq<char>> {
    reg_query_value(Some(sz_query_output(reg, "ProxyServer"@)), "ProxyServer"@)
}

/// What `gsettings get` prints for a key: its value on a line, or nothing where the key
/// is not set.
pub open spec fn gsettings_shown(db: Map<(Seq<char>, Seq<char>), Seq<char>>, k: (Seq<char>, Seq<char>)) -> Option<Seq<char>> {
    if db.dom().contains(k) { Some(crate::linux::printed(db[k])) } else { None }
}

/// The settings carry a mark of this shell that the feature cleanup clears: on macOS a
/// service whose PAC output names this shell or whose SOCKS output points at one of its
/// ports; on Windows a `ProxyServer` at its port; on Linux a manual mode with a SOCKS host
/// on `127.0.0.1`.
pub open spec fn has_shell_marks(s: SystemModel, platform: Platform) -> bool {
    match platform {
        Platform::MacOs => exists|x: Seq<char>| #[trigger] s.mac.dom().contains(x)
            && (pac_is_ours(autoproxy_output(s.mac[x])) || socks_is_ours(socks_output(s.mac[x]))),
        Platform::Windows => win_server_shown(s.win) matches Some(v) && server_is_ours(v),
        Platform::Linux => (gsettings_shown(s.gnome, mode_key()) matches Some(m) && mode_is_manual(m))
            && (gsettings_shown(s.gnome, host_key()) matches Some(h) && contains(h, "127.0.0.1"@)),
    }
}

/// The machine after the feature cleanup on `platform`: what `fallback_cleanup_mac`,
/// `fallback_cleanup_win` and `fallback_cleanup_linux` change, given the tools' output
/// for the current settings; the record and the other platforms stay as they are.
pub open spec fn cleaned(s: SystemModel, platform: Platform) -> SystemModel {
    match platform {
        Platform::MacOs => SystemModel {
            mac: Map::new(|x: Seq<char>| s.mac.dom().contains(x), |x: Seq<char>| mac_cleaned(s.mac[x])),
            ..s
        },
        Platform::Windows => if has_shell_marks(s, Platform::Windows) {
            SystemModel { win: s.win.insert("ProxyEnable"@, "0"@), ..s }
        } else {
            s
        },
        Platform::Linux => if has_shell_marks(s, Platform::Linux) {
            SystemModel { gnome: s.gnome.insert(mode_key(), "none"@), ..s }
        } else {
            s
        },
    }
}

/// The machine after one step.
pub open spec fn step_effect(s: SystemModel, st: Step) -> Option<SystemModel> {
    match st {
        Step::Persist(r) => Some(SystemModel { record: Some(r), ..s }),
        Step::Run(ProxyAction::Mac(a)) => Some(SystemModel { mac: mac_apply(s.mac, a), ..s }),
        Step::Run(ProxyAction::Win(a)) => Some(SystemModel { win: win_apply(s.win, a), ..s }),
        Step::Run(ProxyAction::Linux(a)) => Some(SystemModel { gnome: gsettings_apply(s.gnome, a), ..s }),
        Step::ClearRecord => Some(SystemModel { record: None, ..s }),
        Step::FeatureCleanup(p) => Some(cleaned(s, p)),
    }
}

/// The machine after a sequence of steps, run in order.
pub open spec fn run_steps(s: SystemModel, steps: Seq<Step>) -> Option<SystemModel>
    decreases steps.len(),
{
    if steps.len() == 0 {
        Some(s)
    } else {
        match run_steps(s, steps.drop_last()) {
            Some(m) => step_effect(m, steps.last()),
            None => None,
        }
    }
}

pub proof fn lemma_run_steps_append(s: SystemModel, a: Seq<Step>, b: Seq<Step>)
    ensures
        run_steps(s, a + b) == match run_steps(s, a) {
            Some(m) => run_steps(m, b),
            None => None,
        },
    decreases b.len(),
{
    if b.len() == 0 {
        assert(a + b =~= a);
        if let Some(m) = run_steps(s, a) {
            assert(run_steps(m, b) == Some(m));
        }
    } else {
        assert((a + b).drop_last() =~= a + b.drop_last());
        lemma_run_steps_append(s, a, b.drop_last());
    }
}

pub proof fn lemma_run_mac_steps(s: SystemModel, acts: Seq<MacAction>)
    ensures
        run_steps(s, mac_steps(acts)) == Some(SystemModel { mac: mac_run(s.mac, acts), ..s }),
    decreases acts.len(),
{
    if acts.len() > 0 {
        assert(mac_steps(acts).drop_last() =~= mac_steps(acts.drop_last()));
        lemma_run_mac_steps(s, acts.drop_last());
    } else {
        assert(mac_steps(acts).len() == 0);
    }
}

pub proof fn lemma_run_win_steps(s: SystemModel, acts: Seq<WinAction>)
    ensures
        run_steps(s, win_steps(acts)) == Some(SystemModel { win: win_run(s.win, acts), ..s }),
    decreases acts.len(),
{
    if acts.len() > 0 {
        assert(win_steps(acts).drop_last() =~= win_steps(acts.drop_last()));
        lemma_run_win_steps(s, acts.drop_last());
    } else {
        assert(win_steps(acts).len() == 0);
    }
}

pub proof fn lemma_run_linux_steps(s: SystemModel, acts: Seq<GSet>)
    ensures
        run_steps(s, linux_steps(acts)) == Some(SystemModel { gnome: gsettings_run(s.gnome, acts), ..s }),
    decreases acts.len(),
{
    if acts.len() > 0 {
        assert(linux_steps(acts).drop_last() =~= linux_steps(acts.drop_last()));
        lemma_run_linux_steps(s, acts.drop_last());
    } else {
        assert(linux_steps(acts).len() == 0);
    }
}

} // verus!

verus! {

// ---------------------------------------------------------------------------
// Laws of the takeover and its release
// ---------------------------------------------------------------------------

proof fn lemma_steps_take(acts_m: Seq<MacAction>, acts_w: Seq<WinAction>, acts_l: Seq<GSet>, j: int)
    ensures
        0 <= j <= acts_m.len() ==> mac_steps(acts_m).take(j) =~= mac_steps(acts_m.take(j)),
        0 <= j <= acts_w.len() ==> win_steps(acts_w).take(j) =~= win_steps(acts_w.take(j)),
        0 <= j <= acts_l.len() ==> linux_steps(acts_l).take(j) =~= linux_steps(acts_l.take(j)),
{
}

/// A takeover persists its record before it changes anything: after its first step,
/// and so at every point where it may be interrupted, the record of the user's
/// settings is on disk and the steps so far can be carried out.
pub proof fn lemma_record_on_disk_during_takeover(
    s: SystemModel,
    taken_at: u64,
    snapshot: PlatformSnapshot,
    port: u16,
    services: Seq<String>,
    steps: Seq<Step>,
    k: int,
)
    requires
        steps.len() >= 1,
        steps[0] == Step::Persist(takeover_record_of(taken_at, snapshot)),
        is_takeover_changes(steps.drop_first(), snapshot, port, services),
        1 <= k <= steps.len(),
    ensures
        run_steps(s, steps.take(k)) is Some,
        run_steps(s, steps.take(k))->0.record == Some(takeover_record_of(taken_at, snapshot)),
        run_steps(s, steps.take(k))->0.record == run_steps(s, steps)->0.record,
{
    let rec = takeover_record_of(taken_at, snapshot);
    let s1 = SystemModel { record: Some(rec), ..s };
    let changes = steps.drop_first();
    assert(steps.take(k) =~= seq![steps[0]] + changes.take(k - 1));
    assert(steps =~= seq![steps[0]] + changes);
    assert(run_steps(s, seq![steps[0]]) == Some(s1)) by {
        assert(seq![steps[0]].drop_last() =~= Seq::<Step>::empty());
        assert(seq![steps[0]].last() == Step::Persist(rec));
        assert(run_steps(s, Seq::<Step>::empty()) == Some(s));
        assert(step_effect(s, Step::Persist(rec)) == Some(s1));
    }
    lemma_run_steps_append(s, seq![steps[0]], changes.take(k - 1));
    lemma_run_steps_append(s, seq![steps[0]], changes);
    match snapshot {
        PlatformSnapshot::Mac(_) => {
            let acts = choose|acts: Seq<MacAction>| is_takeover_actions(acts, services) && changes == mac_steps(acts);
            lemma_steps_take(acts, Seq::empty(), Seq::empty(), k - 1);
            lemma_run_mac_steps(s1, acts.take(k - 1));
            lemma_run_mac_steps(s1, acts);
        },
        PlatformSnapshot::Windows(_) => {
            let acts = choose|acts: Seq<WinAction>| is_win_takeover(acts, port) && changes == win_steps(acts);
            lemma_steps_take(Seq::empty(), acts, Seq::empty(), k - 1);
            lemma_run_win_steps(s1, acts.take(k - 1));
            lemma_run_win_steps(s1, acts);
        },
        PlatformSnapshot::Linux(_) => {
            let acts = choose|acts: Seq<GSet>| is_linux_takeover(acts, port) && changes == linux_steps(acts);
            lemma_steps_take(Seq::empty(), Seq::empty(), acts, k - 1);
            lemma_run_linux_steps(s1, acts.take(k - 1));
            lemma_run_linux_steps(s1, acts);
        },
    }
}

/// Releasing with a macOS record brings every recorded service to its recorded
/// settings, leaves the other services and platforms alone, and clears the record.
pub proof fn lemma_release_mac(s: SystemModel, r: ProxyTakeoverRecord, recs: Vec<MacServiceRecord>, steps: Seq<Step>)
    requires
        s.record == Some(r),
        r.macos == Some(recs),
        distinct_names(recs@),
        is_release_steps(steps, Platform::MacOs, s.record),
    ensures
        run_steps(s, steps) is Some,
        run_steps(s, steps)->0.record is None,
        run_steps(s, steps)->0.win == s.win,
        run_steps(s, steps)->0.gnome == s.gnome,
        run_steps(s, steps)->0.mac.dom() == s.mac.dom(),
        forall|i: int| 0 <= i < recs@.len() && s.mac.dom().contains(#[trigger] recs@[i].name@)
            ==> crate::macos::restored_from(run_steps(s, steps)->0.mac[recs@[i].name@], s.mac[recs@[i].name@], recs@[i]),
        forall|k: Seq<char>| #[trigger] s.mac.dom().contains(k) && (forall|i: int| 0 <= i < recs@.len() ==> recs@[i].name@ != k)
            ==> run_steps(s, steps)->0.mac[k] == s.mac[k],
{
    let acts = restore_actions(recs@);
    assert(steps =~= mac_steps(acts) + seq![Step::ClearRecord]);
    lemma_run_mac_steps(s, acts);
    lemma_run_steps_append(s, mac_steps(acts), seq![Step::ClearRecord]);
    let m = SystemModel { mac: mac_run(s.mac, acts), ..s };
    assert(run_steps(m, seq![Step::ClearRecord]) == Some(SystemModel { record: None, ..m })) by {
        assert(seq![Step::ClearRecord].drop_last() =~= Seq::<Step>::empty());
    }
    lemma_restore_actions(s.mac, recs@);
}

/// Releasing with a Windows record puts the recorded values back in the Internet
/// Settings key, leaves the other values and platforms alone, and clears the record.
pub proof fn lemma_release_windows(s: SystemModel, r: ProxyTakeoverRecord, w: WinProxyRecord, steps: Seq<Step>)
    requires
        s.record == Some(r),
        r.windows == Some(w),
        is_release_steps(steps, Platform::Windows, s.record),
    ensures
        run_steps(s, steps) is Some,
        run_steps(s, steps)->0.record is None,
        run_steps(s, steps)->0.mac == s.mac,
        run_steps(s, steps)->0.gnome == s.gnome,
        run_steps(s, steps)->0.win.dom().contains("ProxyEnable"@),
        run_steps(s, steps)->0.win["ProxyEnable"@] == enable_flag(w.proxy_enable@),
        holds_or_lacks(run_steps(s, steps)->0.win, "ProxyServer"@, w.proxy_server@),
        holds_or_lacks(run_steps(s, steps)->0.win, "ProxyOverride"@, w.proxy_override@),
        forall|x: Seq<char>| x != "ProxyEnable"@ && x != "ProxyServer"@ && x != "ProxyOverride"@
            ==> (#[trigger] run_steps(s, steps)->0.win.dom().contains(x) <==> s.win.dom().contains(x))
                && (s.win.dom().contains(x) ==> run_steps(s, steps)->0.win[x] == s.win[x]),
{
    let acts = choose|acts: Seq<WinAction>| is_win_restore(acts, w) && steps.drop_last() == win_steps(acts);
    assert(steps =~= win_steps(acts) + seq![Step::ClearRecord]);
    lemma_run_win_steps(s, acts);
    lemma_run_steps_append(s, win_steps(acts), seq![Step::ClearRecord]);
    let m = SystemModel { win: win_run(s.win, acts), ..s };
    assert(run_steps(m, seq![Step::ClearRecord]) == Some(SystemModel { record: None, ..m })) by {
        assert(seq![Step::ClearRecord].drop_last() =~= Seq::<Step>::empty());
    }
    lemma_win_restore(s.win, acts, w);
}

/// The two maps agree on whether they hold `x` and on its value.
pub open spec fn key_unchanged<K, V>(a: Map<K, V>, b: Map<K, V>, x: K) -> bool {
    (a.dom().contains(x) <==> b.dom().contains(x)) && a[x] == b[x]
}

/// Releasing with a Linux record puts the recorded GNOME proxy settings back, leaves the
/// other keys and platforms alone, and clears the record.
pub proof fn lemma_release_linux(s: SystemModel, r: ProxyTakeoverRecord, l: LinuxProxyRecord, steps: Seq<Step>)
    requires
        s.record == Some(r),
        r.linux == Some(l),
        is_release_steps(steps, Platform::Linux, s.record),
    ensures
        run_steps(s, steps) is Some,
        run_steps(s, steps)->0.record is None,
        run_steps(s, steps)->0.mac == s.mac,
        run_steps(s, steps)->0.win == s.win,
        run_steps(s, steps)->0.gnome[mode_key()] == restored_mode(l),
        l.socks_host@.len() > 0 ==> run_steps(s, steps)->0.gnome[host_key()] == l.socks_host@,
        l.socks_port@.len() > 0 ==> run_steps(s, steps)->0.gnome[port_key()] == l.socks_port@,
        run_steps(s, steps)->0.gnome.dom().contains(mode_key()),
        l.socks_host@.len() > 0 ==> run_steps(s, steps)->0.gnome.dom().contains(host_key()),
        l.socks_port@.len() > 0 ==> run_steps(s, steps)->0.gnome.dom().contains(port_key()),
        forall|x: (Seq<char>, Seq<char>)| x != mode_key() && x != host_key() && x != port_key()
            ==> #[trigger] key_unchanged(run_steps(s, steps)->0.gnome, s.gnome, x),
{
    let acts = choose|acts: Seq<GSet>| is_linux_restore(acts, l) && steps.drop_last() == linux_steps(acts);
    assert(steps =~= linux_steps(acts) + seq![Step::ClearRecord]);
    lemma_run_linux_steps(s, acts);
    lemma_run_steps_append(s, linux_steps(acts), seq![Step::ClearRecord]);
    let m = SystemModel { gnome: gsettings_run(s.gnome, acts), ..s };
    assert(run_steps(m, seq![Step::ClearRecord]) == Some(SystemModel { record: None, ..m })) by {
        assert(seq![Step::ClearRecord].drop_last() =~= Seq::<Step>::empty());
    }
    lemma_linux_restore(s.gnome, acts, l);
    let fin = run_steps(s, steps)->0;
    assert(fin.gnome == gsettings_run(s.gnome, acts));
    assert forall|x: (Seq<char>, Seq<char>)| x != mode_key() && x != host_key() && x != port_key()
        implies #[trigger] key_unchanged(fin.gnome, s.gnome, x) by {
        assert(gsettings_run(s.gnome, acts).dom().contains(x) <==> s.gnome.dom().contains(x));
    }
}

} // verus!

verus! {

// ---------------------------------------------------------------------------
// Crash at any point of a takeover, then recovery: the user's settings come back
// ---------------------------------------------------------------------------

/// The machine after the first `k` steps of a takeover on macOS: the record is on disk
/// and a prefix of the takeover actions has run.
proof fn lemma_mac_engage_prefix(s: SystemModel, taken_at: u64, recs: Vec<MacServiceRecord>, port: u16,
    services: Seq<String>, steps: Seq<Step>, k: int) -> (acts: Seq<MacAction>)
    requires
        steps.len() >= 1,
        steps[0] == Step::Persist(takeover_record_of(taken_at, PlatformSnapshot::Mac(recs))),
        is_takeover_changes(steps.drop_first(), PlatformSnapshot::Mac(recs), port, services),
        1 <= k <= steps.len(),
    ensures
        is_takeover_actions(acts, services),
        acts.len() == steps.len() - 1,
        run_steps(s, steps.take(k)) == Some(SystemModel {
            record: Some(takeover_record_of(taken_at, PlatformSnapshot::Mac(recs))),
            mac: mac_run(s.mac, acts.take(k - 1)),
            ..s
        }),
{
    let rec = takeover_record_of(taken_at, PlatformSnapshot::Mac(recs));
    let s1 = SystemModel { record: Some(rec), ..s };
    let changes = steps.drop_first();
    let acts = choose|acts: Seq<MacAction>| is_takeover_actions(acts, services) && changes == mac_steps(acts);
    assert(is_takeover_actions(acts, services) && changes == mac_steps(acts));
    assert(acts.len() == changes.len());
    assert(steps.take(k) =~= seq![steps[0]] + changes.take(k - 1));
    assert(run_steps(s, seq![steps[0]]) == Some(s1)) by {
        assert(seq![steps[0]].drop_last() =~= Seq::<Step>::empty());
        assert(run_steps(s, Seq::<Step>::empty()) == Some(s));
    }
    lemma_run_steps_append(s, seq![steps[0]], changes.take(k - 1));
    lemma_steps_take(acts, Seq::empty(), Seq::empty(), k - 1);
    lemma_run_mac_steps(s1, acts.take(k - 1));
    acts
}

proof fn lemma_win_engage_prefix(s: SystemModel, taken_at: u64, w: WinProxyRecord, port: u16,
    services: Seq<String>, steps: Seq<Step>, k: int) -> (acts: Seq<WinAction>)
    requires
        steps.len() >= 1,
        steps[0] == Step::Persist(takeover_record_of(taken_at, PlatformSnapshot::Windows(w))),
        is_takeover_changes(steps.drop_first(), PlatformSnapshot::Windows(w), port, services),
        1 <= k <= steps.len(),
    ensures
        is_win_takeover(acts, port),
        acts.len() == steps.len() - 1,
        run_steps(s, steps.take(k)) == Some(SystemModel {
            record: Some(takeover_record_of(taken_at, PlatformSnapshot::Windows(w))),
            win: win_run(s.win, acts.take(k - 1)),
            ..s
        }),
{
    let rec = takeover_record_of(taken_at, PlatformSnapshot::Windows(w));
    let s1 = SystemModel { record: Some(rec), ..s };
    let changes = steps.drop_first();
    let acts = choose|acts: Seq<WinAction>| is_win_takeover(acts, port) && changes == win_steps(acts);
    assert(is_win_takeover(acts, port) && changes == win_steps(acts));
    assert(acts.len() == changes.len());
    assert(steps.take(k) =~= seq![steps[0]] + changes.take(k - 1));
    assert(run_steps(s, seq![steps[0]]) == Some(s1)) by {
        assert(seq![steps[0]].drop_last() =~= Seq::<Step>::empty());
        assert(run_steps(s, Seq::<Step>::empty()) == Some(s));
    }
    lemma_run_steps_append(s, seq![steps[0]], changes.take(k - 1));
    lemma_steps_take(Seq::empty(), acts, Seq::empty(), k - 1);
    lemma_run_win_steps(s1, acts.take(k - 1));
    acts
}

proof fn lemma_linux_engage_prefix(s: SystemModel, taken_at: u64, l: LinuxProxyRecord, port: u16,
    services: Seq<String>, steps: Seq<Step>, k: int) -> (acts: Seq<GSet>)
    requires
        steps.len() >= 1,
        steps[0] == Step::Persist(takeover_record_of(taken_at, PlatformSnapshot::Linux(l))),
        is_takeover_changes(steps.drop_first(), PlatformSnapshot::Linux(l), port, services),
        1 <= k <= steps.len(),
    ensures
        is_linux_takeover(acts, port),
        acts.len() == steps.len() - 1,
        run_steps(s, steps.take(k)) == Some(SystemModel {
            record: Some(takeover_record_of(taken_at, PlatformSnapshot::Linux(l))),
            gnome: gsettings_run(s.gnome, acts.take(k - 1)),
            ..s
        }),
{
    let rec = takeover_record_of(taken_at, PlatformSnapshot::Linux(l));
    let s1 = SystemModel { record: Some(rec), ..s };
    let changes = steps.drop_first();
    let acts = choose|acts: Seq<GSet>| is_linux_takeover(acts, port) && changes == linux_steps(acts);
    assert(is_linux_takeover(acts, port) && changes == linux_steps(acts));
    assert(acts.len() == changes.len());
    assert(steps.take(k) =~= seq![steps[0]] + changes.take(k - 1));
    assert(run_steps(s, seq![steps[0]]) == Some(s1)) by {
        assert(seq![steps[0]].drop_last() =~= Seq::<Step>::empty());
        assert(run_steps(s, Seq::<Step>::empty()) == Some(s));
    }
    lemma_run_steps_append(s, seq![steps[0]], changes.take(k - 1));
    lemma_steps_take(Seq::empty(), Seq::empty(), acts, k - 1);
    lemma_run_linux_steps(s1, acts.take(k - 1));
    acts
}

/// Changes that name other keys leave a GNOME key as it was.
proof fn lemma_gsettings_frame(db: Map<(Seq<char>, Seq<char>), Seq<char>>, acts: Seq<GSet>, k: (Seq<char>, Seq<char>))
    requires
        forall|i: int| 0 <= i < acts.len() ==> (#[trigger] acts[i].schema@, acts[i].key@) != k,
    ensures
        gsettings_run(db, acts).dom().contains(k) == db.dom().contains(k),
        gsettings_run(db, acts)[k] == db[k],
    decreases acts.len(),
{
    if acts.len() > 0 {
        assert forall|i: int| 0 <= i < acts.drop_last().len() implies (#[trigger] acts.drop_last()[i].schema@, acts.drop_last()[i].key@) != k by {
            assert(acts.drop_last()[i] == acts[i]);
        }
        lemma_gsettings_frame(db, acts.drop_last(), k);
        assert((acts[acts.len() - 1].schema@, acts[acts.len() - 1].key@) != k);
    }
}

/// Actions that name other values leave a value of the Internet Settings key as it was.
proof fn lemma_win_frame(reg: Map<Seq<char>, Seq<char>>, acts: Seq<WinAction>, k: Seq<char>)
    requires
        forall|i: int| 0 <= i < acts.len() ==> match #[trigger] acts[i] {
            WinAction::RegSet { value, .. } => value@ != k,
            WinAction::RegDelete { value } => value@ != k,
            WinAction::RefreshInternetOptions => true,
        },
    ensures
        win_run(reg, acts).dom().contains(k) == reg.dom().contains(k),
        win_run(reg, acts)[k] == reg[k],
    decreases acts.len(),
{
    if acts.len() > 0 {
        assert forall|i: int| 0 <= i < acts.drop_last().len() implies match #[trigger] acts.drop_last()[i] {
            WinAction::RegSet { value, .. } => value@ != k,
            WinAction::RegDelete { value } => value@ != k,
            WinAction::RefreshInternetOptions => true,
        } by {
            assert(acts.drop_last()[i] == acts[i]);
        }
        lemma_win_frame(reg, acts.drop_last(), k);
        let a = acts[acts.len() - 1];
        assert(a == acts.last());
    }
}

/// No action sets a SOCKS address, so every service keeps its SOCKS host and port.
proof fn lemma_mac_keeps_socks_address(net: Map<Seq<char>, MacProxyState>, acts: Seq<MacAction>)
    requires
        forall|i: int| 0 <= i < acts.len() ==> !(#[trigger] acts[i] is SetSocksProxy),
    ensures
        mac_run(net, acts).dom() == net.dom(),
        forall|x: Seq<char>| #[trigger] net.dom().contains(x) ==> mac_run(net, acts)[x].socks_host == net[x].socks_host
            && mac_run(net, acts)[x].socks_port == net[x].socks_port,
    decreases acts.len(),
{
    crate::macos::lemma_mac_run_dom(net, acts);
    if acts.len() > 0 {
        assert forall|i: int| 0 <= i < acts.drop_last().len() implies !(#[trigger] acts.drop_last()[i] is SetSocksProxy) by {
            assert(acts.drop_last()[i] == acts[i]);
        }
        lemma_mac_keeps_socks_address(net, acts.drop_last());
        crate::macos::lemma_mac_run_dom(net, acts.drop_last());
        assert(!(acts[acts.len() - 1] is SetSocksProxy));
    }
}

/// A macOS change that a release from the record sets back: it sets no SOCKS address.
pub open spec fn mac_release_covers(a: MacAction) -> bool {
    !(a is SetSocksProxy)
}

/// A Windows change that a release from the record sets back: it names `ProxyEnable`,
/// `ProxyServer` or `ProxyOverride`, or it is the reload.
pub open spec fn win_release_covers(a: WinAction) -> bool {
    match a {
        WinAction::RegSet { value, .. } => value@ == "ProxyEnable"@ || value@ == "ProxyServer"@ || value@ == "ProxyOverride"@,
        WinAction::RegDelete { value } => value@ == "ProxyEnable"@ || value@ == "ProxyServer"@ || value@ == "ProxyOverride"@,
        WinAction::RefreshInternetOptions => true,
    }
}

/// A Linux change that a release from the record sets back: it names the proxy mode,
/// the SOCKS host or the SOCKS port.
pub open spec fn linux_release_covers(a: GSet) -> bool {
    let k = (a.schema@, a.key@);
    k == mode_key() || k == host_key() || k == port_key()
}

/// Changes on `platform` that a release from the record sets back, such as those of
/// further takeovers made while the record is on disk.
pub open spec fn is_covered_changes(steps: Seq<Step>, platform: Platform) -> bool {
    match platform {
        Platform::MacOs => exists|acts: Seq<MacAction>| steps == mac_steps(acts)
            && forall|i: int| 0 <= i < acts.len() ==> mac_release_covers(#[trigger] acts[i]),
        Platform::Windows => exists|acts: Seq<WinAction>| steps == win_steps(acts)
            && forall|i: int| 0 <= i < acts.len() ==> win_release_covers(#[trigger] acts[i]),
        Platform::Linux => exists|acts: Seq<GSet>| steps == linux_steps(acts)
            && forall|i: int| 0 <= i < acts.len() ==> linux_release_covers(#[trigger] acts[i]),
    }
}

/// The platform whose settings a snapshot holds.
pub open spec fn platform_of(snapshot: PlatformSnapshot) -> Platform {
    match snapshot {
        PlatformSnapshot::Mac(_) => Platform::MacOs,
        PlatformSnapshot::Windows(_) => Platform::Windows,
        PlatformSnapshot::Linux(_) => Platform::Linux,
    }
}

/// Every part of a takeover's changes, interrupted at any point, is covered by a release.
pub proof fn lemma_takeover_changes_covered(steps: Seq<Step>, snapshot: PlatformSnapshot, port: u16,
    services: Seq<String>, j: int)
    requires
        is_takeover_changes(steps, snapshot, port, services),
        0 <= j <= steps.len(),
    ensures
        is_covered_changes(steps.take(j), platform_of(snapshot)),
{
    match snapshot {
        PlatformSnapshot::Mac(_) => {
            let acts = choose|acts: Seq<MacAction>| is_takeover_actions(acts, services) && steps == mac_steps(acts);
            lemma_steps_take(acts, Seq::empty(), Seq::empty(), j);
            let t = acts.take(j);
            assert forall|i: int| 0 <= i < t.len() implies mac_release_covers(#[trigger] t[i]) by {
                assert(t[i] == acts[i]);
                let q = i / 3;
                assert(0 <= q < services.len());
                assert(i == 3 * q || i == 3 * q + 1 || i == 3 * q + 2);
                assert(acts[3 * q] is SetAutoProxyUrl);
            }
        },
        PlatformSnapshot::Windows(_) => {
            let acts = choose|acts: Seq<WinAction>| is_win_takeover(acts, port) && steps == win_steps(acts);
            lemma_steps_take(Seq::empty(), acts, Seq::empty(), j);
            let t = acts.take(j);
            assert forall|i: int| 0 <= i < t.len() implies win_release_covers(#[trigger] t[i]) by {
                assert(t[i] == acts[i]);
                assert(i == 0 || i == 1 || i == 2 || i == 3);
            }
        },
        PlatformSnapshot::Linux(_) => {
            let acts = choose|acts: Seq<GSet>| is_linux_takeover(acts, port) && steps == linux_steps(acts);
            lemma_steps_take(Seq::empty(), Seq::empty(), acts, j);
            let t = acts.take(j);
            assert forall|i: int| 0 <= i < t.len() implies linux_release_covers(#[trigger] t[i]) by {
                assert(t[i] == acts[i]);
                assert(i == 0 || i == 1 || i == 2);
            }
        },
    }
}

/// Covered changes one after another are covered changes.
pub proof fn lemma_covered_concat(a: Seq<Step>, b: Seq<Step>, platform: Platform)
    requires
        is_covered_changes(a, platform),
        is_covered_changes(b, platform),
    ensures
        is_covered_changes(a + b, platform),
{
    match platform {
        Platform::MacOs => {
            let x = choose|acts: Seq<MacAction>| a == mac_steps(acts) && forall|i: int| 0 <= i < acts.len() ==> mac_release_covers(#[trigger] acts[i]);
            let y = choose|acts: Seq<MacAction>| b == mac_steps(acts) && forall|i: int| 0 <= i < acts.len() ==> mac_release_covers(#[trigger] acts[i]);
            assert(a + b =~= mac_steps(x + y));
            assert forall|i: int| 0 <= i < (x + y).len() implies mac_release_covers(#[trigger] (x + y)[i]) by {
                if i < x.len() { assert((x + y)[i] == x[i]); } else { assert((x + y)[i] == y[i - x.len()]); }
            }
        },
        Platform::Windows => {
            let x = choose|acts: Seq<WinAction>| a == win_steps(acts) && forall|i: int| 0 <= i < acts.len() ==> win_release_covers(#[trigger] acts[i]);
            let y = choose|acts: Seq<WinAction>| b == win_steps(acts) && forall|i: int| 0 <= i < acts.len() ==> win_release_covers(#[trigger] acts[i]);
            assert(a + b =~= win_steps(x + y));
            assert forall|i: int| 0 <= i < (x + y).len() implies win_release_covers(#[trigger] (x + y)[i]) by {
                if i < x.len() { assert((x + y)[i] == x[i]); } else { assert((x + y)[i] == y[i - x.len()]); }
            }
        },
        Platform::Linux => {
            let x = choose|acts: Seq<GSet>| a == linux_steps(acts) && forall|i: int| 0 <= i < acts.len() ==> linux_release_covers(#[trigger] acts[i]);
            let y = choose|acts: Seq<GSet>| b == linux_steps(acts) && forall|i: int| 0 <= i < acts.len() ==> linux_release_covers(#[trigger] acts[i]);
            assert(a + b =~= linux_steps(x + y));
            assert forall|i: int| 0 <= i < (x + y).len() implies linux_release_covers(#[trigger] (x + y)[i]) by {
                if i < x.len() { assert((x + y)[i] == x[i]); } else { assert((x + y)[i] == y[i - x.len()]); }
            }
        },
    }
}

proof fn lemma_gsettings_run_append(db: Map<(Seq<char>, Seq<char>), Seq<char>>, a: Seq<GSet>, b: Seq<GSet>)
    ensures
        gsettings_run(db, a + b) == gsettings_run(gsettings_run(db, a), b),
    decreases b.len(),
{
    if b.len() == 0 {
        assert(a + b =~= a);
    } else {
        assert((a + b).drop_last() =~= a + b.drop_last());
        lemma_gsettings_run_append(db, a, b.drop_last());
    }
}

/// The GNOME keys hold the values of the record: mode, SOCKS host and SOCKS port are
/// all set, not empty, and as recorded.
pub open spec fn linux_snapshot_of(db: Map<(Seq<char>, Seq<char>), Seq<char>>, l: LinuxProxyRecord) -> bool {
    &&& db.dom().contains(mode_key()) && db[mode_key()] == l.mode@ && l.mode@.len() > 0
    &&& db.dom().contains(host_key()) && db[host_key()] == l.socks_host@ && l.socks_host@.len() > 0
    &&& db.dom().contains(port_key()) && db[port_key()] == l.socks_port@ && l.socks_port@.len() > 0
}

/// Linux: take the proxy over from settings that the snapshot describes, stop at any
/// point after the record was persisted (a crash, a kill, or the end), make any further
/// takeovers while the record is on disk, then release from the persisted record: the
/// GNOME settings are exactly what they were, nothing else changed, and the record is gone.
pub proof fn lemma_linux_takeover_release_roundtrip(s: SystemModel, taken_at: u64, l: LinuxProxyRecord, port: u16,
    services: Seq<String>, engage: Seq<Step>, k: int, more: Seq<Step>, release: Seq<Step>)
    requires
        linux_snapshot_of(s.gnome, l),
        engage.len() >= 1,
        engage[0] == Step::Persist(takeover_record_of(taken_at, PlatformSnapshot::Linux(l))),
        is_takeover_changes(engage.drop_first(), PlatformSnapshot::Linux(l), port, services),
        1 <= k <= engage.len(),
        is_covered_changes(more, Platform::Linux),
        is_release_steps(release, Platform::Linux, Some(takeover_record_of(taken_at, PlatformSnapshot::Linux(l)))),
    ensures
        run_steps(s, engage.take(k) + more + release) is Some,
        run_steps(s, engage.take(k) + more + release)->0 == (SystemModel { record: None, ..s }),
{
    let acts = lemma_linux_engage_prefix(s, taken_at, l, port, services, engage, k);
    let rec = takeover_record_of(taken_at, PlatformSnapshot::Linux(l));
    let m = choose|m: Seq<GSet>| more == linux_steps(m) && forall|i: int| 0 <= i < m.len() ==> linux_release_covers(#[trigger] m[i]);
    let p = acts.take(k - 1) + m;
    let mid0 = SystemModel { record: Some(rec), gnome: gsettings_run(s.gnome, acts.take(k - 1)), ..s };
    lemma_run_steps_append(s, engage.take(k), more);
    lemma_run_linux_steps(mid0, m);
    lemma_gsettings_run_append(s.gnome, acts.take(k - 1), m);
    let mid = SystemModel { record: Some(rec), gnome: gsettings_run(s.gnome, p), ..s };
    assert(run_steps(s, engage.take(k) + more) == Some(mid));
    lemma_run_steps_append(s, engage.take(k) + more, release);
    lemma_release_linux(mid, rec, l, release);
    let fin = run_steps(mid, release)->0;
    assert forall|i: int| 0 <= i < p.len() implies linux_release_covers(#[trigger] p[i]) by {
        if i < k - 1 {
            assert(p[i] == acts[i]);
            assert(i == 0 || i == 1 || i == 2);
        } else {
            assert(p[i] == m[i - (k - 1)]);
        }
    }
    assert forall|x: (Seq<char>, Seq<char>)| x != mode_key() && x != host_key() && x != port_key()
        implies (#[trigger] fin.gnome.dom().contains(x) == s.gnome.dom().contains(x)) && fin.gnome[x] == s.gnome[x] by {
        assert(key_unchanged(fin.gnome, mid.gnome, x));
        assert forall|i: int| 0 <= i < p.len() implies (#[trigger] p[i].schema@, p[i].key@) != x by {
            assert(linux_release_covers(p[i]));
        }
        lemma_gsettings_frame(s.gnome, p, x);
    }
    assert forall|x: (Seq<char>, Seq<char>)| #[trigger] fin.gnome.dom().contains(x) == s.gnome.dom().contains(x) by {
        if x == mode_key() || x == host_key() || x == port_key() {
        }
    }
    assert forall|x: (Seq<char>, Seq<char>)| #[trigger] fin.gnome.dom().contains(x) implies fin.gnome[x] == s.gnome[x] by {
        if x == mode_key() || x == host_key() || x == port_key() {
        }
    }
    assert(fin.gnome =~= s.gnome);
    assert(fin.gnome == s.gnome);
}

/// Windows: take the proxy over from settings that the snapshot describes, stop at any
/// point after the record was persisted, make any further takeovers while the record is
/// on disk, then release from the persisted record: the Internet Settings key is exactly
/// what it was, nothing else changed, and the record is gone.
pub proof fn lemma_windows_takeover_release_roundtrip(s: SystemModel, taken_at: u64, w: WinProxyRecord, port: u16,
    services: Seq<String>, engage: Seq<Step>, k: int, more: Seq<Step>, release: Seq<Step>)
    requires
        win_snapshot_of(s.win, w),
        engage.len() >= 1,
        engage[0] == Step::Persist(takeover_record_of(taken_at, PlatformSnapshot::Windows(w))),
        is_takeover_changes(engage.drop_first(), PlatformSnapshot::Windows(w), port, services),
        1 <= k <= engage.len(),
        is_covered_changes(more, Platform::Windows),
        is_release_steps(release, Platform::Windows, Some(takeover_record_of(taken_at, PlatformSnapshot::Windows(w)))),
    ensures
        run_steps(s, engage.take(k) + more + release) is Some,
        run_steps(s, engage.take(k) + more + release)->0 == (SystemModel { record: None, ..s }),
{
    let acts = lemma_win_engage_prefix(s, taken_at, w, port, services, engage, k);
    let rec = takeover_record_of(taken_at, PlatformSnapshot::Windows(w));
    let m = choose|m: Seq<WinAction>| more == win_steps(m) && forall|i: int| 0 <= i < m.len() ==> win_release_covers(#[trigger] m[i]);
    let p = acts.take(k - 1) + m;
    let mid0 = SystemModel { record: Some(rec), win: win_run(s.win, acts.take(k - 1)), ..s };
    lemma_run_steps_append(s, engage.take(k), more);
    lemma_run_win_steps(mid0, m);
    crate::windows::lemma_win_run_append(s.win, acts.take(k - 1), m);
    let mid = SystemModel { record: Some(rec), win: win_run(s.win, p), ..s };
    assert(run_steps(s, engage.take(k) + more) == Some(mid));
    lemma_run_steps_append(s, engage.take(k) + more, release);
    lemma_release_windows(mid, rec, w, release);
    let fin = run_steps(mid, release)->0;
    assert forall|i: int| 0 <= i < p.len() implies win_release_covers(#[trigger] p[i]) by {
        if i < k - 1 {
            assert(p[i] == acts[i]);
            if i == 0 {
                assert(is_reg_set(acts[0], "ProxyEnable"@, crate::windows::RegType::Dword, "1"@));
            } else if i == 1 {
                assert(is_reg_set(acts[1], "ProxyServer"@, crate::windows::RegType::Sz, socks_server_value(port)));
            } else if i == 2 {
                assert(is_reg_set(acts[2], "ProxyOverride"@, crate::windows::RegType::Sz, "<local>"@));
            } else {
                assert(acts[3] == WinAction::RefreshInternetOptions);
            }
        } else {
            assert(p[i] == m[i - (k - 1)]);
        }
    }
    assert forall|x: Seq<char>| x != "ProxyEnable"@ && x != "ProxyServer"@ && x != "ProxyOverride"@
        implies (#[trigger] fin.win.dom().contains(x) == s.win.dom().contains(x)) && (s.win.dom().contains(x) ==> fin.win[x] == s.win[x]) by {
        assert forall|i: int| 0 <= i < p.len() implies match #[trigger] p[i] {
            WinAction::RegSet { value, .. } => value@ != x,
            WinAction::RegDelete { value } => value@ != x,
            WinAction::RefreshInternetOptions => true,
        } by {
            assert(win_release_covers(p[i]));
        }
        lemma_win_frame(s.win, p, x);
        assert(mid.win.dom().contains(x) == s.win.dom().contains(x));
        assert(fin.win.dom().contains(x) == mid.win.dom().contains(x));
    }
    assert forall|x: Seq<char>| #[trigger] fin.win.dom().contains(x) == s.win.dom().contains(x) by {
        if x == "ProxyServer"@ || x == "ProxyOverride"@ || x == "ProxyEnable"@ {
        }
    }
    assert forall|x: Seq<char>| #[trigger] fin.win.dom().contains(x) implies fin.win[x] == s.win[x] by {
        if x == "ProxyServer"@ || x == "ProxyOverride"@ || x == "ProxyEnable"@ {
        }
    }
    assert(fin.win =~= s.win);
    assert(fin.win == s.win);
}


/// Every service has a record, with a name no other record has, that describes it.
pub open spec fn mac_snapshot_of(net: Map<Seq<char>, MacProxyState>, recs: Seq<MacServiceRecord>) -> bool {
    &&& distinct_names(recs)
    &&& forall|x: Seq<char>| #[trigger] net.dom().contains(x) ==> exists|i: int| 0 <= i < recs.len()
        && recs[i].name@ == x && describes(recs[i], net[x])
}

} // verus!

verus! {

/// macOS: take the proxy over from services that the snapshot describes, stop at any
/// point after the record was persisted (a crash, a kill, or the end), make any further
/// takeovers while the record is on disk, then release from the persisted record: every
/// service has exactly the settings it had, the other platforms are untouched, and the
/// record is gone.
pub proof fn lemma_mac_takeover_release_roundtrip(s: SystemModel, taken_at: u64, recs: Vec<MacServiceRecord>, port: u16,
    services: Seq<String>, engage: Seq<Step>, k: int, more: Seq<Step>, release: Seq<Step>)
    requires
        mac_snapshot_of(s.mac, recs@),
        engage.len() >= 1,
        engage[0] == Step::Persist(takeover_record_of(taken_at, PlatformSnapshot::Mac(recs))),
        is_takeover_changes(engage.drop_first(), PlatformSnapshot::Mac(recs), port, services),
        1 <= k <= engage.len(),
        is_covered_changes(more, Platform::MacOs),
        is_release_steps(release, Platform::MacOs, Some(takeover_record_of(taken_at, PlatformSnapshot::Mac(recs)))),
    ensures
        run_steps(s, engage.take(k) + more + release) is Some,
        run_steps(s, engage.take(k) + more + release)->0 == (SystemModel { record: None, ..s }),
{
    let acts = lemma_mac_engage_prefix(s, taken_at, recs, port, services, engage, k);
    let rec = takeover_record_of(taken_at, PlatformSnapshot::Mac(recs));
    let m = choose|m: Seq<MacAction>| more == mac_steps(m) && forall|i: int| 0 <= i < m.len() ==> mac_release_covers(#[trigger] m[i]);
    let p = acts.take(k - 1) + m;
    let mid0 = SystemModel { record: Some(rec), mac: mac_run(s.mac, acts.take(k - 1)), ..s };
    lemma_run_steps_append(s, engage.take(k), more);
    lemma_run_mac_steps(mid0, m);
    crate::macos::lemma_mac_run_append(s.mac, acts.take(k - 1), m);
    let mid = SystemModel { record: Some(rec), mac: mac_run(s.mac, p), ..s };
    assert(run_steps(s, engage.take(k) + more) == Some(mid));
    lemma_run_steps_append(s, engage.take(k) + more, release);
    assert forall|i: int| 0 <= i < p.len() implies !(#[trigger] p[i] is SetSocksProxy) by {
        if i < k - 1 {
            assert(p[i] == acts[i]);
            let j = i / 3;
            assert(0 <= j < services.len());
            assert(i == 3 * j || i == 3 * j + 1 || i == 3 * j + 2);
            assert(acts[3 * j] is SetAutoProxyUrl);
        } else {
            assert(p[i] == m[i - (k - 1)]);
            assert(mac_release_covers(m[i - (k - 1)]));
        }
    }
    lemma_mac_keeps_socks_address(s.mac, p);
    lemma_release_mac(mid, rec, recs, release);
    let fin = run_steps(mid, release)->0;
    assert forall|x: Seq<char>| #[trigger] s.mac.dom().contains(x) implies fin.mac[x] == s.mac[x] by {
        let i = choose|i: int| 0 <= i < recs@.len() && recs@[i].name@ == x && describes(recs@[i], s.mac[x]);
        assert(mid.mac.dom().contains(recs@[i].name@));
        assert(crate::macos::restored_from(fin.mac[x], mid.mac[x], recs@[i]));
    }
    assert(fin.mac =~= s.mac);
}

} // verus!

verus! {

/// Linux, from the probes on: the record is read from `gsettings get` output for the
/// three keys (GVariant text, never empty and never padded: an empty string prints as
/// `''`); take over, stop at any point after the record was persisted, make any further
/// takeovers while the record is on disk, release from the record: the settings are
/// exactly what they were and the record is gone.
pub proof fn lemma_linux_probe_takeover_release(s: SystemModel, taken_at: u64, l: LinuxProxyRecord, port: u16,
    services: Seq<String>, engage: Seq<Step>, k: int, more: Seq<Step>, release: Seq<Step>)
    requires
        s.gnome.dom().contains(mode_key()) && s.gnome.dom().contains(host_key()) && s.gnome.dom().contains(port_key()),
        crate::text::trim(s.gnome[mode_key()]) == s.gnome[mode_key()] && s.gnome[mode_key()].len() > 0,
        crate::text::trim(s.gnome[host_key()]) == s.gnome[host_key()] && s.gnome[host_key()].len() > 0,
        crate::text::trim(s.gnome[port_key()]) == s.gnome[port_key()] && s.gnome[port_key()].len() > 0,
        l.mode@ == crate::linux::read_value(Some(crate::linux::printed(s.gnome[mode_key()]))),
        l.socks_host@ == crate::linux::read_value(Some(crate::linux::printed(s.gnome[host_key()]))),
        l.socks_port@ == crate::linux::read_value(Some(crate::linux::printed(s.gnome[port_key()]))),
        engage.len() >= 1,
        engage[0] == Step::Persist(takeover_record_of(taken_at, PlatformSnapshot::Linux(l))),
        is_takeover_changes(engage.drop_first(), PlatformSnapshot::Linux(l), port, services),
        1 <= k <= engage.len(),
        is_covered_changes(more, Platform::Linux),
        is_release_steps(release, Platform::Linux, Some(takeover_record_of(taken_at, PlatformSnapshot::Linux(l)))),
    ensures
        run_steps(s, engage.take(k) + more + release) is Some,
        run_steps(s, engage.take(k) + more + release)->0 == (SystemModel { record: None, ..s }),
{
    crate::linux::lemma_snapshot_reads_the_keys(s.gnome, l);
    lemma_linux_takeover_release_roundtrip(s, taken_at, l, port, services, engage, k, more, release);
}

} // verus!

verus! {

/// macOS, from the probes on: each service reports its settings through
/// `-getautoproxyurl` and `-getsocksfirewallproxy`, and the records are read from that
/// output; take over, stop at any point after the record was persisted, make any
/// further takeovers while the record is on disk, release from the record: every service
/// has exactly the settings it had, the other platforms are untouched, and the record
/// is gone.
pub proof fn lemma_mac_probe_takeover_release(s: SystemModel, taken_at: u64,
    probes: Seq<(String, Option<String>, Option<String>)>, recs: Vec<MacServiceRecord>, port: u16,
    services: Seq<String>, engage: Seq<Step>, k: int, more: Seq<Step>, release: Seq<Step>)
    requires
        forall|x: Seq<char>| #[trigger] s.mac.dom().contains(x) ==> reportable(s.mac[x]),
        forall|i: int, j: int| 0 <= i < j < probes.len() ==> probes[i].0@ != probes[j].0@,
        forall|x: Seq<char>| #[trigger] s.mac.dom().contains(x) ==> exists|i: int| 0 <= i < probes.len()
            && probes[i].0@ == x
            && opt_view(probes[i].1) == Some(autoproxy_output(s.mac[x]))
            && opt_view(probes[i].2) == Some(socks_output(s.mac[x])),
        recs@.len() == probes.len(),
        forall|i: int| 0 <= i < probes.len() ==> is_service_record(#[trigger] recs@[i], probes[i].0,
            opt_view(probes[i].1), opt_view(probes[i].2)),
        engage.len() >= 1,
        engage[0] == Step::Persist(takeover_record_of(taken_at, PlatformSnapshot::Mac(recs))),
        is_takeover_changes(engage.drop_first(), PlatformSnapshot::Mac(recs), port, services),
        1 <= k <= engage.len(),
        is_covered_changes(more, Platform::MacOs),
        is_release_steps(release, Platform::MacOs, Some(takeover_record_of(taken_at, PlatformSnapshot::Mac(recs)))),
    ensures
        run_steps(s, engage.take(k) + more + release) is Some,
        run_steps(s, engage.take(k) + more + release)->0 == (SystemModel { record: None, ..s }),
{
    assert forall|i: int, j: int| 0 <= i < j < recs@.len() implies recs@[i].name@ != recs@[j].name@ by {
        assert(is_service_record(recs@[i], probes[i].0, opt_view(probes[i].1), opt_view(probes[i].2)));
        assert(is_service_record(recs@[j], probes[j].0, opt_view(probes[j].1), opt_view(probes[j].2)));
    }
    assert forall|x: Seq<char>| #[trigger] s.mac.dom().contains(x) implies exists|i: int| 0 <= i < recs@.len()
        && recs@[i].name@ == x && describes(recs@[i], s.mac[x]) by {
        let i = choose|i: int| 0 <= i < probes.len()
            && probes[i].0@ == x
            && opt_view(probes[i].1) == Some(autoproxy_output(s.mac[x]))
            && opt_view(probes[i].2) == Some(socks_output(s.mac[x]));
        assert(is_service_record(recs@[i], probes[i].0, opt_view(probes[i].1), opt_view(probes[i].2)));
        lemma_service_record_describes(recs@[i], probes[i].0, s.mac[x]);
    }
    assert(mac_snapshot_of(s.mac, recs@));
    lemma_mac_takeover_release_roundtrip(s, taken_at, recs, port, services, engage, k, more, release);
}

} // verus!

verus! {

/// Windows, from the probes on: the record is read from what `reg query` prints for
/// `ProxyEnable`, `ProxyServer` and `ProxyOverride`; take over, stop at any point after
/// the record was persisted, make any further takeovers while the record is on disk,
/// release from the record: the Internet Settings key is exactly what it was, nothing
/// else changed, and the record is gone.
pub proof fn lemma_windows_probe_takeover_release(s: SystemModel, taken_at: u64, w: WinProxyRecord, port: u16,
    services: Seq<String>, engage: Seq<Step>, k: int, more: Seq<Step>, release: Seq<Step>)
    requires
        reg_reportable(s.win),
        is_win_record(w,
            reg_query_value(Some(enable_query_output(s.win)), "ProxyEnable"@),
            reg_query_value(Some(sz_query_output(s.win, "ProxyServer"@)), "ProxyServer"@),
            reg_query_value(Some(sz_query_output(s.win, "ProxyOverride"@)), "ProxyOverride"@)),
        engage.len() >= 1,
        engage[0] == Step::Persist(takeover_record_of(taken_at, PlatformSnapshot::Windows(w))),
        is_takeover_changes(engage.drop_first(), PlatformSnapshot::Windows(w), port, services),
        1 <= k <= engage.len(),
        is_covered_changes(more, Platform::Windows),
        is_release_steps(release, Platform::Windows, Some(takeover_record_of(taken_at, PlatformSnapshot::Windows(w)))),
    ensures
        run_steps(s, engage.take(k) + more + release) is Some,
        run_steps(s, engage.take(k) + more + release)->0 == (SystemModel { record: None, ..s }),
{
    lemma_win_record_describes(s.win, w);
    lemma_windows_takeover_release_roundtrip(s, taken_at, w, port, services, engage, k, more, release);
}

} // verus!

verus! {

// ---------------------------------------------------------------------------
// Releases: the request, the recovery and the release agree; a second release
// changes nothing
// ---------------------------------------------------------------------------

/// Every sequence of steps can be carried out.
pub proof fn lemma_run_steps_total(s: SystemModel, steps: Seq<Step>)
    ensures
        run_steps(s, steps) is Some,
    decreases steps.len(),
{
    if steps.len() > 0 {
        lemma_run_steps_total(s, steps.drop_last());
    }
}

/// Without any mark of this shell, the feature cleanup changes nothing.
pub proof fn lemma_cleanup_leaves_unmarked(s: SystemModel, platform: Platform)
    requires
        !has_shell_marks(s, platform),
    ensures
        cleaned(s, platform) == s,
{
    if platform == Platform::MacOs {
        let c = cleaned(s, platform);
        assert forall|x: Seq<char>| #[trigger] s.mac.dom().contains(x) implies c.mac[x] == s.mac[x] by {
            assert(!pac_is_ours(autoproxy_output(s.mac[x])));
            assert(!socks_is_ours(socks_output(s.mac[x])));
        }
        assert(c.mac =~= s.mac);
    }
}

/// Two step lists that both release from the same record on the same platform have the
/// same effect on the machine. `release_proxy`, `recover_orphaned_takeover` and
/// `set_system_proxy` with a disable request all give such lists, so from the same
/// machine and the same record read from disk they do the same.
pub proof fn lemma_release_steps_same_effect(s: SystemModel, platform: Platform, record: Option<ProxyTakeoverRecord>,
    a: Seq<Step>, b: Seq<Step>)
    requires
        is_release_steps(a, platform, record),
        is_release_steps(b, platform, record),
    ensures
        run_steps(s, a) == run_steps(s, b),
{
    if let Some(r) = record {
        let ca = a.drop_last();
        let cb = b.drop_last();
        assert(a =~= ca + seq![Step::ClearRecord]);
        assert(b =~= cb + seq![Step::ClearRecord]);
        lemma_run_steps_append(s, ca, seq![Step::ClearRecord]);
        lemma_run_steps_append(s, cb, seq![Step::ClearRecord]);
        match platform {
            Platform::MacOs => {
                assert(ca == cb);
            },
            Platform::Windows => {
                if let Some(w) = r.windows {
                    let xa = choose|acts: Seq<WinAction>| is_win_restore(acts, w) && ca == win_steps(acts);
                    let xb = choose|acts: Seq<WinAction>| is_win_restore(acts, w) && cb == win_steps(acts);
                    lemma_run_win_steps(s, xa);
                    lemma_run_win_steps(s, xb);
                    lemma_win_restore(s.win, xa, w);
                    lemma_win_restore(s.win, xb, w);
                    let ra = win_run(s.win, xa);
                    let rb = win_run(s.win, xb);
                    assert forall|x: Seq<char>| #[trigger] ra.dom().contains(x) == rb.dom().contains(x) by {
                        if x == "ProxyServer"@ || x == "ProxyOverride"@ || x == "ProxyEnable"@ {}
                    }
                    assert forall|x: Seq<char>| #[trigger] ra.dom().contains(x) implies ra[x] == rb[x] by {
                        if x == "ProxyServer"@ || x == "ProxyOverride"@ || x == "ProxyEnable"@ {}
                    }
                    assert(ra =~= rb);
                } else {
                    assert(ca == cb);
                }
            },
            Platform::Linux => {
                if let Some(l) = r.linux {
                    let xa = choose|acts: Seq<GSet>| is_linux_restore(acts, l) && ca == linux_steps(acts);
                    let xb = choose|acts: Seq<GSet>| is_linux_restore(acts, l) && cb == linux_steps(acts);
                    lemma_run_linux_steps(s, xa);
                    lemma_run_linux_steps(s, xb);
                    lemma_linux_restore(s.gnome, xa, l);
                    lemma_linux_restore(s.gnome, xb, l);
                    let ra = gsettings_run(s.gnome, xa);
                    let rb = gsettings_run(s.gnome, xb);
                    assert forall|x: (Seq<char>, Seq<char>)| #[trigger] ra.dom().contains(x) == rb.dom().contains(x) by {
                        if x == mode_key() || x == host_key() || x == port_key() {}
                    }
                    assert forall|x: (Seq<char>, Seq<char>)| #[trigger] ra.dom().contains(x) implies ra[x] == rb[x] by {
                        if x == mode_key() || x == host_key() || x == port_key() {}
                    }
                    assert(ra =~= rb);
                } else {
                    assert(ca == cb);
                }
            },
        }
    } else {
        assert(a == b);
    }
}

/// A release leaves no record on disk; when the settings it leaves carry no mark of this
/// shell, releasing again (which then finds no record) changes nothing.
pub proof fn lemma_release_again_changes_nothing(s: SystemModel, platform: Platform, first: Seq<Step>, second: Seq<Step>)
    requires
        is_release_steps(first, platform, s.record),
        !has_shell_marks(run_steps(s, first)->0, platform),
        is_release_steps(second, platform, run_steps(s, first)->0.record),
    ensures
        run_steps(s, first) is Some,
        run_steps(s, first)->0.record is None,
        run_steps(run_steps(s, first)->0, second) == Some(run_steps(s, first)->0),
{
    lemma_run_steps_total(s, first);
    if s.record is None {
        assert(first.drop_last().len() == 0);
        assert(run_steps(s, first) == Some(cleaned(s, platform)));
    } else {
        lemma_run_steps_total(s, first.drop_last());
    }
    let s1 = run_steps(s, first)->0;
    assert(s1.record is None);
    lemma_cleanup_leaves_unmarked(s1, platform);
    assert(second == seq![Step::FeatureCleanup(platform)]);
    assert(second.drop_last() =~= Seq::<Step>::empty());
    assert(run_steps(s1, second.drop_last()) == Some(s1));
    assert(run_steps(s1, second) == step_effect(s1, Step::FeatureCleanup(platform)));
}

} // verus!

verus! {

// ---------------------------------------------------------------------------
// A persist that fails
// ---------------------------------------------------------------------------

/// The machine after carrying out `steps` in order as the caller does, where
/// `persisted[i]` tells whether a persist at `i` succeeded: a failed persist changes
/// nothing and, as `go_on_after` decides, ends the run.
pub open spec fn run_reported(s: SystemModel, steps: Seq<Step>, persisted: Seq<bool>) -> SystemModel
    decreases steps.len(),
{
    if steps.len() == 0 || persisted.len() == 0 {
        s
    } else if steps[0] is Persist && !persisted[0] {
        s
    } else {
        run_reported(step_effect(s, steps[0])->0, steps.drop_first(), persisted.drop_first())
    }
}

/// A takeover whose record could not be persisted changes nothing.
pub proof fn lemma_failed_persist_changes_nothing(s: SystemModel, steps: Seq<Step>, persisted: Seq<bool>)
    requires
        steps.len() >= 1,
        persisted.len() == steps.len(),
        steps[0] is Persist,
        !persisted[0],
    ensures
        run_reported(s, steps, persisted) == s,
{
}

/// Where every persist succeeds, the caller carries out all the steps.
pub proof fn lemma_persisted_runs_all(s: SystemModel, steps: Seq<Step>, persisted: Seq<bool>)
    requires
        persisted.len() == steps.len(),
        forall|i: int| 0 <= i < persisted.len() ==> #[trigger] persisted[i],
    ensures
        run_steps(s, steps) == Some(run_reported(s, steps, persisted)),
    decreases steps.len(),
{
    if steps.len() > 0 {
        let s1 = step_effect(s, steps[0])->0;
        assert(persisted[0]);
        assert forall|i: int| 0 <= i < persisted.drop_first().len() implies #[trigger] persisted.drop_first()[i] by {
            assert(persisted.drop_first()[i] == persisted[i + 1]);
        }
        lemma_persisted_runs_all(s1, steps.drop_first(), persisted.drop_first());
        assert(steps =~= seq![steps[0]] + steps.drop_first());
        lemma_run_steps_append(s, seq![steps[0]], steps.drop_first());
        assert(seq![steps[0]].drop_last() =~= Seq::<Step>::empty());
        assert(run_steps(s, Seq::<Step>::empty()) == Some(s));
        assert(seq![steps[0]].last() == steps[0]);
        assert(run_steps(s, seq![steps[0]]) == step_effect(s, steps[0]));
        lemma_run_steps_total(s, seq![steps[0]]);
    }
}

} // verus!

verus! {

/// Takeovers made while the record is on disk (`set_system_proxy` with the record it
/// read), one after another, each interrupted at any point, make covered changes: after
/// any number of them, the round-trip laws above still give the user's settings back.
pub proof fn lemma_retakeover_covered(before: Seq<Step>, steps: Seq<Step>, snapshot: PlatformSnapshot, port: u16,
    services: Seq<String>, j: int)
    requires
        is_covered_changes(before, platform_of(snapshot)),
        is_takeover_changes(steps, snapshot, port, services),
        0 <= j <= steps.len(),
    ensures
        is_covered_changes(before + steps.take(j), platform_of(snapshot)),
{
    lemma_takeover_changes_covered(steps, snapshot, port, services, j);
    lemma_covered_concat(before, steps.take(j), platform_of(snapshot));
}

/// No further takeover is a covered change.
pub proof fn lemma_no_changes_covered(platform: Platform)
    ensures
        is_covered_changes(Seq::<Step>::empty(), platform),
{
    match platform {
        Platform::MacOs => { assert(mac_steps(Seq::<MacAction>::empty()) =~= Seq::<Step>::empty()); },
        Platform::Windows => { assert(win_steps(Seq::<WinAction>::empty()) =~= Seq::<Step>::empty()); },
        Platform::Linux => { assert(linux_steps(Seq::<GSet>::empty()) =~= Seq::<Step>::empty()); },
    }
}

} // verus!

verus! {

/// The model of the feature cleanup is what the cleanup functions' changes do: on macOS
/// to a service, from `networksetup`'s output for it.
pub proof fn lemma_mac_cleanup_matches(net: Map<Seq<char>, MacProxyState>, acts: Seq<MacAction>, service: String)
    requires
        net.dom().contains(service@),
        crate::macos::is_cleanup_actions(acts, service,
            Some(autoproxy_output(net[service@])), Some(socks_output(net[service@]))),
    ensures
        mac_run(net, acts)[service@] == mac_cleaned(net[service@]),
{
    crate::macos::lemma_mac_cleanup(net, acts, service,
        Some(autoproxy_output(net[service@])), Some(socks_output(net[service@])));
}

/// The model of the feature cleanup is what the cleanup functions' changes do: on
/// Windows, from the `ProxyServer` value that `reg query` shows.
pub proof fn lemma_win_cleanup_matches(s: SystemModel, acts: Seq<WinAction>)
    requires
        crate::windows::is_win_cleanup(acts, win_server_shown(s.win)),
    ensures
        win_run(s.win, acts) == cleaned(s, Platform::Windows).win,
{
    crate::windows::lemma_win_cleanup(s.win, acts, win_server_shown(s.win));
}

/// The model of the feature cleanup is what the cleanup functions' changes do: on
/// Linux, from what `gsettings get` prints for the mode and the SOCKS host.
pub proof fn lemma_linux_cleanup_matches(s: SystemModel, acts: Seq<GSet>)
    requires
        crate::linux::is_linux_cleanup(acts, gsettings_shown(s.gnome, mode_key()), gsettings_shown(s.gnome, host_key())),
    ensures
        gsettings_run(s.gnome, acts) == cleaned(s, Platform::Linux).gnome,
{
    crate::linux::lemma_linux_cleanup(s.gnome, acts, gsettings_shown(s.gnome, mode_key()), gsettings_shown(s.gnome, host_key()));
}

} // verus!
