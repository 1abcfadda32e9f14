//! Service activation on the installed target: the `systemctl` commands for
//! systemd, and the runlevel links for OpenRC.
use vstd::prelude::*;

use crate::disk::{command, push_step, under};
use crate::exec::{step_of, step_views, CommandStep, StepView};
use crate::install::planner::{debug_quoted, push_debug_quoted, SystemInstallError};
use crate::install::steps::tpath;
use crate::manifest::{OpenrcServices, Services};
use crate::text::{chars_of, push_str, str_eq, string_of, sviews};

verus! {

// ---------------------------------------------------------------------------
// systemd.
// ---------------------------------------------------------------------------

pub open spec fn systemctl_row(desc: Seq<char>, verb: Seq<char>, target: Seq<char>, units: Seq<String>) -> Seq<StepView> {
    if units.len() > 0 {
        seq![step_of(desc, "systemctl"@, seq!["--root"@, target, verb] + sviews(units))]
    } else {
        seq![]
    }
}

/// `systemctl --root <target> enable ..` for the enabled units and
/// `.. disable ..` for the disabled ones, each only when there are any.
pub open spec fn systemd_rows(s: Services, target: Seq<char>) -> Seq<StepView> {
    systemctl_row("Enable systemd services"@, "enable"@, target, s.enabled@) + systemctl_row(
        "Disable systemd services"@,
        "disable"@,
        target,
        s.disabled@,
    )
}

fn push_systemctl(steps: &mut Vec<CommandStep>, desc: &str, verb: &str, target: &str, units: &Vec<String>)
    ensures
        step_views(final(steps)@) == step_views(old(steps)@) + systemctl_row(desc@, verb@, target@, units@),
{
    let ghost before = step_views(steps@);
    if units.len() == 0 {
        assert(step_views(steps@) =~= before + systemctl_row(desc@, verb@, target@, units@));
        return;
    }
    let mut args: Vec<String> = Vec::new();
    args.push("--root".to_owned());
    args.push(target.to_owned());
    args.push(verb.to_owned());
    let mut i: usize = 0;
    while i < units.len()
        invariant
            i <= units.len(),
            sviews(args@) == seq!["--root"@, target@, verb@] + sviews(units@.subrange(0, i as int)),
        decreases units.len() - i,
    {
        let ghost before_args = sviews(args@);
        let u = units[i].clone();
        assert(u@ == units@[i as int]@);
        args.push(u);
        assert(sviews(args@) =~= before_args.push(units@[i as int]@));
        assert(sviews(units@.subrange(0, i + 1)) =~= sviews(units@.subrange(0, i as int)).push(units@[i as int]@));
        i = i + 1;
        assert(sviews(args@) =~= seq!["--root"@, target@, verb@] + sviews(units@.subrange(0, i as int)));
    }
    assert(units@.subrange(0, units.len() as int) =~= units@);
    push_step(steps, command(desc, "systemctl", args));
    assert(step_views(steps@) =~= before + systemctl_row(desc@, verb@, target@, units@));
}

/// The commands that enable and disable the manifest's systemd units on the
/// target.
pub fn systemd_service_commands(services: &Services, target_mount: &str) -> (r: Vec<CommandStep>)
    ensures
        step_views(r@) == systemd_rows(*services, target_mount@),
{
    let mut steps: Vec<CommandStep> = Vec::new();
    assert(step_views(steps@) =~= Seq::<StepView>::empty());
    push_systemctl(&mut steps, "Enable systemd services", "enable", target_mount, &services.enabled);
    push_systemctl(&mut steps, "Disable systemd services", "disable", target_mount, &services.disabled);
    assert(step_views(steps@) =~= systemd_rows(*services, target_mount@));
    steps
}

// ---------------------------------------------------------------------------
// OpenRC.
// ---------------------------------------------------------------------------

/// A change to `etc/runlevels/<runlevel>` on the target.
#[derive(Debug, Clone, PartialEq, Eq)]
pub enum RunlevelAction {
    /// Point `<service>` at `/etc/init.d/<service>`, replacing any entry of
    /// that name.
    Link { runlevel: String, service: String },
    /// Remove the entry `<service>` when there is one.
    Unlink { runlevel: String, service: String },
}

/// An action as plain values: link or not, runlevel, service.
pub open spec fn action_row(a: RunlevelAction) -> (bool, Seq<char>, Seq<char>) {
    match a {
        RunlevelAction::Link { runlevel, service } => (true, runlevel@, service@),
        RunlevelAction::Unlink { runlevel, service } => (false, runlevel@, service@),
    }
}

pub open spec fn action_rows(s: Seq<RunlevelAction>) -> Seq<(bool, Seq<char>, Seq<char>)> {
    s.map_values(|a: RunlevelAction| action_row(a))
}

/// One entry of a runlevel directory.
#[derive(Debug, Clone, PartialEq, Eq)]
pub struct RunlevelEntry {
    pub name: String,
    pub is_dir: bool,
}

/// What the target holds for OpenRC, as found by the caller.
#[derive(Debug, Clone, PartialEq, Eq)]
pub struct OpenrcTarget {
    /// Names of the regular files under `etc/init.d`.
    pub init_scripts: Vec<String>,
    /// Entries of `etc/runlevels/boot` in directory order (none when it is
    /// not a directory).
    pub boot_entries: Vec<RunlevelEntry>,
    /// Entries of `etc/runlevels/default`, likewise.
    pub default_entries: Vec<RunlevelEntry>,
}

pub open spec fn entry_rows(es: Seq<RunlevelEntry>) -> Seq<(Seq<char>, bool)> {
    es.map_values(|e: RunlevelEntry| (e.name@, e.is_dir))
}

pub open spec fn is_boot_service(s: Seq<char>) -> bool {
    s == "zfs-import"@ || s == "zfs-mount"@
}

/// Without authoritative runlevel lists: each enabled service (and, on a
/// ZFS root, `zfs-import` and `zfs-mount`) linked into `boot` when it is one
/// of those two and into `default` otherwise; each disabled one unlinked from
/// `default` and `boot`.
pub open spec fn legacy_enable_rows(enabled: Seq<Seq<char>>) -> Seq<(bool, Seq<char>, Seq<char>)> {
    enabled.map_values(
        |s: Seq<char>|
            (
                true,
                if is_boot_service(s) {
                    "boot"@
                } else {
                    "default"@
                },
                s,
            ),
    )
}

pub open spec fn legacy_disable_rows(disabled: Seq<Seq<char>>) -> Seq<(bool, Seq<char>, Seq<char>)>
    decreases disabled.len(),
{
    if disabled.len() == 0 {
        seq![]
    } else {
        legacy_disable_rows(disabled.drop_last()) + seq![
            (false, "default"@, disabled.last()),
            (false, "boot"@, disabled.last()),
        ]
    }
}

pub open spec fn legacy_rows(s: Services, zfs_root: bool) -> Seq<(bool, Seq<char>, Seq<char>)> {
    let enabled = sviews(s.enabled@) + if zfs_root {
        seq!["zfs-import"@, "zfs-mount"@]
    } else {
        seq![]
    };
    legacy_enable_rows(enabled) + legacy_disable_rows(sviews(s.disabled@))
}

pub open spec fn name_ok(s: Seq<char>) -> bool {
    s.len() > 0 && s != "."@ && s != ".."@ && !s.contains('/')
}

/// Why the `i`th service of a runlevel list is refused, if it is.
pub open spec fn service_failure(
    rl: Seq<char>,
    desired: Seq<Seq<char>>,
    i: int,
    scripts: Seq<Seq<char>>,
    target: Seq<char>,
) -> Option<Seq<char>> {
    let s = desired[i];
    if !name_ok(s) {
        Some("invalid OpenRC service name "@ + debug_quoted(s) + " in "@ + rl)
    } else if desired.subrange(0, i).contains(s) {
        Some("OpenRC service "@ + debug_quoted(s) + " is listed more than once in "@ + rl)
    } else if !scripts.contains(s) {
        Some(
            "OpenRC service "@ + debug_quoted(s) + " is listed in "@ + rl + " but "@ + tpath(
                tpath(target, "etc/init.d"@),
                s,
            ) + " is missing"@,
        )
    } else {
        None
    }
}

pub open spec fn first_service_failure(
    rl: Seq<char>,
    desired: Seq<Seq<char>>,
    n: nat,
    scripts: Seq<Seq<char>>,
    target: Seq<char>,
) -> Option<Seq<char>>
    decreases n,
{
    if n == 0 {
        None
    } else {
        match first_service_failure(rl, desired, (n - 1) as nat, scripts, target) {
            Some(m) => Some(m),
            None => service_failure(rl, desired, n - 1, scripts, target),
        }
    }
}

pub open spec fn first_dir_entry(dir: Seq<char>, entries: Seq<(Seq<char>, bool)>) -> Option<Seq<char>>
    decreases entries.len(),
{
    if entries.len() == 0 {
        None
    } else {
        match first_dir_entry(dir, entries.drop_last()) {
            Some(m) => Some(m),
            None => if entries.last().1 {
                Some("unexpected directory in OpenRC runlevel: "@ + tpath(dir, entries.last().0))
            } else {
                None
            },
        }
    }
}

pub open spec fn runlevel_failure(
    rl: Seq<char>,
    desired: Seq<Seq<char>>,
    scripts: Seq<Seq<char>>,
    entries: Seq<(Seq<char>, bool)>,
    target: Seq<char>,
) -> Option<Seq<char>> {
    match first_service_failure(rl, desired, desired.len(), scripts, target) {
        Some(m) => Some(m),
        None => first_dir_entry(tpath(tpath(target, "etc/runlevels"@), rl), entries),
    }
}

/// The first reason, runlevel `boot` before `default`, why authoritative
/// runlevel lists cannot be applied: a bad service name, a service listed
/// twice, a service without an init script, or a directory inside a
/// runlevel.
pub open spec fn openrc_failure(o: OpenrcServices, t: OpenrcTarget, target: Seq<char>) -> Option<Seq<char>> {
    let scripts = sviews(t.init_scripts@);
    match runlevel_failure("boot"@, sviews(o.boot@), scripts, entry_rows(t.boot_entries@), target) {
        Some(m) => Some(m),
        None => runlevel_failure("default"@, sviews(o.default@), scripts, entry_rows(t.default_entries@), target),
    }
}

/// Entries of the runlevel that are not listed are unlinked, in directory
/// order; then every listed service is linked, in list order.
pub open spec fn unlink_rows(rl: Seq<char>, desired: Seq<Seq<char>>, entries: Seq<(Seq<char>, bool)>) -> Seq<
    (bool, Seq<char>, Seq<char>),
>
    decreases entries.len(),
{
    if entries.len() == 0 {
        seq![]
    } else {
        unlink_rows(rl, desired, entries.drop_last()) + if desired.contains(entries.last().0) {
            seq![]
        } else {
            seq![(false, rl, entries.last().0)]
        }
    }
}

pub open spec fn link_rows(rl: Seq<char>, desired: Seq<Seq<char>>) -> Seq<(bool, Seq<char>, Seq<char>)> {
    desired.map_values(|s: Seq<char>| (true, rl, s))
}

pub open spec fn authoritative_rows(o: OpenrcServices, t: OpenrcTarget) -> Seq<(bool, Seq<char>, Seq<char>)> {
    unlink_rows("boot"@, sviews(o.boot@), entry_rows(t.boot_entries@)) + link_rows("boot"@, sviews(o.boot@))
        + unlink_rows("default"@, sviews(o.default@), entry_rows(t.default_entries@)) + link_rows(
        "default"@,
        sviews(o.default@),
    )
}

fn push_action(out: &mut Vec<RunlevelAction>, link: bool, rl: &str, service: &str)
    ensures
        action_rows(final(out)@) == action_rows(old(out)@).push((link, rl@, service@)),
{
    let ghost before = action_rows(out@);
    let a = if link {
        RunlevelAction::Link { runlevel: rl.to_owned(), service: service.to_owned() }
    } else {
        RunlevelAction::Unlink { runlevel: rl.to_owned(), service: service.to_owned() }
    };
    out.push(a);
    assert(action_rows(out@) =~= before.push((link, rl@, service@)));
}

proof fn lemma_legacy_enable_push(enabled: Seq<Seq<char>>, s: Seq<char>)
    ensures
        legacy_enable_rows(enabled.push(s)) == legacy_enable_rows(enabled).push(
            (
                true,
                if is_boot_service(s) {
                    "boot"@
                } else {
                    "default"@
                },
                s,
            ),
        ),
{
    assert(legacy_enable_rows(enabled.push(s)) =~= legacy_enable_rows(enabled).push(
        (
            true,
            if is_boot_service(s) {
                "boot"@
            } else {
                "default"@
            },
            s,
        ),
    ));
}

fn push_enable(out: &mut Vec<RunlevelAction>, service: &str)
    ensures
        action_rows(final(out)@) == action_rows(old(out)@).push(
            (
                true,
                if is_boot_service(service@) {
                    "boot"@
                } else {
                    "default"@
                },
                service@,
            ),
        ),
{
    if str_eq(service, "zfs-import") || str_eq(service, "zfs-mount") {
        push_action(out, true, "boot", service);
    } else {
        push_action(out, true, "default", service);
    }
}

fn legacy_actions(services: &Services, zfs_root: bool) -> (r: Vec<RunlevelAction>)
    ensures
        action_rows(r@) == legacy_rows(*services, zfs_root),
{
    let mut out: Vec<RunlevelAction> = Vec::new();
    let en = &services.enabled;
    let mut i: usize = 0;
    assert(sviews(en@).subrange(0, 0) =~= Seq::<Seq<char>>::empty());
    assert(action_rows(out@) =~= legacy_enable_rows(sviews(en@).subrange(0, 0)));
    while i < en.len()
        invariant
            i <= en.len(),
            action_rows(out@) == legacy_enable_rows(sviews(en@).subrange(0, i as int)),
        decreases en.len() - i,
    {
        proof {
            lemma_legacy_enable_push(sviews(en@).subrange(0, i as int), en@[i as int]@);
            assert(sviews(en@).subrange(0, i + 1) =~= sviews(en@).subrange(0, i as int).push(en@[i as int]@));
        }
        push_enable(&mut out, en[i].as_str());
        i = i + 1;
    }
    let ghost base = sviews(en@);
    assert(base.subrange(0, en.len() as int) =~= base);
    if zfs_root {
        proof {
            lemma_legacy_enable_push(base, "zfs-import"@);
            lemma_legacy_enable_push(base.push("zfs-import"@), "zfs-mount"@);
            assert(base + seq!["zfs-import"@, "zfs-mount"@] =~= base.push("zfs-import"@).push("zfs-mount"@));
        }
        push_enable(&mut out, "zfs-import");
        push_enable(&mut out, "zfs-mount");
    } else {
        assert(base + Seq::<Seq<char>>::empty() =~= base);
    }
    let ghost enabled_all = base + if zfs_root {
        seq!["zfs-import"@, "zfs-mount"@]
    } else {
        seq![]
    };
    assert(action_rows(out@) == legacy_enable_rows(enabled_all));
    let ghost head = action_rows(out@);
    let dis = &services.disabled;
    let mut j: usize = 0;
    assert(action_rows(out@) =~= head + legacy_disable_rows(sviews(dis@).subrange(0, 0)));
    while j < dis.len()
        invariant
            j <= dis.len(),
            action_rows(out@) == head + legacy_disable_rows(sviews(dis@).subrange(0, j as int)),
        decreases dis.len() - j,
    {
        let ghost pre = sviews(dis@).subrange(0, j as int);
        let ghost next = sviews(dis@).subrange(0, j + 1);
        push_action(&mut out, false, "default", dis[j].as_str());
        push_action(&mut out, false, "boot", dis[j].as_str());
        proof {
            assert(next.drop_last() =~= pre);
            assert(next.last() == dis@[j as int]@);
        }
        j = j + 1;
        assert(action_rows(out@) =~= head + legacy_disable_rows(sviews(dis@).subrange(0, j as int)));
    }
    assert(sviews(dis@).subrange(0, dis.len() as int) =~= sviews(dis@));
    out
}

fn name_ok_exec(s: &str) -> (r: bool)
    ensures
        r == name_ok(s@),
{
    let v = chars_of(s);
    if v.len() == 0 || str_eq(s, ".") || str_eq(s, "..") {
        return false;
    }
    let mut i: usize = 0;
    while i < v.len()
        invariant
            i <= v.len(),
            v@ == s@,
            forall|k: int| 0 <= k < i ==> v@[k] != '/',
        decreases v.len() - i,
    {
        if v[i] == '/' {
            assert(s@.contains('/')) by {
                assert(s@[i as int] == '/');
            }
            return false;
        }
        i = i + 1;
    }
    true
}

/// Whether `s` occurs among the first `upto` strings of `v`.
fn listed_before(v: &Vec<String>, upto: usize, s: &str) -> (r: bool)
    requires
        upto <= v.len(),
    ensures
        r == sviews(v@).subrange(0, upto as int).contains(s@),
{
    let ghost w = sviews(v@).subrange(0, upto as int);
    let mut i: usize = 0;
    while i < upto
        invariant
            i <= upto,
            upto <= v.len(),
            w == sviews(v@).subrange(0, upto as int),
            forall|k: int| 0 <= k < i ==> w[k] != s@,
        decreases upto - i,
    {
        if str_eq(v[i].as_str(), s) {
            assert(w[i as int] == s@);
            return true;
        }
        i = i + 1;
    }
    false
}

fn service_failure_exec(rl: &str, desired: &Vec<String>, i: usize, scripts: &Vec<String>, target: &str) -> (r: Option<
    String,
>)
    requires
        i < desired.len(),
    ensures
        opt_view(r) == service_failure(rl@, sviews(desired@), i as int, sviews(scripts@), target@),
{
    let s = desired[i].as_str();
    let sv = chars_of(s);
    if !name_ok_exec(s) {
        let mut v = chars_of("invalid OpenRC service name ");
        push_debug_quoted(&mut v, &sv);
        push_str(&mut v, " in ");
        push_str(&mut v, rl);
        return Some(string_of(&v));
    }
    if listed_before(desired, i, s) {
        let mut v = chars_of("OpenRC service ");
        push_debug_quoted(&mut v, &sv);
        push_str(&mut v, " is listed more than once in ");
        push_str(&mut v, rl);
        return Some(string_of(&v));
    }
    if !listed_before(scripts, scripts.len(), s) {
        proof {
            assert(sviews(scripts@).subrange(0, scripts.len() as int) =~= sviews(scripts@));
        }
        let dir = under(target, "etc/init.d");
        let path = under(dir.as_str(), s);
        let mut v = chars_of("OpenRC service ");
        push_debug_quoted(&mut v, &sv);
        push_str(&mut v, " is listed in ");
        push_str(&mut v, rl);
        push_str(&mut v, " but ");
        push_str(&mut v, path.as_str());
        push_str(&mut v, " is missing");
        return Some(string_of(&v));
    }
    proof {
        assert(sviews(scripts@).subrange(0, scripts.len() as int) =~= sviews(scripts@));
    }
    None
}

pub open spec fn opt_view(o: Option<String>) -> Option<Seq<char>> {
    match o {
        Some(s) => Some(s@),
        None => None,
    }
}

fn runlevel_failure_exec(
    rl: &str,
    desired: &Vec<String>,
    scripts: &Vec<String>,
    entries: &Vec<RunlevelEntry>,
    target: &str,
) -> (r: Option<String>)
    ensures
        opt_view(r) == runlevel_failure(rl@, sviews(desired@), sviews(scripts@), entry_rows(entries@), target@),
{
    let ghost d = sviews(desired@);
    let mut i: usize = 0;
    while i < desired.len()
        invariant
            i <= desired.len(),
            d == sviews(desired@),
            first_service_failure(rl@, d, i as nat, sviews(scripts@), target@) is None,
        decreases desired.len() - i,
    {
        let f = service_failure_exec(rl, desired, i, scripts, target);
        if f.is_some() {
            proof {
                assert(first_service_failure(rl@, d, (i + 1) as nat, sviews(scripts@), target@) == opt_view(f));
                lemma_first_failure_sticks(rl@, d, (i + 1) as nat, d.len(), sviews(scripts@), target@);
            }
            return f;
        }
        i = i + 1;
    }
    let dir = under(target, "etc/runlevels");
    let rdir = under(dir.as_str(), rl);
    let ghost rows = entry_rows(entries@);
    let mut j: usize = 0;
    assert(rows.subrange(0, 0) =~= Seq::<(Seq<char>, bool)>::empty());
    while j < entries.len()
        invariant
            j <= entries.len(),
            rows == entry_rows(entries@),
            rdir@ == tpath(tpath(target@, "etc/runlevels"@), rl@),
            first_dir_entry(rdir@, rows.subrange(0, j as int)) is None,
            first_service_failure(rl@, sviews(desired@), desired.len() as nat, sviews(scripts@), target@) is None,
        decreases entries.len() - j,
    {
        let ghost next = rows.subrange(0, j + 1);
        proof {
            assert(next.drop_last() =~= rows.subrange(0, j as int));
            assert(next.last() == (entries@[j as int].name@, entries@[j as int].is_dir));
        }
        if entries[j].is_dir {
            let path = under(rdir.as_str(), entries[j].name.as_str());
            let mut v = chars_of("unexpected directory in OpenRC runlevel: ");
            push_str(&mut v, path.as_str());
            proof {
                assert(first_dir_entry(rdir@, next) == Some(v@));
                lemma_dir_entry_sticks(rdir@, rows, j + 1);
            }
            return Some(string_of(&v));
        }
        j = j + 1;
    }
    assert(rows.subrange(0, entries.len() as int) =~= rows);
    None
}

proof fn lemma_first_failure_sticks(
    rl: Seq<char>,
    desired: Seq<Seq<char>>,
    n: nat,
    m: nat,
    scripts: Seq<Seq<char>>,
    target: Seq<char>,
)
    requires
        n <= m,
        first_service_failure(rl, desired, n, scripts, target) is Some,
    ensures
        first_service_failure(rl, desired, m, scripts, target) == first_service_failure(
            rl,
            desired,
            n,
            scripts,
            target,
        ),
    decreases m - n,
{
    if n < m {
        lemma_first_failure_sticks(rl, desired, n, (m - 1) as nat, scripts, target);
    }
}

proof fn lemma_dir_entry_sticks(dir: Seq<char>, rows: Seq<(Seq<char>, bool)>, n: int)
    requires
        0 <= n <= rows.len(),
        first_dir_entry(dir, rows.subrange(0, n)) is Some,
    ensures
        first_dir_entry(dir, rows) == first_dir_entry(dir, rows.subrange(0, n)),
    decreases rows.len() - n,
{
    if n < rows.len() {
        let next = rows.subrange(0, n + 1);
        assert(next.drop_last() =~= rows.subrange(0, n));
        assert(first_dir_entry(dir, next) == first_dir_entry(dir, rows.subrange(0, n)));
        lemma_dir_entry_sticks(dir, rows, n + 1);
    } else {
        assert(rows.subrange(0, n) =~= rows);
    }
}

fn push_runlevel(out: &mut Vec<RunlevelAction>, rl: &str, desired: &Vec<String>, entries: &Vec<RunlevelEntry>)
    ensures
        action_rows(final(out)@) == action_rows(old(out)@) + unlink_rows(rl@, sviews(desired@), entry_rows(entries@))
            + link_rows(rl@, sviews(desired@)),
{
    let ghost before = action_rows(out@);
    let ghost d = sviews(desired@);
    let ghost rows = entry_rows(entries@);
    let mut j: usize = 0;
    assert(rows.subrange(0, 0) =~= Seq::<(Seq<char>, bool)>::empty());
    assert(action_rows(out@) =~= before + unlink_rows(rl@, d, rows.subrange(0, 0)));
    while j < entries.len()
        invariant
            j <= entries.len(),
            d == sviews(desired@),
            rows == entry_rows(entries@),
            action_rows(out@) == before + unlink_rows(rl@, d, rows.subrange(0, j as int)),
        decreases entries.len() - j,
    {
        let ghost next = rows.subrange(0, j + 1);
        proof {
            assert(next.drop_last() =~= rows.subrange(0, j as int));
            assert(next.last().0 == entries@[j as int].name@);
            assert(d.subrange(0, desired.len() as int) =~= d);
        }
        let name = entries[j].name.as_str();
        if !listed_before(desired, desired.len(), name) {
            push_action(out, false, rl, name);
        }
        j = j + 1;
        assert(action_rows(out@) =~= before + unlink_rows(rl@, d, rows.subrange(0, j as int)));
    }
    assert(rows.subrange(0, entries.len() as int) =~= rows);
    let ghost mid = action_rows(out@);
    let mut i: usize = 0;
    assert(mid =~= mid + link_rows(rl@, d.subrange(0, 0)));
    while i < desired.len()
        invariant
            i <= desired.len(),
            d == sviews(desired@),
            action_rows(out@) == mid + link_rows(rl@, d.subrange(0, i as int)),
        decreases desired.len() - i,
    {
        push_action(out, true, rl, desired[i].as_str());
        i = i + 1;
        assert(action_rows(out@) =~= mid + link_rows(rl@, d.subrange(0, i as int)));
    }
    assert(d.subrange(0, desired.len() as int) =~= d);
}

/// The runlevel changes that activate the manifest's OpenRC services on the
/// target. With authoritative runlevel lists the lists are checked against
/// what the target holds first, and each runlevel is made to hold exactly
/// its list.
pub fn activate_openrc_services(services: &Services, zfs_root: bool, target_mount: &str, found: &OpenrcTarget) -> (r: Result<
    Vec<RunlevelAction>,
    SystemInstallError,
>)
    ensures
        services.openrc.boot@.len() == 0 && services.openrc.default@.len() == 0 ==> (r matches Ok(v)
            && action_rows(v@) == legacy_rows(*services, zfs_root)),
        services.openrc.boot@.len() > 0 || services.openrc.default@.len() > 0 ==> match openrc_failure(
            services.openrc,
            *found,
            target_mount@,
        ) {
            Some(m) => r matches Err(SystemInstallError::InvalidPlan(e)) && e@ == m,
            None => r matches Ok(v) && action_rows(v@) == authoritative_rows(services.openrc, *found),
        },
{
    let o = &services.openrc;
    if o.boot.len() == 0 && o.default.len() == 0 {
        return Ok(legacy_actions(services, zfs_root));
    }
    match runlevel_failure_exec("boot", &o.boot, &found.init_scripts, &found.boot_entries, target_mount) {
        Some(m) => return Err(SystemInstallError::InvalidPlan(m)),
        None => {},
    }
    match runlevel_failure_exec("default", &o.default, &found.init_scripts, &found.default_entries, target_mount) {
        Some(m) => return Err(SystemInstallError::InvalidPlan(m)),
        None => {},
    }
    let mut out: Vec<RunlevelAction> = Vec::new();
    assert(action_rows(out@) =~= Seq::<(bool, Seq<char>, Seq<char>)>::empty());
    push_runlevel(&mut out, "boot", &o.boot, &found.boot_entries);
    push_runlevel(&mut out, "default", &o.default, &found.default_entries);
    assert(action_rows(out@) =~= authoritative_rows(*o, *found));
    Ok(out)
}

} // verus!
