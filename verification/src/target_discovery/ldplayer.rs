//! LDPlayer emulators: found through the console of their installation, or through the processes
//! of their virtual machines.
use crate::config::RulerConfig;
use crate::paths;
use crate::paths::{joined, parent_of};
use crate::target_discovery::adb::{
    adb_has_arknights_package, adb_serial_for_ports, asking_for_game, asking_on_ports,
    console_serial, device_view, device_with_game, has_game, is_local_address,
    ldplayer_adb_serial_for_instance,
};
use crate::target_discovery::facts;
use crate::target_discovery::facts::{
    consistent, fits, grows, having_asked, known_machine, path_exists, path_is_there, questions,
    Asked, Fact, Machine, Question,
};
use crate::target_discovery::mumu::{has_lower_text, opt_number, path_result, Surroundings};
use crate::target_discovery::order;
use crate::target_discovery::order::{connects_first, connects_only};
use crate::target_discovery::process::{
    insert_port, is_network_pid, is_offered, matching_vbox_pids, ports_where,
    related_listener_ports, related_ports, ProcessInfo, TcpListener,
};
use crate::target_discovery::search::{
    all_fresh, found, new_candidate, opt_config, Found, Search, SearchView,
};
use crate::target_discovery::{
    non_empty, non_empty_text, stable_path, stable_path_text, Source, TargetKind,
};
use crate::text;
use crate::text::{
    contains_text, decimal, lines_of, lowered, number_at_most, opt_view, same_but_case, split_on,
    trimmed, views,
};
use vstd::prelude::*;

verus! {

/// An instance as the console lists it.
#[derive(Debug, PartialEq, Eq)]
pub struct LDPlayerInstance {
    pub index: u32,
    pub name: String,
    pub player_pid: u32,
    pub vbox_pid: u32,
}

#[verifier::ext_equal]
pub struct InstanceView {
    pub index: u32,
    pub name: Seq<char>,
    pub player_pid: u32,
    pub vbox_pid: u32,
}

impl View for LDPlayerInstance {
    type V = InstanceView;

    open spec fn view(&self) -> InstanceView {
        InstanceView {
            index: self.index,
            name: self.name@,
            player_pid: self.player_pid,
            vbox_pid: self.vbox_pid,
        }
    }
}

pub open spec fn instance_views(instances: Seq<LDPlayerInstance>) -> Seq<InstanceView> {
    instances.map_values(|instance: LDPlayerInstance| instance@)
}

/// The fields of a line: what stands between commas, without white space around it.
pub open spec fn fields_of(line: Seq<char>) -> Seq<Seq<char>> {
    split_on(line, ',').map_values(|field: Seq<char>| trimmed(field))
}

pub open spec fn field_number(field: Seq<char>) -> Option<int> {
    number_at_most(field, u32::MAX as int)
}

/// The instance on a line: its index and name come first, the two processes as sixth and seventh.
pub open spec fn instance_on(line: Seq<char>) -> Option<InstanceView> {
    let fields = fields_of(line);
    if fields.len() < 7 {
        None
    } else {
        match (field_number(fields[0]), field_number(fields[5]), field_number(fields[6])) {
            (Some(index), Some(player), Some(vbox)) => Some(
                InstanceView {
                    index: index as u32,
                    name: fields[1],
                    player_pid: player as u32,
                    vbox_pid: vbox as u32,
                },
            ),
            _ => None,
        }
    }
}

pub open spec fn instances_on(lines: Seq<Seq<char>>) -> Seq<InstanceView>
    decreases lines.len(),
{
    if lines.len() == 0 {
        Seq::empty()
    } else {
        let rest = instances_on(lines.drop_last());
        match instance_on(lines.last()) {
            Some(instance) => rest.push(instance),
            None => rest,
        }
    }
}

/// The index on a line that names the process `pid` as one of its two.
pub open spec fn index_on(line: Seq<char>, pid: u32) -> Option<int> {
    let fields = fields_of(line);
    if fields.len() < 6 {
        None
    } else {
        let named = field_number(fields[5]) == Some(pid as int) || (fields.len() > 6
            && field_number(fields[6]) == Some(pid as int));
        if named {
            field_number(fields[0])
        } else {
            None
        }
    }
}

/// The index on the first line that has one for the process `pid`.
pub open spec fn index_for_pid(lines: Seq<Seq<char>>, pid: u32) -> Option<int>
    decreases lines.len(),
{
    if lines.len() == 0 {
        None
    } else {
        match index_on(lines[0], pid) {
            Some(index) => Some(index),
            None => index_for_pid(lines.drop_first(), pid),
        }
    }
}

fn split_fields(line: &str) -> (fields: Vec<String>)
    ensures
        views(fields@) == fields_of(line@),
{
    let parts = text::split(line, ',');
    let ghost want = fields_of(line@);
    let ghost all = split_on(line@, ',');
    let mut fields: Vec<String> = Vec::new();
    let mut i: usize = 0;
    while i < parts.len()
        invariant
            i <= parts@.len(),
            all == views(parts@),
            want == all.map_values(|field: Seq<char>| trimmed(field)),
            views(fields@) == want.take(i as int),
        decreases parts@.len() - i,
    {
        let ghost before = views(fields@);
        let field = text::trim(&parts[i]);
        assert(all[i as int] == parts@[i as int]@);
        let ghost added = field@;
        fields.push(field);
        assert(views(fields@) =~= before.push(added));
        assert(want.take(i as int + 1) =~= want.take(i as int).push(want[i as int]));
        i += 1;
    }
    assert(want.take(i as int) =~= want);
    fields
}

fn parse_field(field: &str) -> (n: Option<u32>)
    ensures
        opt_number(n) == field_number(field@),
{
    match text::parse_number(field, 0xffff_ffff) {
        Some(n) => Some(n as u32),
        None => None,
    }
}

/// The instances that the console's output lists.
pub fn parse_ldplayer_instances(output: &str) -> (instances: Vec<LDPlayerInstance>)
    ensures
        instance_views(instances@) == instances_on(lines_of(output@)),
{
    let lines = text::lines(output);
    let ghost all = lines_of(output@);
    let mut instances: Vec<LDPlayerInstance> = Vec::new();
    let mut i: usize = 0;
    assert(all.take(0) =~= Seq::<Seq<char>>::empty());
    assert(instance_views(instances@) =~= Seq::<InstanceView>::empty());
    while i < lines.len()
        invariant
            i <= lines@.len(),
            all == views(lines@),
            instance_views(instances@) == instances_on(all.take(i as int)),
        decreases lines@.len() - i,
    {
        let ghost before = instance_views(instances@);
        let fields = split_fields(&lines[i]);
        let ghost want = fields_of(all[i as int]);
        proof {
            assert(all[i as int] == lines@[i as int]@);
            assert(all.take(i as int + 1).drop_last() =~= all.take(i as int));
            assert(all.take(i as int + 1).last() == all[i as int]);
            assert(want.len() == fields@.len());
        }
        if fields.len() >= 7 {
            assert(want[0] == fields@[0]@ && want[1] == fields@[1]@ && want[5] == fields@[5]@
                && want[6] == fields@[6]@);
            match (parse_field(&fields[0]), parse_field(&fields[5]), parse_field(&fields[6])) {
                (Some(index), Some(player_pid), Some(vbox_pid)) => {
                    let instance = LDPlayerInstance {
                        index,
                        name: fields[1].clone(),
                        player_pid,
                        vbox_pid,
                    };
                    let ghost added = instance@;
                    instances.push(instance);
                    assert(instance_views(instances@) =~= before.push(added));
                },
                _ => {},
            }
        }
        i += 1;
    }
    assert(all.take(i as int) =~= all);
    instances
}

/// The index of the instance that the process `pid` belongs to, by the console's output.
pub fn parse_ldplayer_instance_for_pid(output: &str, pid: u32) -> (index: Option<u32>)
    ensures
        opt_number(index) == index_for_pid(lines_of(output@), pid),
{
    let lines = text::lines(output);
    let ghost all = lines_of(output@);
    let mut i: usize = 0;
    assert(all.skip(0) =~= all);
    while i < lines.len()
        invariant
            i <= lines@.len(),
            all == views(lines@),
            index_for_pid(all, pid) == index_for_pid(all.skip(i as int), pid),
            all == lines_of(output@),
        decreases lines@.len() - i,
    {
        let fields = split_fields(&lines[i]);
        let ghost want = fields_of(all[i as int]);
        proof {
            assert(all[i as int] == lines@[i as int]@);
            assert(all.skip(i as int)[0] == all[i as int]);
            assert(all.skip(i as int).drop_first() =~= all.skip(i as int + 1));
            assert(want.len() == fields@.len());
        }
        if fields.len() >= 6 {
            assert(want[0] == fields@[0]@ && want[5] == fields@[5]@);
            let by_player = match parse_field(&fields[5]) {
                Some(n) => n == pid,
                None => false,
            };
            let by_vbox = fields.len() > 6 && match parse_field(&fields[6]) {
                Some(n) => n == pid,
                None => false,
            };
            assert(fields@.len() > 6 ==> want[6] == fields@[6]@);
            if by_player || by_vbox {
                if let Some(index) = parse_field(&fields[0]) {
                    return Some(index);
                }
            }
        }
        i += 1;
    }
    assert(all.skip(i as int) =~= Seq::<Seq<char>>::empty());
    None
}

/// The directory holds what an installation has.
pub open spec fn is_install(machine: Machine, dir: Seq<char>) -> bool {
    path_exists(machine, joined(dir, "dnconsole.exe"@)) && path_exists(
        machine,
        joined(dir, "ldopengl64.dll"@),
    )
}

/// The installation that a file belongs to: the innermost directory around it that is one.
pub open spec fn install_of(machine: Machine, path: Seq<char>) -> Option<Seq<char>>
    decreases path.len(),
{
    match parent_of(path) {
        None => None,
        Some(dir) => {
            proof {
                paths::lemma_parent_is_shorter(path);
            }
            if is_install(machine, dir) {
                Some(dir)
            } else {
                install_of(machine, dir)
            }
        },
    }
}

/// What has been asked once the installation was looked for that a file belongs to: from the
/// innermost directory around it on, up to the first that is one.
pub open spec fn asking_for_install(
    machine: Machine,
    asked: Seq<Asked>,
    path: Seq<char>,
) -> Seq<Asked>
    decreases path.len(),
{
    match parent_of(path) {
        None => asked,
        Some(dir) => {
            proof {
                paths::lemma_parent_is_shorter(path);
            }
            let console = joined(dir, "dnconsole.exe"@);
            let library = joined(dir, "ldopengl64.dll"@);
            let first = having_asked(asked, Asked::Exists(console));
            let now = if path_exists(machine, console) {
                having_asked(first, Asked::Exists(library))
            } else {
                first
            };
            if is_install(machine, dir) {
                now
            } else {
                asking_for_install(machine, now, dir)
            }
        },
    }
}

/// The installation that a file belongs to.
pub fn resolve_ldplayer_install_path(facts: &mut Vec<Fact>, path: &str) -> (r: Option<String>)
    ensures
        path_result(
            old(facts)@,
            final(facts)@,
            r,
            |machine: Machine| install_of(machine, path@),
            |machine: Machine, asked: Seq<Asked>| asking_for_install(machine, asked, path@),
        ),
    decreases path@.len(),
{
    match paths::parent(path) {
        None => None,
        Some(dir) => {
            proof {
                paths::lemma_parent_is_shorter(path@);
            }
            if path_is_there(facts, &paths::join(&dir, "dnconsole.exe")) && path_is_there(
                facts,
                &paths::join(&dir, "ldopengl64.dll"),
            ) {
                Some(dir)
            } else {
                resolve_ldplayer_install_path(facts, &dir)
            }
        },
    }
}

/// The process may tell where the emulator is installed.
pub open spec fn knows_install(process: ProcessInfo) -> bool {
    ||| contains_text(lowered(process.name@), "ld"@)
    ||| contains_text(lowered(process.name@), "dn"@)
    ||| has_lower_text(process.executable_path, "ldplayer"@)
    ||| has_lower_text(process.executable_path, "leidian"@)
}

/// The first installation that one of the processes belongs to.
pub open spec fn install_among(machine: Machine, processes: Seq<ProcessInfo>) -> Option<Seq<char>>
    decreases processes.len(),
{
    if processes.len() == 0 {
        None
    } else {
        let rest = install_among(machine, processes.drop_first());
        match processes[0].executable_path {
            Some(path) => if knows_install(processes[0]) {
                match install_of(machine, path@) {
                    Some(dir) => Some(dir),
                    None => rest,
                }
            } else {
                rest
            },
            None => rest,
        }
    }
}

/// The installation that a process belongs to: its own, or that of another LDPlayer process.
pub open spec fn install_for(
    machine: Machine,
    process: ProcessInfo,
    processes: Seq<ProcessInfo>,
) -> Option<Seq<char>> {
    let own = match process.executable_path {
        Some(path) => install_of(machine, path@),
        None => None,
    };
    match own {
        Some(dir) => Some(dir),
        None => install_among(machine, processes),
    }
}

/// What has been asked once the installations of the processes were looked for, up to the first that
/// is found.
pub open spec fn asking_among(
    machine: Machine,
    asked: Seq<Asked>,
    processes: Seq<ProcessInfo>,
) -> Seq<Asked>
    decreases processes.len(),
{
    if processes.len() == 0 {
        asked
    } else {
        let rest = processes.drop_first();
        match processes[0].executable_path {
            Some(path) => if knows_install(processes[0]) {
                let now = asking_for_install(machine, asked, path@);
                match install_of(machine, path@) {
                    Some(_) => now,
                    None => asking_among(machine, now, rest),
                }
            } else {
                asking_among(machine, asked, rest)
            },
            None => asking_among(machine, asked, rest),
        }
    }
}

/// What has been asked once the installation of a process was looked for: its own first.
pub open spec fn asking_install_for(
    machine: Machine,
    asked: Seq<Asked>,
    process: ProcessInfo,
    processes: Seq<ProcessInfo>,
) -> Seq<Asked> {
    match process.executable_path {
        Some(path) => {
            let now = asking_for_install(machine, asked, path@);
            match install_of(machine, path@) {
                Some(_) => now,
                None => asking_among(machine, now, processes),
            }
        },
        None => asking_among(machine, asked, processes),
    }
}

fn may_know_install(process: &ProcessInfo) -> (b: bool)
    ensures
        b == knows_install(*process),
{
    let name = text::to_lower(&process.name);
    if text::contains(&name, "ld") || text::contains(&name, "dn") {
        return true;
    }
    match &process.executable_path {
        Some(path) => {
            let path = text::to_lower(path);
            text::contains(&path, "ldplayer") || text::contains(&path, "leidian")
        },
        None => false,
    }
}

/// The installation that a process belongs to.
pub fn resolve_ldplayer_install_path_for_process(
    facts: &mut Vec<Fact>,
    process: &ProcessInfo,
    processes: &Vec<ProcessInfo>,
) -> (r: Option<String>)
    ensures
        path_result(
            old(facts)@,
            final(facts)@,
            r,
            |machine: Machine| install_for(machine, *process, processes@),
            |machine: Machine, asked: Seq<Asked>|
                asking_install_for(machine, asked, *process, processes@),
        ),
{
    let ghost asked = questions(facts@);
    if let Some(path) = &process.executable_path {
        if let Some(dir) = resolve_ldplayer_install_path(facts, path) {
            return Some(dir);
        }
    }
    let mut i: usize = 0;
    assert(processes@.skip(0) =~= processes@);
    while i < processes.len()
        invariant
            grows(old(facts)@, facts@),
            asked == questions(old(facts)@),
            forall|machine: Machine| #[trigger]
                fits(machine, facts@) ==> asking_install_for(machine, asked, *process, processes@)
                    == asking_among(machine, questions(facts@), processes@.skip(i as int)),
            i <= processes@.len(),
            forall|machine: Machine| #[trigger]
                fits(machine, facts@) ==> install_for(machine, *process, processes@)
                    == install_among(machine, processes@.skip(i as int)),
        decreases processes@.len() - i,
    {
        let candidate = &processes[i];
        assert(processes@.skip(i as int)[0] == *candidate);
        assert(processes@.skip(i as int).drop_first() =~= processes@.skip(i as int + 1));
        if let Some(path) = &candidate.executable_path {
            if may_know_install(candidate) {
                if let Some(dir) = resolve_ldplayer_install_path(facts, path) {
                    return Some(dir);
                }
            }
        }
        i += 1;
    }
    assert(processes@.skip(i as int) =~= Seq::<ProcessInfo>::empty());
    None
}

pub open spec fn is_discovery_name(name: Seq<char>) -> bool {
    let lower = lowered(name);
    lower == "dnplayer.exe"@ || lower == "ldplayer.exe"@ || lower == "ld9boxheadless.exe"@ || lower
        == "ldboxheadless.exe"@ || lower == "ldvboxheadless.exe"@ || contains_text(
        lower,
        "dnplayer"@,
    )
}

fn is_ldplayer_discovery_process(name: &str) -> (b: bool)
    ensures
        b == is_discovery_name(name@),
{
    let lower = text::to_lower(name);
    text::same(&lower, "dnplayer.exe") || text::same(&lower, "ldplayer.exe") || text::same(
        &lower,
        "ld9boxheadless.exe",
    ) || text::same(&lower, "ldboxheadless.exe") || text::same(&lower, "ldvboxheadless.exe")
        || text::contains(&lower, "dnplayer")
}

/// One of the installations is this one, in whatever spelling.
pub open spec fn install_known(installs: Seq<Seq<char>>, install: Seq<char>) -> bool {
    exists|i: int|
        0 <= i < installs.len() && stable_path_text(#[trigger] installs[i]) == stable_path_text(
            install,
        )
}

/// The installations of the first `n` processes, each once.
pub open spec fn tools(machine: Machine, processes: Seq<ProcessInfo>, n: int) -> Seq<Seq<char>>
    decreases n,
{
    if n <= 0 {
        Seq::empty()
    } else {
        let before = tools(machine, processes, n - 1);
        let process = processes[n - 1];
        if is_discovery_name(process.name@) {
            match install_for(machine, process, processes) {
                Some(install) => if install_known(before, install) {
                    before
                } else {
                    before.push(install)
                },
                None => before,
            }
        } else {
            before
        }
    }
}

/// What has been asked once the installations of the first `n` processes were looked for.
pub open spec fn asking_for_tools(
    machine: Machine,
    asked: Seq<Asked>,
    processes: Seq<ProcessInfo>,
    n: int,
) -> Seq<Asked>
    decreases n,
{
    if n <= 0 {
        asked
    } else {
        let before = asking_for_tools(machine, asked, processes, n - 1);
        if is_discovery_name(processes[n - 1].name@) {
            asking_install_for(machine, before, processes[n - 1], processes)
        } else {
            before
        }
    }
}

fn has_install(installs: &Vec<String>, install: &str) -> (b: bool)
    ensures
        b == install_known(views(installs@), install@),
{
    let ghost all = views(installs@);
    let wanted = stable_path(install);
    let mut i: usize = 0;
    while i < installs.len()
        invariant
            i <= installs@.len(),
            all == views(installs@),
            wanted@ == stable_path_text(install@),
            forall|k: int| 0 <= k < i ==> stable_path_text(#[trigger] all[k]) != wanted@,
        decreases installs@.len() - i,
    {
        assert(all[i as int] == installs@[i as int]@);
        if text::same(&stable_path(&installs[i]), &wanted) {
            return true;
        }
        i += 1;
    }
    false
}

/// The installations that the running processes lead to, each once.
pub fn discover_ldplayer_tool_installs(
    facts: &mut Vec<Fact>,
    processes: &Vec<ProcessInfo>,
) -> (installs: Vec<String>)
    ensures
        grows(old(facts)@, final(facts)@),
        forall|machine: Machine| #[trigger]
            fits(machine, final(facts)@) ==> questions(final(facts)@) == asking_for_tools(
                machine,
                questions(old(facts)@),
                processes@,
                processes@.len() as int,
            ),
        forall|machine: Machine| #[trigger]
            fits(machine, final(facts)@) ==> views(installs@) == tools(
                machine,
                processes@,
                processes@.len() as int,
            ),
{
    let mut installs: Vec<String> = Vec::new();
    let ghost asked = questions(facts@);
    let mut i: usize = 0;
    assert(views(installs@) =~= Seq::<Seq<char>>::empty());
    while i < processes.len()
        invariant
            grows(old(facts)@, facts@),
            asked == questions(old(facts)@),
            forall|machine: Machine| #[trigger]
                fits(machine, facts@) ==> questions(facts@)
                    == asking_for_tools(machine, asked, processes@, i as int),
            i <= processes@.len(),
            forall|machine: Machine| #[trigger]
                fits(machine, facts@) ==> views(installs@) == tools(
                    machine,
                    processes@,
                    i as int,
                ),
        decreases processes@.len() - i,
    {
        let process = &processes[i];
        let ghost before = views(installs@);
        if is_ldplayer_discovery_process(&process.name) {
            if let Some(install) = resolve_ldplayer_install_path_for_process(
                facts,
                process,
                processes,
            ) {
                if !has_install(&installs, &install) {
                    let ghost added = install@;
                    installs.push(install);
                    assert(views(installs@) =~= before.push(added));
                }
            }
        }
        i += 1;
    }
    installs
}

/// An instance that was found.
pub open spec fn ldplayer_target(
    install_path: Seq<char>,
    index: u32,
    name: Option<Seq<char>>,
    serial: Seq<char>,
) -> Found {
    Found {
        kind: TargetKind::LDPlayer,
        fingerprint: "ldplayer:"@ + stable_path_text(install_path) + seq![':'] + decimal(
            index as nat,
        ),
        name: match non_empty_text(name) {
            Some(name) => name,
            None => "LDPlayer #"@ + decimal(index as nat),
        },
        detail: serial + " | "@ + install_path,
        install_path: Some(install_path),
        instance_index: Some(index),
        device_id: Some(serial),
        window_handle: None,
        window_title: None,
        window_class: None,
    }
}

fn push_ldplayer_candidate(
    search: &mut Search,
    install_path: &str,
    index: u32,
    display_name: &Option<String>,
    serial: String,
    port: u16,
    previous: Option<&RulerConfig>,
)
    requires
        all_fresh(old(search).candidates@, opt_config(previous)),
    ensures
        final(search)@ == old(search)@.with_device(
            ldplayer_target(install_path@, index, opt_view(*display_name), serial@),
            port,
            serial@,
        ),
        all_fresh(final(search).candidates@, opt_config(previous)),
{
    let mut fingerprint = "ldplayer:".to_owned();
    fingerprint.append(&stable_path(install_path));
    fingerprint.push(':');
    text::push_decimal(&mut fingerprint, index as u64);
    let name = match non_empty(display_name) {
        Some(name) => name,
        None => {
            let mut name = "LDPlayer #".to_owned();
            text::push_decimal(&mut name, index as u64);
            name
        },
    };
    let mut detail = serial.clone();
    detail.append(" | ");
    detail.append(install_path);
    let candidate = new_candidate(
        TargetKind::LDPlayer,
        fingerprint,
        name,
        detail,
        Source {
            install_path: Some(install_path.to_owned()),
            instance_index: Some(index),
            device_id: Some(serial.clone()),
            window_handle: None,
            window_title: None,
            window_class: None,
        },
        previous,
    );
    assert(found(candidate) =~= ldplayer_target(
        install_path@,
        index,
        opt_view(*display_name),
        serial@,
    ));
    search.add_device(candidate, port, serial);
}

/// The device of an instance with the game: under its usual name, or else on one of `ports`.
pub open spec fn device_of(
    machine: Machine,
    index: u32,
    ports: Seq<u16>,
    connected: Seq<Seq<char>>,
) -> Option<(Seq<char>, u16)> {
    let usual = console_serial(index);
    if connected.contains(usual) && has_game(machine, usual) {
        Some((usual, (index as u16).wrapping_mul(2).wrapping_add(5554)))
    } else {
        device_with_game(machine, ports, connected)
    }
}

/// What has been asked once the device of an instance was looked for: first under its usual name.
pub open spec fn asking_for_instance(
    machine: Machine,
    asked: Seq<Asked>,
    index: u32,
    ports: Seq<u16>,
    connected: Seq<Seq<char>>,
) -> Seq<Asked> {
    let usual = console_serial(index);
    if connected.contains(usual) {
        let now = asking_for_game(machine, asked, usual);
        if has_game(machine, usual) {
            now
        } else {
            asking_on_ports(machine, now, ports, connected)
        }
    } else {
        asking_on_ports(machine, asked, ports, connected)
    }
}

fn find_device(
    facts: &mut Vec<Fact>,
    index: u32,
    ports: &Vec<u16>,
    connected: &Vec<String>,
) -> (device: Option<(String, u16)>)
    ensures
        grows(old(facts)@, final(facts)@),
        forall|machine: Machine| #[trigger]
            fits(machine, final(facts)@) ==> questions(final(facts)@) == asking_for_instance(
                machine,
                questions(old(facts)@),
                index,
                ports@,
                views(connected@),
            ),
        forall|machine: Machine| #[trigger]
            fits(machine, final(facts)@) ==> device_view(device) == device_of(
                machine,
                index,
                ports@,
                views(connected@),
            ),
{
    if let Some(serial) = ldplayer_adb_serial_for_instance(index, connected) {
        if adb_has_arknights_package(facts, &serial) {
            let port: u16 = (index as u16).wrapping_mul(2).wrapping_add(5554);
            return Some((serial, port));
        }
    }
    adb_serial_for_ports(facts, ports, connected)
}

/// The ports that the two processes of an instance offer.
pub open spec fn instance_ports(
    instance: InstanceView,
    listeners: Seq<TcpListener>,
) -> Seq<u16> {
    ports_where(
        listeners,
        |listener: TcpListener|
            (listener.pid == instance.player_pid || listener.pid == instance.vbox_pid)
                && is_offered(listener.port),
    )
}

fn find_instance_ports(instance: &LDPlayerInstance, listeners: &Vec<TcpListener>) -> (ports: Vec<
    u16,
>)
    ensures
        ports@ == instance_ports(instance@, listeners@),
{
    let ghost keep = |listener: TcpListener|
        (listener.pid == instance.player_pid || listener.pid == instance.vbox_pid) && is_offered(
            listener.port,
        );
    let mut ports: Vec<u16> = Vec::new();
    let mut i: usize = 0;
    assert(listeners@.take(0) =~= Seq::<TcpListener>::empty());
    while i < listeners.len()
        invariant
            i <= listeners@.len(),
            keep == (|listener: TcpListener|
                (listener.pid == instance.player_pid || listener.pid == instance.vbox_pid)
                    && is_offered(listener.port)),
            ports@ == ports_where(listeners@.take(i as int), keep),
        decreases listeners@.len() - i,
    {
        let listener = listeners[i];
        assert(listeners@.take(i as int + 1).drop_last() =~= listeners@.take(i as int));
        if (listener.pid == instance.player_pid || listener.pid == instance.vbox_pid)
            && listener.port != 5037 && listener.port >= 1024 {
            insert_port(&mut ports, listener.port);
        }
        i += 1;
    }
    assert(listeners@.take(i as int) =~= listeners@);
    assert(keep =~= (|listener: TcpListener|
        (listener.pid == instance@.player_pid || listener.pid == instance@.vbox_pid)
            && is_offered(listener.port)));
    ports
}

/// With the instances that run, as far as they are reachable and have the game.
pub open spec fn with_instances(
    machine: Machine,
    search: SearchView,
    install_path: Seq<char>,
    instances: Seq<InstanceView>,
    listeners: Seq<TcpListener>,
    connected: Seq<Seq<char>>,
) -> SearchView
    decreases instances.len(),
{
    if instances.len() == 0 {
        search
    } else {
        let before = with_instances(
            machine,
            search,
            install_path,
            instances.drop_last(),
            listeners,
            connected,
        );
        let instance = instances.last();
        if instance.player_pid == 0 || instance.vbox_pid == 0 {
            before
        } else {
            match device_of(
                machine,
                instance.index,
                instance_ports(instance, listeners),
                connected,
            ) {
                Some((serial, port)) => before.with_device(
                    ldplayer_target(install_path, instance.index, Some(instance.name), serial),
                    port,
                    serial,
                ),
                None => before,
            }
        }
    }
}

/// What the console of an installation lists.
pub open spec fn console_lines(machine: Machine, install_path: Seq<char>) -> Option<
    Seq<Seq<char>>,
> {
    match machine(Asked::InstanceList(joined(install_path, "dnconsole.exe"@))) {
        Some(output) => Some(lines_of(output)),
        None => None,
    }
}

/// With the instances of the given installations.
pub open spec fn with_tools(
    machine: Machine,
    search: SearchView,
    installs: Seq<Seq<char>>,
    listeners: Seq<TcpListener>,
    connected: Seq<Seq<char>>,
) -> SearchView
    decreases installs.len(),
{
    if installs.len() == 0 {
        search
    } else {
        let before = with_tools(machine, search, installs.drop_last(), listeners, connected);
        match console_lines(machine, installs.last()) {
            Some(lines) => with_instances(
                machine,
                before,
                installs.last(),
                instances_on(lines),
                listeners,
                connected,
            ),
            None => before,
        }
    }
}

/// The ports around a virtual machine: those that its relatives offer, and those of its network.
pub open spec fn headless_ports(
    process: ProcessInfo,
    install_path: Seq<char>,
    index: u32,
    around: Surroundings,
) -> Seq<u16> {
    with_network_ports(
        related_ports(process, Some(install_path), around.processes@, around.listeners@),
        around.listeners@,
        |pid: u32| is_network_pid(process, index, around.processes@, pid),
    )
}

/// `ports` with those of the listeners of the given processes.
pub open spec fn with_network_ports(
    ports: Seq<u16>,
    listeners: Seq<TcpListener>,
    network: spec_fn(u32) -> bool,
) -> Seq<u16>
    decreases listeners.len(),
{
    if listeners.len() == 0 {
        ports
    } else {
        let before = with_network_ports(ports, listeners.drop_last(), network);
        if network(listeners.last().pid) {
            crate::target_discovery::process::with_port(before, listeners.last().port)
        } else {
            before
        }
    }
}

fn lists_pid(pids: &Vec<u32>, pid: u32) -> (b: bool)
    ensures
        b == pids@.contains(pid),
{
    let mut i: usize = 0;
    while i < pids.len()
        invariant
            i <= pids@.len(),
            forall|k: int| 0 <= k < i ==> pids@[k] != pid,
        decreases pids@.len() - i,
    {
        if pids[i] == pid {
            return true;
        }
        i += 1;
    }
    false
}

fn find_headless_ports(
    process: &ProcessInfo,
    install_path: &str,
    index: u32,
    around: &Surroundings,
) -> (ports: Vec<u16>)
    ensures
        ports@ == headless_ports(*process, install_path@, index, *around),
{
    let mut ports = related_listener_ports(
        process,
        Some(install_path),
        &around.processes,
        &around.listeners,
    );
    let ghost start = ports@;
    let pids = matching_vbox_pids(process, index, &around.processes);
    let ghost network = |pid: u32| is_network_pid(*process, index, around.processes@, pid);
    let mut i: usize = 0;
    assert(around.listeners@.take(0) =~= Seq::<TcpListener>::empty());
    while i < around.listeners.len()
        invariant
            i <= around.listeners@.len(),
            network == (|pid: u32| is_network_pid(*process, index, around.processes@, pid)),
            forall|pid: u32| #[trigger]
                pids@.contains(pid) <==> is_network_pid(*process, index, around.processes@, pid),
            ports@ == with_network_ports(start, around.listeners@.take(i as int), network),
        decreases around.listeners@.len() - i,
    {
        let listener = around.listeners[i];
        assert(around.listeners@.take(i as int + 1).drop_last() =~= around.listeners@.take(
            i as int,
        ));
        let listed = lists_pid(&pids, listener.pid);
        if listed {
            insert_port(&mut ports, listener.port);
        }
        i += 1;
    }
    assert(around.listeners@.take(i as int) =~= around.listeners@);
    ports
}

/// The instance of a virtual machine, as far as it is reachable and has the game.
pub open spec fn headless_target(
    machine: Machine,
    around: Surroundings,
    process: ProcessInfo,
) -> Option<(Found, u16, Seq<char>)> {
    if !same_but_case(process.name@, "Ld9BoxHeadless.exe"@) || process.executable_path is None {
        None
    } else {
        match install_for(machine, process, around.processes@) {
            Some(install) => match console_lines(machine, install) {
                Some(lines) => match index_for_pid(lines, process.process_id) {
                    Some(index) => match device_of(
                        machine,
                        index as u32,
                        headless_ports(process, install, index as u32, around),
                        views(around.connected@),
                    ) {
                        Some((serial, port)) => Some(
                            (ldplayer_target(install, index as u32, None, serial), port, serial),
                        ),
                        None => None,
                    },
                    None => None,
                },
                None => None,
            },
            None => None,
        }
    }
}

/// With the virtual machines among the first `n` processes.
pub open spec fn with_headless(
    machine: Machine,
    search: SearchView,
    around: Surroundings,
    n: int,
) -> SearchView
    decreases n,
{
    if n <= 0 {
        search
    } else {
        let before = with_headless(machine, search, around, n - 1);
        match headless_target(machine, around, around.processes@[n - 1]) {
            Some((target, port, serial)) => before.with_device(target, port, serial),
            None => before,
        }
    }
}

/// With all LDPlayer instances: those that consoles list, and the virtual machines that run.
pub open spec fn with_ldplayer(
    machine: Machine,
    search: SearchView,
    around: Surroundings,
) -> SearchView {
    let installs = tools(machine, around.processes@, around.processes@.len() as int);
    with_headless(
        machine,
        with_tools(machine, search, installs, around.listeners@, views(around.connected@)),
        around,
        around.processes@.len() as int,
    )
}

/// What has been asked once the instances that run were looked for.
pub open spec fn asking_instances(
    machine: Machine,
    asked: Seq<Asked>,
    instances: Seq<InstanceView>,
    listeners: Seq<TcpListener>,
    connected: Seq<Seq<char>>,
) -> Seq<Asked>
    decreases instances.len(),
{
    if instances.len() == 0 {
        asked
    } else {
        let before = asking_instances(
            machine,
            asked,
            instances.drop_last(),
            listeners,
            connected,
        );
        let instance = instances.last();
        if instance.player_pid == 0 || instance.vbox_pid == 0 {
            before
        } else {
            asking_for_instance(
                machine,
                before,
                instance.index,
                instance_ports(instance, listeners),
                connected,
            )
        }
    }
}

/// What has been asked once the console of an installation was asked for its instances.
pub open spec fn asking_console(asked: Seq<Asked>, install_path: Seq<char>) -> Seq<Asked> {
    having_asked(asked, Asked::InstanceList(joined(install_path, "dnconsole.exe"@)))
}

/// What has been asked once the consoles of the given installations were asked for their instances,
/// and these were looked for.
pub open spec fn asking_consoles(
    machine: Machine,
    asked: Seq<Asked>,
    installs: Seq<Seq<char>>,
    listeners: Seq<TcpListener>,
    connected: Seq<Seq<char>>,
) -> Seq<Asked>
    decreases installs.len(),
{
    if installs.len() == 0 {
        asked
    } else {
        let before = asking_consoles(machine, asked, installs.drop_last(), listeners, connected);
        let now = asking_console(before, installs.last());
        match console_lines(machine, installs.last()) {
            Some(lines) => asking_instances(
                machine,
                now,
                instances_on(lines),
                listeners,
                connected,
            ),
            None => now,
        }
    }
}

/// What has been asked once the instance of a virtual machine was looked for.
pub open spec fn asking_for_headless(
    machine: Machine,
    asked: Seq<Asked>,
    around: Surroundings,
    process: ProcessInfo,
) -> Seq<Asked> {
    if !same_but_case(process.name@, "Ld9BoxHeadless.exe"@) || process.executable_path is None {
        asked
    } else {
        let now = asking_install_for(machine, asked, process, around.processes@);
        match install_for(machine, process, around.processes@) {
            Some(install) => {
                let told = asking_console(now, install);
                match console_lines(machine, install) {
                    Some(lines) => match index_for_pid(lines, process.process_id) {
                        Some(index) => asking_for_instance(
                            machine,
                            told,
                            index as u32,
                            headless_ports(process, install, index as u32, around),
                            views(around.connected@),
                        ),
                        None => told,
                    },
                    None => told,
                }
            },
            None => now,
        }
    }
}

/// What has been asked once the virtual machines among the first `n` processes were looked for.
pub open spec fn asking_all_headless(
    machine: Machine,
    asked: Seq<Asked>,
    around: Surroundings,
    n: int,
) -> Seq<Asked>
    decreases n,
{
    if n <= 0 {
        asked
    } else {
        asking_for_headless(
            machine,
            asking_all_headless(machine, asked, around, n - 1),
            around,
            around.processes@[n - 1],
        )
    }
}

/// What has been asked once all LDPlayer instances were looked for.
pub open spec fn asking_for_ldplayer(
    machine: Machine,
    asked: Seq<Asked>,
    around: Surroundings,
) -> Seq<Asked> {
    let n = around.processes@.len() as int;
    let found = asking_for_tools(machine, asked, around.processes@, n);
    let told = asking_consoles(
        machine,
        found,
        tools(machine, around.processes@, n),
        around.listeners@,
        views(around.connected@),
    );
    asking_all_headless(machine, told, around, n)
}

/// One of the instances runs and listens at this address.
pub open spec fn is_listed(
    instances: Seq<InstanceView>,
    listeners: Seq<TcpListener>,
    serial: Seq<char>,
) -> bool {
    exists|k: int|
        0 <= k < instances.len() && (#[trigger] instances[k]).player_pid != 0
            && instances[k].vbox_pid != 0 && is_local_address(
            instance_ports(instances[k], listeners),
            serial,
        )
}

/// The console of an installation lists an instance that runs and listens at this address.
pub open spec fn lists_address(
    machine: Machine,
    install_path: Seq<char>,
    listeners: Seq<TcpListener>,
    serial: Seq<char>,
) -> bool {
    console_lines(machine, install_path) matches Some(lines) && is_listed(
        instances_on(lines),
        listeners,
        serial,
    )
}

/// A virtual machine that the console knows, or a process around it, listens at this address.
pub open spec fn listens_at(
    machine: Machine,
    around: Surroundings,
    process: ProcessInfo,
    serial: Seq<char>,
) -> bool {
    &&& same_but_case(process.name@, "Ld9BoxHeadless.exe"@)
    &&& install_for(machine, process, around.processes@) matches Some(install)
    &&& console_lines(machine, install) matches Some(lines)
    &&& index_for_pid(lines, process.process_id) matches Some(index)
    &&& is_local_address(headless_ports(process, install, index as u32, around), serial)
}

/// The address belongs to an LDPlayer instance: a console lists it, or a virtual machine listens
/// there.
pub open spec fn is_instance_address(
    machine: Machine,
    around: Surroundings,
    serial: Seq<char>,
) -> bool {
    let installs = tools(machine, around.processes@, around.processes@.len() as int);
    ||| exists|i: int|
        0 <= i < installs.len() && lists_address(
            machine,
            #[trigger] installs[i],
            around.listeners@,
            serial,
        )
    ||| exists|p: int|
        0 <= p < around.processes@.len() && listens_at(
            machine,
            around,
            #[trigger] around.processes@[p],
            serial,
        )
}

fn add_instances(
    facts: &mut Vec<Fact>,
    search: &mut Search,
    install_path: &str,
    instances: &Vec<LDPlayerInstance>,
    around: &Surroundings,
    previous: Option<&RulerConfig>,
)
    requires
        all_fresh(old(search).candidates@, opt_config(previous)),
    ensures
        all_fresh(final(search).candidates@, opt_config(previous)),
        grows(old(facts)@, final(facts)@),
        forall|machine: Machine| #[trigger]
            fits(machine, final(facts)@) ==> questions(final(facts)@) == asking_instances(
                machine,
                questions(old(facts)@),
                instance_views(instances@),
                around.listeners@,
                views(around.connected@),
            ),
        forall|machine: Machine| #[trigger]
            fits(machine, final(facts)@) ==> final(search)@ == with_instances(
                machine,
                old(search)@,
                install_path@,
                instance_views(instances@),
                around.listeners@,
                views(around.connected@),
            ),
{
    let ghost start = search@;
    let ghost all = instance_views(instances@);
    let ghost asked = questions(facts@);
    let mut i: usize = 0;
    assert(all.take(0) =~= Seq::<InstanceView>::empty());
    while i < instances.len()
        invariant
            grows(old(facts)@, facts@),
            asked == questions(old(facts)@),
            forall|machine: Machine| #[trigger]
                fits(machine, facts@) ==> questions(facts@)
                    == asking_instances(
                    machine,
                    asked,
                    all.take(i as int),
                    around.listeners@,
                    views(around.connected@),
                ),
            i <= instances@.len(),
            all == instance_views(instances@),
            start == old(search)@,
            all_fresh(search.candidates@, opt_config(previous)),
            forall|machine: Machine| #[trigger]
                fits(machine, facts@) ==> search@ == with_instances(
                    machine,
                    start,
                    install_path@,
                    all.take(i as int),
                    around.listeners@,
                    views(around.connected@),
                ),
        decreases instances@.len() - i,
    {
        let instance = &instances[i];
        proof {
            assert(all.take(i as int + 1).drop_last() =~= all.take(i as int));
            assert(all.take(i as int + 1).last() == instance@);
        }
        if instance.player_pid != 0 && instance.vbox_pid != 0 {
            let ports = find_instance_ports(instance, &around.listeners);
            if let Some((serial, port)) = find_device(
                facts,
                instance.index,
                &ports,
                &around.connected,
            ) {
                push_ldplayer_candidate(
                    search,
                    install_path,
                    instance.index,
                    &Some(instance.name.clone()),
                    serial,
                    port,
                    previous,
                );
            }
        }
        i += 1;
    }
    assert(all.take(i as int) =~= all);
}

fn ask_console(facts: &mut Vec<Fact>, install_path: &str) -> (output: Option<String>)
    ensures
        grows(old(facts)@, final(facts)@),
        questions(final(facts)@) == asking_console(questions(old(facts)@), install_path@),
        forall|machine: Machine| #[trigger]
            fits(machine, final(facts)@) ==> console_lines(machine, install_path@) == match output {
                Some(output) => Some(lines_of(output@)),
                None => None,
            },
{
    facts::ask(
        facts,
        Question::InstanceList { program: paths::join(install_path, "dnconsole.exe") },
    )
}

fn add_tools(
    facts: &mut Vec<Fact>,
    search: &mut Search,
    installs: &Vec<String>,
    around: &Surroundings,
    previous: Option<&RulerConfig>,
)
    requires
        all_fresh(old(search).candidates@, opt_config(previous)),
    ensures
        all_fresh(final(search).candidates@, opt_config(previous)),
        grows(old(facts)@, final(facts)@),
        forall|machine: Machine| #[trigger]
            fits(machine, final(facts)@) ==> questions(final(facts)@) == asking_consoles(
                machine,
                questions(old(facts)@),
                views(installs@),
                around.listeners@,
                views(around.connected@),
            ),
        forall|machine: Machine| #[trigger]
            fits(machine, final(facts)@) ==> final(search)@ == with_tools(
                machine,
                old(search)@,
                views(installs@),
                around.listeners@,
                views(around.connected@),
            ),
{
    let ghost start = search@;
    let ghost all = views(installs@);
    let ghost asked = questions(facts@);
    let mut i: usize = 0;
    assert(all.take(0) =~= Seq::<Seq<char>>::empty());
    while i < installs.len()
        invariant
            grows(old(facts)@, facts@),
            asked == questions(old(facts)@),
            forall|machine: Machine| #[trigger]
                fits(machine, facts@) ==> questions(facts@)
                    == asking_consoles(
                    machine,
                    asked,
                    all.take(i as int),
                    around.listeners@,
                    views(around.connected@),
                ),
            i <= installs@.len(),
            all == views(installs@),
            start == old(search)@,
            all_fresh(search.candidates@, opt_config(previous)),
            forall|machine: Machine| #[trigger]
                fits(machine, facts@) ==> search@ == with_tools(
                    machine,
                    start,
                    all.take(i as int),
                    around.listeners@,
                    views(around.connected@),
                ),
        decreases installs@.len() - i,
    {
        let install = &installs[i];
        proof {
            assert(all.take(i as int + 1).drop_last() =~= all.take(i as int));
            assert(all.take(i as int + 1).last() == install@);
        }
        if let Some(output) = ask_console(facts, install) {
            let instances = parse_ldplayer_instances(&output);
            add_instances(facts, search, install, &instances, around, previous);
        }
        i += 1;
    }
    assert(all.take(i as int) =~= all);
}

fn add_headless(
    facts: &mut Vec<Fact>,
    search: &mut Search,
    around: &Surroundings,
    previous: Option<&RulerConfig>,
)
    requires
        all_fresh(old(search).candidates@, opt_config(previous)),
    ensures
        all_fresh(final(search).candidates@, opt_config(previous)),
        grows(old(facts)@, final(facts)@),
        forall|machine: Machine| #[trigger]
            fits(machine, final(facts)@) ==> questions(final(facts)@) == asking_all_headless(
                machine,
                questions(old(facts)@),
                *around,
                around.processes@.len() as int,
            ),
        forall|machine: Machine| #[trigger]
            fits(machine, final(facts)@) ==> final(search)@ == with_headless(
                machine,
                old(search)@,
                *around,
                around.processes@.len() as int,
            ),
{
    let ghost start = search@;
    let ghost asked = questions(facts@);
    let mut i: usize = 0;
    while i < around.processes.len()
        invariant
            grows(old(facts)@, facts@),
            asked == questions(old(facts)@),
            forall|machine: Machine| #[trigger]
                fits(machine, facts@) ==> questions(facts@)
                    == asking_all_headless(machine, asked, *around, i as int),
            i <= around.processes@.len(),
            start == old(search)@,
            all_fresh(search.candidates@, opt_config(previous)),
            forall|machine: Machine| #[trigger]
                fits(machine, facts@) ==> search@ == with_headless(
                    machine,
                    start,
                    *around,
                    i as int,
                ),
        decreases around.processes@.len() - i,
    {
        let process = &around.processes[i];
        if text::same_ignoring_case(&process.name, "Ld9BoxHeadless.exe")
            && process.executable_path.is_some() {
            if let Some(install) = resolve_ldplayer_install_path_for_process(
                facts,
                process,
                &around.processes,
            ) {
                if let Some(output) = ask_console(facts, &install) {
                    if let Some(index) = parse_ldplayer_instance_for_pid(
                        &output,
                        process.process_id,
                    ) {
                        let ports = find_headless_ports(process, &install, index, around);
                        if let Some((serial, port)) = find_device(
                            facts,
                            index,
                            &ports,
                            &around.connected,
                        ) {
                            push_ldplayer_candidate(
                                search,
                                &install,
                                index,
                                &None,
                                serial,
                                port,
                                previous,
                            );
                        }
                    }
                }
            }
        }
        i += 1;
    }
}

/// Adds all LDPlayer instances that are reachable and have the game.
pub fn discover_ldplayer(
    facts: &mut Vec<Fact>,
    around: &Surroundings,
    previous: Option<&RulerConfig>,
    search: &mut Search,
)
    requires
        all_fresh(old(search).candidates@, opt_config(previous)),
    ensures
        all_fresh(final(search).candidates@, opt_config(previous)),
        grows(old(facts)@, final(facts)@),
        consistent(old(facts)@) ==> connects_first(
            old(facts)@,
            final(facts)@,
            views(around.connected@),
        ) && connects_only(
            old(facts)@,
            final(facts)@,
            views(around.connected@),
            |serial: Seq<char>|
                is_instance_address(known_machine(final(facts)@), *around, serial),
        ),
        forall|machine: Machine| #[trigger]
            fits(machine, final(facts)@) ==> questions(final(facts)@) == asking_for_ldplayer(
                machine,
                questions(old(facts)@),
                *around,
            ),
        forall|machine: Machine| #[trigger]
            fits(machine, final(facts)@) ==> final(search)@ == with_ldplayer(
                machine,
                old(search)@,
                *around,
            ),
{
    let installs = discover_ldplayer_tool_installs(facts, &around.processes);
    add_tools(facts, search, &installs, around, previous);
    add_headless(facts, search, around, previous);
    proof {
        let connected = views(around.connected@);
        let asked = questions(old(facts)@);
        let instances = |machine: Machine|
            |serial: Seq<char>| is_instance_address(machine, *around, serial);
        assert forall|machine: Machine| #[trigger] fits(machine, facts@) implies order::orderly(
            machine,
            connected,
            instances(machine),
            asked,
            questions(facts@),
        ) by {
            order::law_ldplayer_is_looked_for_in_order(machine, asked, *around);
        }
        if consistent(old(facts)@) {
            order::law_order_of_known_facts(connected, instances, old(facts)@, facts@);
        }
    }
}

} // verus!
