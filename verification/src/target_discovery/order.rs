//! In which order a search asks: nothing is asked of a device before it is connected, and nothing is
//! connected to but emulators.
use crate::paths::{joined, lemma_parent_is_shorter, parent_of};
use crate::target_discovery::adb;
use crate::target_discovery::adb::{
    address, asking_connected, asking_for_device, asking_for_game, asking_for_packages,
    asking_on_ports, asking_others, asking_ports, connected_with_game, console_serial, device_at,
    is_claimed, is_connected_port, is_local_address, package_names, port_of,
};
use crate::target_discovery::asking_for_targets;
use crate::target_discovery::facts::{
    consistent, fits, grows, having_asked, known_machine, law_assumptions_are_consistent,
    law_known_machine_fits, path_exists, questions, Asked, Fact, Machine,
};
use crate::target_discovery::ldplayer;
use crate::target_discovery::mumu;
use crate::target_discovery::mumu::{InfoView, Surroundings};
use crate::target_discovery::process::{related_ports, ProcessInfo, TcpListener};
use crate::target_discovery::search::{nothing_found, SearchView};
use crate::target_discovery::windows;
use crate::target_discovery::windows::WindowInfo;
use crate::text::{same_but_case, views};
use vstd::prelude::*;

verus! {

/// The device can be used: it was connected from the start, or has been connected to.
pub open spec fn can_be_used(
    machine: Machine,
    connected: Seq<Seq<char>>,
    asked: Seq<Asked>,
    serial: Seq<char>,
) -> bool {
    connected.contains(serial) || (machine(Asked::Connect(serial)) is Some && asked.contains(
        Asked::Connect(serial),
    ))
}

/// The question may be asked after those that were asked: a connection only to an address that may be
/// connected to and is not connected, and anything of a device only where it can be used.
pub open spec fn may_be_asked(
    machine: Machine,
    connected: Seq<Seq<char>>,
    reachable: spec_fn(Seq<char>) -> bool,
    asked: Seq<Asked>,
    question: Asked,
) -> bool {
    match question {
        Asked::Connect(serial) => !connected.contains(serial) && reachable(serial),
        Asked::DeviceState(serial) => can_be_used(machine, connected, asked, serial),
        Asked::PackagePath(serial, _) => can_be_used(machine, connected, asked, serial),
        _ => true,
    }
}

/// After `before`, each question of `after` was asked when it might be.
pub open spec fn orderly(
    machine: Machine,
    connected: Seq<Seq<char>>,
    reachable: spec_fn(Seq<char>) -> bool,
    before: Seq<Asked>,
    after: Seq<Asked>,
) -> bool {
    &&& before.len() <= after.len()
    &&& after.take(before.len() as int) == before
    &&& forall|i: int|
        before.len() <= i < after.len() ==> may_be_asked(
            machine,
            connected,
            reachable,
            after.take(i),
            #[trigger] after[i],
        )
}

/// What is asked of a device after `before` is asked after it was connected to, or it was connected
/// from the start.
pub open spec fn connects_first(
    before: Seq<Fact>,
    after: Seq<Fact>,
    connected: Seq<Seq<char>>,
) -> bool {
    forall|i: int| #![trigger after[i]]
        before.len() <= i < after.len() ==> match after[i].question@ {
            Asked::DeviceState(serial) => is_connected_at(after, i, connected, serial),
            Asked::PackagePath(serial, _) => is_connected_at(after, i, connected, serial),
            _ => true,
        }
}

/// Before the fact at `i`, the device was connected to; or it was connected from the start.
pub open spec fn is_connected_at(
    facts: Seq<Fact>,
    i: int,
    connected: Seq<Seq<char>>,
    serial: Seq<char>,
) -> bool {
    connected.contains(serial) || exists|j: int|
        0 <= j < i && (#[trigger] facts[j]).question@ == Asked::Connect(serial) && facts[j].answer
            is Some
}

/// After `before`, only addresses are connected to that may be, and that are not connected.
pub open spec fn connects_only(
    before: Seq<Fact>,
    after: Seq<Fact>,
    connected: Seq<Seq<char>>,
    reachable: spec_fn(Seq<char>) -> bool,
) -> bool {
    forall|i: int|
        before.len() <= i < after.len() ==> ((#[trigger] after[i]).question@ matches Asked::Connect(
            serial,
        ) ==> !connected.contains(serial) && reachable(serial))
}

/// A search that asks in order connects first, and only to what may be connected to.
pub proof fn law_orderly_facts(
    machine: Machine,
    connected: Seq<Seq<char>>,
    reachable: spec_fn(Seq<char>) -> bool,
    before: Seq<Fact>,
    after: Seq<Fact>,
)
    requires
        fits(machine, after),
        orderly(machine, connected, reachable, questions(before), questions(after)),
    ensures
        connects_first(before, after, connected),
        connects_only(before, after, connected, reachable),
{
    let asked = questions(after);
    assert forall|i: int| #![trigger after[i]]
        before.len() <= i < after.len() implies match after[i].question@ {
        Asked::DeviceState(serial) => is_connected_at(after, i, connected, serial),
        Asked::PackagePath(serial, _) => is_connected_at(after, i, connected, serial),
        Asked::Connect(serial) => !connected.contains(serial) && reachable(serial),
        _ => true,
    } by {
        assert(asked[i] == after[i].question@);
        assert(may_be_asked(machine, connected, reachable, asked.take(i), asked[i]));
        match after[i].question@ {
            Asked::DeviceState(serial) => {
                lemma_connected_at(machine, connected, after, i, serial);
            },
            Asked::PackagePath(serial, _) => {
                lemma_connected_at(machine, connected, after, i, serial);
            },
            _ => {},
        }
    }
}

proof fn lemma_connected_at(
    machine: Machine,
    connected: Seq<Seq<char>>,
    facts: Seq<Fact>,
    i: int,
    serial: Seq<char>,
)
    requires
        fits(machine, facts),
        0 <= i <= facts.len(),
        can_be_used(machine, connected, questions(facts).take(i), serial),
    ensures
        is_connected_at(facts, i, connected, serial),
{
    if !connected.contains(serial) {
        let asked = questions(facts).take(i);
        let j = choose|j: int| 0 <= j < asked.len() && asked[j] == Asked::Connect(serial);
        assert(facts[j].question@ == Asked::Connect(serial));
    }
}

/// Where no question stands twice, what holds of every machine that answers as is known tells the
/// order of the facts.
pub proof fn law_order_of_known_facts(
    connected: Seq<Seq<char>>,
    reachable: spec_fn(Machine) -> spec_fn(Seq<char>) -> bool,
    before: Seq<Fact>,
    after: Seq<Fact>,
)
    requires
        consistent(before),
        grows(before, after),
        forall|machine: Machine| #[trigger]
            fits(machine, after) ==> orderly(
                machine,
                connected,
                reachable(machine),
                questions(before),
                questions(after),
            ),
    ensures
        connects_first(before, after, connected),
        connects_only(before, after, connected, reachable(known_machine(after))),
{
    law_assumptions_are_consistent(before, after);
    law_known_machine_fits(after);
    let machine = known_machine(after);
    law_orderly_facts(machine, connected, reachable(machine), before, after);
}

proof fn lemma_orderly_goes_on(
    machine: Machine,
    connected: Seq<Seq<char>>,
    reachable: spec_fn(Seq<char>) -> bool,
    a: Seq<Asked>,
    b: Seq<Asked>,
    c: Seq<Asked>,
)
    requires
        orderly(machine, connected, reachable, a, b),
        orderly(machine, connected, reachable, b, c),
    ensures
        orderly(machine, connected, reachable, a, c),
{
    assert(c.take(a.len() as int) =~= c.take(b.len() as int).take(a.len() as int));
    assert forall|i: int| a.len() <= i < c.len() implies may_be_asked(
        machine,
        connected,
        reachable,
        c.take(i),
        #[trigger] c[i],
    ) by {
        if i < b.len() {
            assert(c.take(b.len() as int)[i] == b[i]);
            assert(c.take(i) =~= c.take(b.len() as int).take(i));
        }
    }
}

proof fn lemma_orderly_at_rest(
    machine: Machine,
    connected: Seq<Seq<char>>,
    reachable: spec_fn(Seq<char>) -> bool,
    asked: Seq<Asked>,
)
    ensures
        orderly(machine, connected, reachable, asked, asked),
{
    assert(asked.take(asked.len() as int) =~= asked);
}

proof fn lemma_one_more(
    machine: Machine,
    connected: Seq<Seq<char>>,
    reachable: spec_fn(Seq<char>) -> bool,
    asked: Seq<Asked>,
    question: Asked,
)
    requires
        may_be_asked(machine, connected, reachable, asked, question),
    ensures
        orderly(machine, connected, reachable, asked, having_asked(asked, question)),
        having_asked(asked, question).contains(question),
{
    let after = having_asked(asked, question);
    assert(after.take(asked.len() as int) =~= asked);
    if !asked.contains(question) {
        assert(after[asked.len() as int] == question);
    }
}

/// A device that can be used can still be used when more was asked.
proof fn lemma_still_usable(
    machine: Machine,
    connected: Seq<Seq<char>>,
    reachable: spec_fn(Seq<char>) -> bool,
    before: Seq<Asked>,
    after: Seq<Asked>,
    serial: Seq<char>,
)
    requires
        orderly(machine, connected, reachable, before, after),
        can_be_used(machine, connected, before, serial),
    ensures
        can_be_used(machine, connected, after, serial),
{
    if !connected.contains(serial) {
        let j = choose|j: int| 0 <= j < before.len() && before[j] == Asked::Connect(serial);
        assert(after.take(before.len() as int)[j] == after[j]);
    }
}

proof fn lemma_packages(
    machine: Machine,
    connected: Seq<Seq<char>>,
    reachable: spec_fn(Seq<char>) -> bool,
    asked: Seq<Asked>,
    serial: Seq<char>,
    packages: Seq<Seq<char>>,
)
    requires
        can_be_used(machine, connected, asked, serial),
    ensures
        orderly(
            machine,
            connected,
            reachable,
            asked,
            asking_for_packages(machine, asked, serial, packages),
        ),
    decreases packages.len(),
{
    if packages.len() == 0 {
        lemma_orderly_at_rest(machine, connected, reachable, asked);
    } else {
        let question = Asked::PackagePath(serial, packages[0]);
        let now = having_asked(asked, question);
        lemma_one_more(machine, connected, reachable, asked, question);
        if !adb::has_package(machine, serial, packages[0]) {
            lemma_still_usable(machine, connected, reachable, asked, now, serial);
            let rest = packages.drop_first();
            lemma_packages(machine, connected, reachable, now, serial, rest);
            lemma_orderly_goes_on(
                machine,
                connected,
                reachable,
                asked,
                now,
                asking_for_packages(machine, now, serial, rest),
            );
        }
    }
}

proof fn lemma_game(
    machine: Machine,
    connected: Seq<Seq<char>>,
    reachable: spec_fn(Seq<char>) -> bool,
    asked: Seq<Asked>,
    serial: Seq<char>,
)
    requires
        can_be_used(machine, connected, asked, serial),
    ensures
        orderly(
            machine,
            connected,
            reachable,
            asked,
            asking_for_game(machine, asked, serial),
        ),
{
    lemma_packages(machine, connected, reachable, asked, serial, package_names());
}

/// A device at an address is connected to first, where it is not connected; then it can be used.
pub proof fn law_devices_are_connected_to_first(
    machine: Machine,
    connected: Seq<Seq<char>>,
    reachable: spec_fn(Seq<char>) -> bool,
    asked: Seq<Asked>,
    host: Seq<char>,
    port: u16,
)
    requires
        connected.contains(address(host, port)) || reachable(address(host, port)),
    ensures
        ({
            let after = asking_for_device(machine, asked, host, port, connected);
            &&& orderly(machine, connected, reachable, asked, after)
            &&& device_at(machine, host, port, connected) matches Some(serial) ==> can_be_used(
                machine,
                connected,
                after,
                serial,
            )
        }),
{
    let serial = address(host, port);
    if connected.contains(serial) {
        lemma_one_more(machine, connected, reachable, asked, Asked::DeviceState(serial));
    } else {
        let now = having_asked(asked, Asked::Connect(serial));
        lemma_one_more(machine, connected, reachable, asked, Asked::Connect(serial));
        if machine(Asked::Connect(serial)) is Some {
            let after = having_asked(now, Asked::DeviceState(serial));
            lemma_one_more(machine, connected, reachable, now, Asked::DeviceState(serial));
            lemma_orderly_goes_on(machine, connected, reachable, asked, now, after);
            lemma_still_usable(machine, connected, reachable, now, after, serial);
        }
    }
}

proof fn lemma_connected(
    machine: Machine,
    connected: Seq<Seq<char>>,
    reachable: spec_fn(Seq<char>) -> bool,
    asked: Seq<Asked>,
    ports: Seq<u16>,
    devices: Seq<Seq<char>>,
)
    requires
        forall|i: int| 0 <= i < devices.len() ==> connected.contains(#[trigger] devices[i]),
    ensures
        orderly(
            machine,
            connected,
            reachable,
            asked,
            asking_connected(machine, asked, ports, devices),
        ),
    decreases devices.len(),
{
    if devices.len() == 0 {
        lemma_orderly_at_rest(machine, connected, reachable, asked);
    } else {
        let serial = devices[0];
        let rest = devices.drop_first();
        assert forall|i: int| 0 <= i < rest.len() implies connected.contains(
            #[trigger] rest[i],
        ) by {
            assert(rest[i] == devices[i + 1]);
        }
        let asks = port_of(serial) is Some && ports.contains(port_of(serial)->0 as u16);
        if asks {
            let now = asking_for_game(machine, asked, serial);
            lemma_game(machine, connected, reachable, asked, serial);
            lemma_connected(machine, connected, reachable, now, ports, rest);
            lemma_orderly_goes_on(
                machine,
                connected,
                reachable,
                asked,
                now,
                asking_connected(machine, now, ports, rest),
            );
        } else {
            lemma_connected(machine, connected, reachable, asked, ports, rest);
        }
    }
}

/// Every port of this machine may be connected to.
pub open spec fn ports_reachable(
    reachable: spec_fn(Seq<char>) -> bool,
    ports: Seq<u16>,
) -> bool {
    forall|k: int|
        0 <= k < ports.len() ==> reachable(address("127.0.0.1"@, #[trigger] ports[k]))
}

proof fn lemma_ports(
    machine: Machine,
    connected: Seq<Seq<char>>,
    reachable: spec_fn(Seq<char>) -> bool,
    asked: Seq<Asked>,
    ports: Seq<u16>,
)
    requires
        ports_reachable(reachable, ports),
    ensures
        orderly(
            machine,
            connected,
            reachable,
            asked,
            asking_ports(machine, asked, ports, connected),
        ),
    decreases ports.len(),
{
    if ports.len() == 0 {
        lemma_orderly_at_rest(machine, connected, reachable, asked);
    } else {
        let rest = ports.drop_first();
        let host = "127.0.0.1"@;
        assert forall|k: int| 0 <= k < rest.len() implies reachable(
            address(host, #[trigger] rest[k]),
        ) by {
            assert(rest[k] == ports[k + 1]);
        }
        if is_connected_port(connected, ports[0]) {
            lemma_ports(machine, connected, reachable, asked, rest);
        } else {
            let now = asking_for_device(machine, asked, host, ports[0], connected);
            assert(reachable(address(host, ports[0])));
            law_devices_are_connected_to_first(
                machine,
                connected,
                reachable,
                asked,
                host,
                ports[0],
            );
            match device_at(machine, host, ports[0], connected) {
                Some(serial) => {
                    let game = asking_for_game(machine, now, serial);
                    lemma_game(machine, connected, reachable, now, serial);
                    lemma_orderly_goes_on(machine, connected, reachable, asked, now, game);
                    lemma_ports(machine, connected, reachable, game, rest);
                    lemma_orderly_goes_on(
                        machine,
                        connected,
                        reachable,
                        asked,
                        game,
                        asking_ports(machine, game, rest, connected),
                    );
                },
                None => {
                    lemma_ports(machine, connected, reachable, now, rest);
                    lemma_orderly_goes_on(
                        machine,
                        connected,
                        reachable,
                        asked,
                        now,
                        asking_ports(machine, now, rest, connected),
                    );
                },
            }
        }
    }
}

/// On ports, only these are connected to; and none of them where a connected device has the game.
pub proof fn law_ports_are_connected_to_last(
    machine: Machine,
    connected: Seq<Seq<char>>,
    reachable: spec_fn(Seq<char>) -> bool,
    asked: Seq<Asked>,
    ports: Seq<u16>,
)
    requires
        connected_with_game(machine, ports, connected) is Some || ports_reachable(
            reachable,
            ports,
        ),
    ensures
        orderly(
            machine,
            connected,
            reachable,
            asked,
            asking_on_ports(machine, asked, ports, connected),
        ),
{
    let now = asking_connected(machine, asked, ports, connected);
    lemma_connected(machine, connected, reachable, asked, ports, connected);
    if connected_with_game(machine, ports, connected) is None {
        lemma_ports(machine, connected, reachable, now, ports);
        lemma_orderly_goes_on(
            machine,
            connected,
            reachable,
            asked,
            now,
            asking_ports(machine, now, ports, connected),
        );
    }
}

proof fn lemma_others(
    machine: Machine,
    connected: Seq<Seq<char>>,
    reachable: spec_fn(Seq<char>) -> bool,
    asked: Seq<Asked>,
    search: SearchView,
    devices: Seq<Seq<char>>,
)
    requires
        forall|i: int| 0 <= i < devices.len() ==> connected.contains(#[trigger] devices[i]),
    ensures
        orderly(
            machine,
            connected,
            reachable,
            asked,
            asking_others(machine, asked, search, devices),
        ),
    decreases devices.len(),
{
    if devices.len() == 0 {
        lemma_orderly_at_rest(machine, connected, reachable, asked);
    } else {
        let front = devices.drop_last();
        assert forall|i: int| 0 <= i < front.len() implies connected.contains(
            #[trigger] front[i],
        ) by {
            assert(front[i] == devices[i]);
        }
        lemma_others(machine, connected, reachable, asked, search, front);
        if !is_claimed(search, devices.last()) {
            let before = asking_others(machine, asked, search, front);
            assert(connected.contains(devices[devices.len() - 1]));
            lemma_game(machine, connected, reachable, before, devices.last());
            lemma_orderly_goes_on(
                machine,
                connected,
                reachable,
                asked,
                before,
                asking_for_game(machine, before, devices.last()),
            );
        }
    }
}

proof fn lemma_file(
    machine: Machine,
    connected: Seq<Seq<char>>,
    reachable: spec_fn(Seq<char>) -> bool,
    asked: Seq<Asked>,
    path: Seq<char>,
)
    ensures
        orderly(
            machine,
            connected,
            reachable,
            asked,
            having_asked(asked, Asked::Exists(path)),
        ),
{
    lemma_one_more(machine, connected, reachable, asked, Asked::Exists(path));
}

proof fn lemma_library(
    machine: Machine,
    connected: Seq<Seq<char>>,
    reachable: spec_fn(Seq<char>) -> bool,
    asked: Seq<Asked>,
    dir: Seq<char>,
)
    ensures
        orderly(
            machine,
            connected,
            reachable,
            asked,
            mumu::asking_for_library(machine, asked, dir),
        ),
{
    let device = joined(dir, "nx_device/12.0/shell/sdk/external_renderer_ipc.dll"@);
    let main = joined(dir, "nx_main/sdk/external_renderer_ipc.dll"@);
    let shell = joined(dir, "shell/sdk/external_renderer_ipc.dll"@);
    let first = having_asked(asked, Asked::Exists(device));
    let second = having_asked(first, Asked::Exists(main));
    let third = having_asked(second, Asked::Exists(shell));
    lemma_file(machine, connected, reachable, asked, device);
    lemma_file(machine, connected, reachable, first, main);
    lemma_file(machine, connected, reachable, second, shell);
    lemma_orderly_goes_on(machine, connected, reachable, asked, first, second);
    lemma_orderly_goes_on(machine, connected, reachable, asked, second, third);
}

proof fn lemma_mumu_install(
    machine: Machine,
    connected: Seq<Seq<char>>,
    reachable: spec_fn(Seq<char>) -> bool,
    asked: Seq<Asked>,
    path: Seq<char>,
)
    ensures
        orderly(
            machine,
            connected,
            reachable,
            asked,
            mumu::asking_for_install(machine, asked, path),
        ),
    decreases path.len(),
{
    match parent_of(path) {
        None => {
            lemma_orderly_at_rest(machine, connected, reachable, asked);
        },
        Some(dir) => {
            lemma_parent_is_shorter(path);
            let now = mumu::asking_for_library(machine, asked, dir);
            lemma_library(machine, connected, reachable, asked, dir);
            lemma_mumu_install(machine, connected, reachable, now, dir);
            let after = mumu::asking_for_install(machine, now, dir);
            lemma_orderly_goes_on(machine, connected, reachable, asked, now, after);
        },
    }
}

proof fn lemma_ldplayer_install(
    machine: Machine,
    connected: Seq<Seq<char>>,
    reachable: spec_fn(Seq<char>) -> bool,
    asked: Seq<Asked>,
    path: Seq<char>,
)
    ensures
        orderly(
            machine,
            connected,
            reachable,
            asked,
            ldplayer::asking_for_install(machine, asked, path),
        ),
    decreases path.len(),
{
    match parent_of(path) {
        None => {
            lemma_orderly_at_rest(machine, connected, reachable, asked);
        },
        Some(dir) => {
            lemma_parent_is_shorter(path);
            let console = joined(dir, "dnconsole.exe"@);
            let library = joined(dir, "ldopengl64.dll"@);
            let first = having_asked(asked, Asked::Exists(console));
            let second = having_asked(first, Asked::Exists(library));
            lemma_file(machine, connected, reachable, asked, console);
            lemma_file(machine, connected, reachable, first, library);
            lemma_orderly_goes_on(machine, connected, reachable, asked, first, second);
            let now = if path_exists(machine, console) {
                second
            } else {
                first
            };
            lemma_ldplayer_install(machine, connected, reachable, now, dir);
            let after = ldplayer::asking_for_install(machine, now, dir);
            lemma_orderly_goes_on(machine, connected, reachable, asked, now, after);
        },
    }
}

proof fn lemma_mumu_among(
    machine: Machine,
    connected: Seq<Seq<char>>,
    reachable: spec_fn(Seq<char>) -> bool,
    asked: Seq<Asked>,
    processes: Seq<ProcessInfo>,
    name: Option<Seq<char>>,
)
    ensures
        orderly(
            machine,
            connected,
            reachable,
            asked,
            mumu::asking_among(machine, asked, processes, name),
        ),
    decreases processes.len(),
{
    if processes.len() == 0 {
        lemma_orderly_at_rest(machine, connected, reachable, asked);
    } else {
        let rest = processes.drop_first();
        match processes[0].executable_path {
            Some(path) => if mumu::knows_install(processes[0], name) {
                let now = mumu::asking_for_install(machine, asked, path@);
                lemma_mumu_install(machine, connected, reachable, asked, path@);
                lemma_mumu_among(machine, connected, reachable, now, rest, name);
                let after = mumu::asking_among(machine, now, rest, name);
                lemma_orderly_goes_on(machine, connected, reachable, asked, now, after);
            } else {
                lemma_mumu_among(machine, connected, reachable, asked, rest, name);
            },
            None => {
                lemma_mumu_among(machine, connected, reachable, asked, rest, name);
            },
        }
    }
}

proof fn lemma_mumu_install_for(
    machine: Machine,
    connected: Seq<Seq<char>>,
    reachable: spec_fn(Seq<char>) -> bool,
    asked: Seq<Asked>,
    process: ProcessInfo,
    processes: Seq<ProcessInfo>,
)
    ensures
        orderly(
            machine,
            connected,
            reachable,
            asked,
            mumu::asking_install_for(machine, asked, process, processes),
        ),
{
    let name = mumu::instance_name(process);
    match process.executable_path {
        Some(path) => {
            let now = mumu::asking_for_install(machine, asked, path@);
            lemma_mumu_install(machine, connected, reachable, asked, path@);
            lemma_mumu_among(machine, connected, reachable, now, processes, name);
            let after = mumu::asking_among(machine, now, processes, name);
            lemma_orderly_goes_on(machine, connected, reachable, asked, now, after);
        },
        None => {
            lemma_mumu_among(machine, connected, reachable, asked, processes, name);
        },
    }
}

proof fn lemma_ldplayer_among(
    machine: Machine,
    connected: Seq<Seq<char>>,
    reachable: spec_fn(Seq<char>) -> bool,
    asked: Seq<Asked>,
    processes: Seq<ProcessInfo>,
)
    ensures
        orderly(
            machine,
            connected,
            reachable,
            asked,
            ldplayer::asking_among(machine, asked, processes),
        ),
    decreases processes.len(),
{
    if processes.len() == 0 {
        lemma_orderly_at_rest(machine, connected, reachable, asked);
    } else {
        let rest = processes.drop_first();
        match processes[0].executable_path {
            Some(path) => if ldplayer::knows_install(processes[0]) {
                let now = ldplayer::asking_for_install(machine, asked, path@);
                lemma_ldplayer_install(machine, connected, reachable, asked, path@);
                lemma_ldplayer_among(machine, connected, reachable, now, rest);
                let after = ldplayer::asking_among(machine, now, rest);
                lemma_orderly_goes_on(machine, connected, reachable, asked, now, after);
            } else {
                lemma_ldplayer_among(machine, connected, reachable, asked, rest);
            },
            None => {
                lemma_ldplayer_among(machine, connected, reachable, asked, rest);
            },
        }
    }
}

proof fn lemma_ldplayer_install_for(
    machine: Machine,
    connected: Seq<Seq<char>>,
    reachable: spec_fn(Seq<char>) -> bool,
    asked: Seq<Asked>,
    process: ProcessInfo,
    processes: Seq<ProcessInfo>,
)
    ensures
        orderly(
            machine,
            connected,
            reachable,
            asked,
            ldplayer::asking_install_for(machine, asked, process, processes),
        ),
{
    match process.executable_path {
        Some(path) => {
            let now = ldplayer::asking_for_install(machine, asked, path@);
            lemma_ldplayer_install(machine, connected, reachable, asked, path@);
            lemma_ldplayer_among(machine, connected, reachable, now, processes);
            let after = ldplayer::asking_among(machine, now, processes);
            lemma_orderly_goes_on(machine, connected, reachable, asked, now, after);
        },
        None => {
            lemma_ldplayer_among(machine, connected, reachable, asked, processes);
        },
    }
}

proof fn lemma_places(
    machine: Machine,
    connected: Seq<Seq<char>>,
    reachable: spec_fn(Seq<char>) -> bool,
    asked: Seq<Asked>,
    places: Seq<Seq<char>>,
)
    ensures
        orderly(
            machine,
            connected,
            reachable,
            asked,
            mumu::asking_places(machine, asked, places),
        ),
    decreases places.len(),
{
    if places.len() == 0 {
        lemma_orderly_at_rest(machine, connected, reachable, asked);
    } else {
        let rest = places.drop_first();
        let now = having_asked(asked, Asked::Exists(places[0]));
        lemma_file(machine, connected, reachable, asked, places[0]);
        lemma_places(machine, connected, reachable, now, rest);
        let after = mumu::asking_places(machine, now, rest);
        lemma_orderly_goes_on(machine, connected, reachable, asked, now, after);
    }
}

proof fn lemma_mumu_tools(
    machine: Machine,
    connected: Seq<Seq<char>>,
    reachable: spec_fn(Seq<char>) -> bool,
    asked: Seq<Asked>,
    processes: Seq<ProcessInfo>,
    n: int,
)
    ensures
        orderly(
            machine,
            connected,
            reachable,
            asked,
            mumu::asking_for_tools(machine, asked, processes, n),
        ),
    decreases n,
{
    if n <= 0 {
        lemma_orderly_at_rest(machine, connected, reachable, asked);
    } else {
        let process = processes[n - 1];
        let before = mumu::asking_for_tools(machine, asked, processes, n - 1);
        lemma_mumu_tools(machine, connected, reachable, asked, processes, n - 1);
        if mumu::is_discovery_name(process.name@) {
            let now = mumu::asking_install_for(machine, before, process, processes);
            lemma_mumu_install_for(machine, connected, reachable, before, process, processes);
            lemma_orderly_goes_on(machine, connected, reachable, asked, before, now);
            if let Some(install) = mumu::install_for(machine, process, processes) {
                let places = mumu::manager_places(install, process);
                lemma_places(machine, connected, reachable, now, places);
                let after = mumu::asking_places(machine, now, places);
                lemma_orderly_goes_on(machine, connected, reachable, asked, now, after);
            }
        }
    }
}

proof fn lemma_ldplayer_tools(
    machine: Machine,
    connected: Seq<Seq<char>>,
    reachable: spec_fn(Seq<char>) -> bool,
    asked: Seq<Asked>,
    processes: Seq<ProcessInfo>,
    n: int,
)
    ensures
        orderly(
            machine,
            connected,
            reachable,
            asked,
            ldplayer::asking_for_tools(machine, asked, processes, n),
        ),
    decreases n,
{
    if n <= 0 {
        lemma_orderly_at_rest(machine, connected, reachable, asked);
    } else {
        let process = processes[n - 1];
        let before = ldplayer::asking_for_tools(machine, asked, processes, n - 1);
        lemma_ldplayer_tools(machine, connected, reachable, asked, processes, n - 1);
        if ldplayer::is_discovery_name(process.name@) {
            let now = ldplayer::asking_install_for(machine, before, process, processes);
            lemma_ldplayer_install_for(machine, connected, reachable, before, process, processes);
            lemma_orderly_goes_on(machine, connected, reachable, asked, before, now);
        }
    }
}

proof fn lemma_infos(
    machine: Machine,
    connected: Seq<Seq<char>>,
    reachable: spec_fn(Seq<char>) -> bool,
    asked: Seq<Asked>,
    infos: Seq<InfoView>,
)
    requires
        forall|k: int|
            0 <= k < infos.len() ==> reachable(
                address((#[trigger] infos[k]).host, infos[k].port),
            ),
    ensures
        orderly(
            machine,
            connected,
            reachable,
            asked,
            mumu::asking_infos(machine, asked, infos, connected),
        ),
    decreases infos.len(),
{
    if infos.len() == 0 {
        lemma_orderly_at_rest(machine, connected, reachable, asked);
    } else {
        let front = infos.drop_last();
        let info = infos.last();
        assert forall|k: int| 0 <= k < front.len() implies reachable(
            address((#[trigger] front[k]).host, front[k].port),
        ) by {
            assert(front[k] == infos[k]);
        }
        assert(infos[infos.len() - 1] == info);
        let before = mumu::asking_infos(machine, asked, front, connected);
        lemma_infos(machine, connected, reachable, asked, front);
        let now = asking_for_device(machine, before, info.host, info.port, connected);
        law_devices_are_connected_to_first(
            machine,
            connected,
            reachable,
            before,
            info.host,
            info.port,
        );
        lemma_orderly_goes_on(machine, connected, reachable, asked, before, now);
        if let Some(serial) = device_at(machine, info.host, info.port, connected) {
            let after = asking_for_game(machine, now, serial);
            lemma_game(machine, connected, reachable, now, serial);
            lemma_orderly_goes_on(machine, connected, reachable, asked, now, after);
        }
    }
}

proof fn lemma_managers(
    machine: Machine,
    connected: Seq<Seq<char>>,
    reachable: spec_fn(Seq<char>) -> bool,
    asked: Seq<Asked>,
    installs: Seq<(Seq<char>, Seq<char>)>,
)
    requires
        forall|i: int, serial: Seq<char>|
            0 <= i < installs.len() && #[trigger] mumu::tells_of(machine, installs[i].1, serial)
                ==> reachable(serial),
    ensures
        orderly(
            machine,
            connected,
            reachable,
            asked,
            mumu::asking_managers(machine, asked, installs, connected),
        ),
    decreases installs.len(),
{
    if installs.len() == 0 {
        lemma_orderly_at_rest(machine, connected, reachable, asked);
    } else {
        let front = installs.drop_last();
        let manager = installs.last().1;
        assert forall|i: int, serial: Seq<char>|
            0 <= i < front.len() && #[trigger] mumu::tells_of(
                machine,
                front[i].1,
                serial,
            ) implies reachable(serial) by {
            assert(mumu::tells_of(machine, installs[i].1, serial));
        }
        let before = mumu::asking_managers(machine, asked, front, connected);
        lemma_managers(machine, connected, reachable, asked, front);
        let question = Asked::MuMuInfo(manager);
        let now = having_asked(before, question);
        lemma_one_more(machine, connected, reachable, before, question);
        lemma_orderly_goes_on(machine, connected, reachable, asked, before, now);
        if let Some(output) = machine(question) {
            let infos = mumu::infos_of_output(output);
            assert forall|k: int| 0 <= k < infos.len() implies reachable(
                address((#[trigger] infos[k]).host, infos[k].port),
            ) by {
                let serial = address(infos[k].host, infos[k].port);
                assert(mumu::is_told(infos, serial));
                assert(mumu::tells_of(machine, installs[installs.len() - 1].1, serial));
            }
            lemma_infos(machine, connected, reachable, now, infos);
            let after = mumu::asking_infos(machine, now, infos, connected);
            lemma_orderly_goes_on(machine, connected, reachable, asked, now, after);
        }
    }
}

proof fn lemma_mumu_headless(
    machine: Machine,
    connected: Seq<Seq<char>>,
    reachable: spec_fn(Seq<char>) -> bool,
    asked: Seq<Asked>,
    around: Surroundings,
    n: int,
)
    requires
        connected == views(around.connected@),
        n <= around.processes@.len(),
        forall|p: int, serial: Seq<char>|
            0 <= p < around.processes@.len() && #[trigger] mumu::listens_at(
                machine,
                around,
                around.processes@[p],
                serial,
            ) ==> reachable(serial),
    ensures
        orderly(
            machine,
            connected,
            reachable,
            asked,
            mumu::asking_all_headless(machine, asked, around, n),
        ),
    decreases n,
{
    if n <= 0 {
        lemma_orderly_at_rest(machine, connected, reachable, asked);
    } else {
        let processes = around.processes@;
        let process = processes[n - 1];
        let before = mumu::asking_all_headless(machine, asked, around, n - 1);
        lemma_mumu_headless(machine, connected, reachable, asked, around, n - 1);
        if same_but_case(process.name@, "MuMuVMMHeadless.exe"@) && process.executable_path is Some {
            let now = mumu::asking_install_for(machine, before, process, processes);
            lemma_mumu_install_for(machine, connected, reachable, before, process, processes);
            lemma_orderly_goes_on(machine, connected, reachable, asked, before, now);
            if let Some(install) = mumu::install_for(machine, process, processes) {
                let ports = related_ports(process, Some(install), processes, around.listeners@);
                assert forall|k: int| 0 <= k < ports.len() implies reachable(
                    address("127.0.0.1"@, #[trigger] ports[k]),
                ) by {
                    let serial = address("127.0.0.1"@, ports[k]);
                    assert(is_local_address(ports, serial));
                    assert(mumu::listens_at(machine, around, processes[n - 1], serial));
                }
                law_ports_are_connected_to_last(machine, connected, reachable, now, ports);
                let after = asking_on_ports(machine, now, ports, connected);
                lemma_orderly_goes_on(machine, connected, reachable, asked, now, after);
            }
        }
    }
}

proof fn lemma_instance(
    machine: Machine,
    connected: Seq<Seq<char>>,
    reachable: spec_fn(Seq<char>) -> bool,
    asked: Seq<Asked>,
    index: u32,
    ports: Seq<u16>,
)
    requires
        ports_reachable(reachable, ports),
    ensures
        orderly(
            machine,
            connected,
            reachable,
            asked,
            ldplayer::asking_for_instance(machine, asked, index, ports, connected),
        ),
{
    let usual = console_serial(index);
    if connected.contains(usual) {
        let now = asking_for_game(machine, asked, usual);
        lemma_game(machine, connected, reachable, asked, usual);
        law_ports_are_connected_to_last(machine, connected, reachable, now, ports);
        let after = asking_on_ports(machine, now, ports, connected);
        lemma_orderly_goes_on(machine, connected, reachable, asked, now, after);
    } else {
        law_ports_are_connected_to_last(machine, connected, reachable, asked, ports);
    }
}

proof fn lemma_instances(
    machine: Machine,
    connected: Seq<Seq<char>>,
    reachable: spec_fn(Seq<char>) -> bool,
    asked: Seq<Asked>,
    instances: Seq<ldplayer::InstanceView>,
    listeners: Seq<TcpListener>,
)
    requires
        forall|serial: Seq<char>| #[trigger]
            ldplayer::is_listed(instances, listeners, serial) ==> reachable(serial),
    ensures
        orderly(
            machine,
            connected,
            reachable,
            asked,
            ldplayer::asking_instances(machine, asked, instances, listeners, connected),
        ),
    decreases instances.len(),
{
    if instances.len() == 0 {
        lemma_orderly_at_rest(machine, connected, reachable, asked);
    } else {
        let front = instances.drop_last();
        let instance = instances.last();
        assert forall|serial: Seq<char>| #[trigger]
            ldplayer::is_listed(front, listeners, serial) implies reachable(serial) by {
            let k = choose|k: int|
                0 <= k < front.len() && (#[trigger] front[k]).player_pid != 0 && front[k].vbox_pid
                    != 0 && is_local_address(
                    ldplayer::instance_ports(front[k], listeners),
                    serial,
                );
            assert(instances[k] == front[k]);
            assert(ldplayer::is_listed(instances, listeners, serial));
        }
        let before = ldplayer::asking_instances(machine, asked, front, listeners, connected);
        lemma_instances(machine, connected, reachable, asked, front, listeners);
        if instance.player_pid != 0 && instance.vbox_pid != 0 {
            let ports = ldplayer::instance_ports(instance, listeners);
            assert forall|k: int| 0 <= k < ports.len() implies reachable(
                address("127.0.0.1"@, #[trigger] ports[k]),
            ) by {
                let serial = address("127.0.0.1"@, ports[k]);
                assert(is_local_address(ports, serial));
                assert(instances[instances.len() - 1] == instance);
                assert(ldplayer::is_listed(instances, listeners, serial));
            }
            lemma_instance(machine, connected, reachable, before, instance.index, ports);
            let after = ldplayer::asking_for_instance(
                machine,
                before,
                instance.index,
                ports,
                connected,
            );
            lemma_orderly_goes_on(machine, connected, reachable, asked, before, after);
        }
    }
}

proof fn lemma_consoles(
    machine: Machine,
    connected: Seq<Seq<char>>,
    reachable: spec_fn(Seq<char>) -> bool,
    asked: Seq<Asked>,
    installs: Seq<Seq<char>>,
    listeners: Seq<TcpListener>,
)
    requires
        forall|i: int, serial: Seq<char>|
            0 <= i < installs.len() && #[trigger] ldplayer::lists_address(
                machine,
                installs[i],
                listeners,
                serial,
            ) ==> reachable(serial),
    ensures
        orderly(
            machine,
            connected,
            reachable,
            asked,
            ldplayer::asking_consoles(machine, asked, installs, listeners, connected),
        ),
    decreases installs.len(),
{
    if installs.len() == 0 {
        lemma_orderly_at_rest(machine, connected, reachable, asked);
    } else {
        let front = installs.drop_last();
        let install = installs.last();
        assert forall|i: int, serial: Seq<char>|
            0 <= i < front.len() && #[trigger] ldplayer::lists_address(
                machine,
                front[i],
                listeners,
                serial,
            ) implies reachable(serial) by {
            assert(ldplayer::lists_address(machine, installs[i], listeners, serial));
        }
        let before = ldplayer::asking_consoles(machine, asked, front, listeners, connected);
        lemma_consoles(machine, connected, reachable, asked, front, listeners);
        let question = Asked::InstanceList(joined(install, "dnconsole.exe"@));
        let now = ldplayer::asking_console(before, install);
        lemma_one_more(machine, connected, reachable, before, question);
        lemma_orderly_goes_on(machine, connected, reachable, asked, before, now);
        if let Some(lines) = ldplayer::console_lines(machine, install) {
            let instances = ldplayer::instances_on(lines);
            assert forall|serial: Seq<char>| #[trigger]
                ldplayer::is_listed(instances, listeners, serial) implies reachable(serial) by {
                assert(ldplayer::lists_address(
                    machine,
                    installs[installs.len() - 1],
                    listeners,
                    serial,
                ));
            }
            lemma_instances(machine, connected, reachable, now, instances, listeners);
            let after = ldplayer::asking_instances(machine, now, instances, listeners, connected);
            lemma_orderly_goes_on(machine, connected, reachable, asked, now, after);
        }
    }
}

proof fn lemma_ldplayer_headless(
    machine: Machine,
    connected: Seq<Seq<char>>,
    reachable: spec_fn(Seq<char>) -> bool,
    asked: Seq<Asked>,
    around: Surroundings,
    n: int,
)
    requires
        connected == views(around.connected@),
        n <= around.processes@.len(),
        forall|p: int, serial: Seq<char>|
            0 <= p < around.processes@.len() && #[trigger] ldplayer::listens_at(
                machine,
                around,
                around.processes@[p],
                serial,
            ) ==> reachable(serial),
    ensures
        orderly(
            machine,
            connected,
            reachable,
            asked,
            ldplayer::asking_all_headless(machine, asked, around, n),
        ),
    decreases n,
{
    if n <= 0 {
        lemma_orderly_at_rest(machine, connected, reachable, asked);
    } else {
        let processes = around.processes@;
        let process = processes[n - 1];
        let before = ldplayer::asking_all_headless(machine, asked, around, n - 1);
        lemma_ldplayer_headless(machine, connected, reachable, asked, around, n - 1);
        if same_but_case(process.name@, "Ld9BoxHeadless.exe"@) && process.executable_path is Some {
            let now = ldplayer::asking_install_for(machine, before, process, processes);
            lemma_ldplayer_install_for(machine, connected, reachable, before, process, processes);
            lemma_orderly_goes_on(machine, connected, reachable, asked, before, now);
            if let Some(install) = ldplayer::install_for(machine, process, processes) {
                let question = Asked::InstanceList(joined(install, "dnconsole.exe"@));
                let told = ldplayer::asking_console(now, install);
                lemma_one_more(machine, connected, reachable, now, question);
                lemma_orderly_goes_on(machine, connected, reachable, asked, now, told);
                if let Some(lines) = ldplayer::console_lines(machine, install) {
                    if let Some(index) = ldplayer::index_for_pid(lines, process.process_id) {
                        let ports = ldplayer::headless_ports(
                            process,
                            install,
                            index as u32,
                            around,
                        );
                        assert forall|k: int| 0 <= k < ports.len() implies reachable(
                            address("127.0.0.1"@, #[trigger] ports[k]),
                        ) by {
                            let serial = address("127.0.0.1"@, ports[k]);
                            assert(is_local_address(ports, serial));
                            assert(ldplayer::listens_at(
                                machine,
                                around,
                                processes[n - 1],
                                serial,
                            ));
                        }
                        lemma_instance(machine, connected, reachable, told, index as u32, ports);
                        let after = ldplayer::asking_for_instance(
                            machine,
                            told,
                            index as u32,
                            ports,
                            connected,
                        );
                        lemma_orderly_goes_on(machine, connected, reachable, asked, told, after);
                    }
                }
            }
        }
    }
}

/// The address belongs to an emulator.
pub open spec fn is_emulator_address(
    machine: Machine,
    around: Surroundings,
    serial: Seq<char>,
) -> bool {
    mumu::is_instance_address(machine, around, serial) || ldplayer::is_instance_address(
        machine,
        around,
        serial,
    )
}

/// The addresses of emulators on a machine.
pub open spec fn emulator_addresses(
    machine: Machine,
    around: Surroundings,
) -> spec_fn(Seq<char>) -> bool {
    |serial: Seq<char>| is_emulator_address(machine, around, serial)
}

/// A search for MuMu instances asks nothing of a device before it is connected, and connects to
/// nothing but MuMu instances.
pub proof fn law_mumu_is_looked_for_in_order(
    machine: Machine,
    asked: Seq<Asked>,
    around: Surroundings,
)
    ensures
        orderly(
            machine,
            views(around.connected@),
            |serial: Seq<char>| mumu::is_instance_address(machine, around, serial),
            asked,
            mumu::asking_for_mumu(machine, asked, around),
        ),
{
    let connected = views(around.connected@);
    let reachable = |serial: Seq<char>| mumu::is_instance_address(machine, around, serial);
    let processes = around.processes@;
    let n = processes.len() as int;
    let installs = mumu::tools(machine, processes, n);
    let found = mumu::asking_for_tools(machine, asked, processes, n);
    let told = mumu::asking_managers(machine, found, installs, connected);
    lemma_mumu_tools(machine, connected, reachable, asked, processes, n);
    lemma_managers(machine, connected, reachable, found, installs);
    lemma_orderly_goes_on(machine, connected, reachable, asked, found, told);
    lemma_mumu_headless(machine, connected, reachable, told, around, n);
    let after = mumu::asking_all_headless(machine, told, around, n);
    lemma_orderly_goes_on(machine, connected, reachable, asked, told, after);
}

/// A search for LDPlayer instances asks nothing of a device before it is connected, and connects to
/// nothing but LDPlayer instances.
pub proof fn law_ldplayer_is_looked_for_in_order(
    machine: Machine,
    asked: Seq<Asked>,
    around: Surroundings,
)
    ensures
        orderly(
            machine,
            views(around.connected@),
            |serial: Seq<char>| ldplayer::is_instance_address(machine, around, serial),
            asked,
            ldplayer::asking_for_ldplayer(machine, asked, around),
        ),
{
    let connected = views(around.connected@);
    let reachable = |serial: Seq<char>| ldplayer::is_instance_address(machine, around, serial);
    let processes = around.processes@;
    let n = processes.len() as int;
    let installs = ldplayer::tools(machine, processes, n);
    let found = ldplayer::asking_for_tools(machine, asked, processes, n);
    let told = ldplayer::asking_consoles(
        machine,
        found,
        installs,
        around.listeners@,
        connected,
    );
    lemma_ldplayer_tools(machine, connected, reachable, asked, processes, n);
    lemma_consoles(machine, connected, reachable, found, installs, around.listeners@);
    lemma_orderly_goes_on(machine, connected, reachable, asked, found, told);
    lemma_ldplayer_headless(machine, connected, reachable, told, around, n);
    let after = ldplayer::asking_all_headless(machine, told, around, n);
    lemma_orderly_goes_on(machine, connected, reachable, asked, told, after);
}

proof fn lemma_reaching_more(
    machine: Machine,
    connected: Seq<Seq<char>>,
    less: spec_fn(Seq<char>) -> bool,
    more: spec_fn(Seq<char>) -> bool,
    before: Seq<Asked>,
    after: Seq<Asked>,
)
    requires
        orderly(machine, connected, less, before, after),
        forall|serial: Seq<char>| #[trigger] less(serial) ==> more(serial),
    ensures
        orderly(machine, connected, more, before, after),
{
    assert forall|i: int| before.len() <= i < after.len() implies may_be_asked(
        machine,
        connected,
        more,
        after.take(i),
        #[trigger] after[i],
    ) by {
        assert(may_be_asked(machine, connected, less, after.take(i), after[i]));
    }
}

/// A search asks nothing of a device before it is connected, and connects to nothing but emulators
/// that are not connected.
pub proof fn law_only_emulators_are_connected_to(
    machine: Machine,
    asked: Seq<Asked>,
    around: Surroundings,
    windows: Seq<WindowInfo>,
)
    ensures
        orderly(
            machine,
            views(around.connected@),
            emulator_addresses(machine, around),
            asked,
            asking_for_targets(machine, asked, around, windows),
        ),
{
    let connected = views(around.connected@);
    let reachable = emulator_addresses(machine, around);
    let mumu_addresses = |serial: Seq<char>| mumu::is_instance_address(machine, around, serial);
    let ldplayer_addresses = |serial: Seq<char>|
        ldplayer::is_instance_address(machine, around, serial);
    let first = mumu::asking_for_mumu(machine, asked, around);
    law_mumu_is_looked_for_in_order(machine, asked, around);
    lemma_reaching_more(machine, connected, mumu_addresses, reachable, asked, first);
    let second = ldplayer::asking_for_ldplayer(machine, first, around);
    law_ldplayer_is_looked_for_in_order(machine, first, around);
    lemma_reaching_more(machine, connected, ldplayer_addresses, reachable, first, second);
    lemma_orderly_goes_on(machine, connected, reachable, asked, first, second);
    let search = windows::with_windows(
        ldplayer::with_ldplayer(machine, mumu::with_mumu(machine, nothing_found(), around), around),
        around.processes@,
        windows,
    );
    lemma_others(machine, connected, reachable, second, search, connected);
    let after = asking_others(machine, second, search, connected);
    lemma_orderly_goes_on(machine, connected, reachable, asked, second, after);
}

} // verus!
