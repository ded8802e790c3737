//! What the search for targets promises: each target captures the instance, the window or the device
//! that it was found as, and everything that can be captured is offered.
use crate::config::RulerConfig;
use crate::json::{distinct_keys, ItemView};
use crate::target_discovery::adb;
use crate::target_discovery::adb::{
    address, console_serial, device_at, device_with_game, generic_target, has_game, with_generic,
};
use crate::target_discovery::facts::{Asked, Machine};
use crate::target_discovery::ldplayer;
use crate::target_discovery::ldplayer::{
    console_lines, device_of, index_for_pid, instance_ports, instances_on, ldplayer_target,
    InstanceView,
};
use crate::target_discovery::mumu;
use crate::target_discovery::mumu::{
    headless_index, infos_of_output, mumu_target, InfoView, Surroundings,
};
use crate::target_discovery::process::{related_ports, ProcessInfo, TcpListener};
use crate::target_discovery::search::{
    all_found, all_fresh, found, is_fresh, nothing_found, without_repeats, Found, SearchView,
};
use crate::target_discovery::windows;
use crate::target_discovery::windows::{
    executable_of, is_shown_by, offered, window_target, WindowInfo, WindowView,
};
use crate::target_discovery::{
    or_default, stable_path_text, targets, LatencyClass, TargetCandidate, TargetKind,
};
use crate::text;
use crate::text::{decimal, same_but_case, trimmed, views};
use vstd::prelude::*;

verus! {

/// `after` holds what `before` holds, in its place, and behind it only targets of the given kind,
/// whose devices are theirs.
pub open spec fn adds(
    before: SearchView,
    after: SearchView,
    is_one: spec_fn(Found) -> bool,
) -> bool {
    &&& before.found.len() <= after.found.len()
    &&& forall|i: int| 0 <= i < before.found.len() ==> #[trigger] after.found[i] == before.found[i]
    &&& forall|i: int|
        before.found.len() <= i < after.found.len() ==> is_one(#[trigger] after.found[i])
    &&& forall|i: int|
        before.found.len() <= i < after.found.len() && (#[trigger] after.found[i]).device_id is Some
            ==> after.serials.contains(after.found[i].device_id->0)
    &&& forall|serial: Seq<char>|
        before.serials.contains(serial) ==> #[trigger] after.serials.contains(serial)
}

proof fn lemma_adds_nothing(search: SearchView, is_one: spec_fn(Found) -> bool)
    ensures
        adds(search, search, is_one),
{
}

proof fn lemma_adds_device(
    search: SearchView,
    is_one: spec_fn(Found) -> bool,
    target: Found,
    port: u16,
    serial: Seq<char>,
)
    requires
        is_one(target),
        target.device_id == Some(serial),
    ensures
        adds(search, search.with_device(target, port, serial), is_one),
{
    let after = search.with_device(target, port, serial);
    assert(after.serials[search.serials.len() as int] == serial);
    assert forall|s: Seq<char>| search.serials.contains(s) implies #[trigger] after.serials.contains(
        s,
    ) by {
        let k = choose|k: int| 0 <= k < search.serials.len() && search.serials[k] == s;
        assert(after.serials[k] == s);
    }
}

proof fn lemma_adds_window(search: SearchView, is_one: spec_fn(Found) -> bool, target: Found)
    requires
        is_one(target),
        target.device_id is None,
    ensures
        adds(search, search.with_target(target), is_one),
{
}

proof fn lemma_adds_more(
    first: SearchView,
    second: SearchView,
    third: SearchView,
    is_one: spec_fn(Found) -> bool,
)
    requires
        adds(first, second, is_one),
        adds(second, third, is_one),
    ensures
        adds(first, third, is_one),
{
    assert forall|i: int| 0 <= i < first.found.len() implies #[trigger] third.found[i]
        == first.found[i] by {
        assert(second.found[i] == first.found[i]);
        assert(third.found[i] == second.found[i]);
    }
    assert forall|i: int| first.found.len() <= i < third.found.len() implies is_one(
        #[trigger] third.found[i],
    ) && (third.found[i].device_id is Some ==> third.serials.contains(third.found[i].device_id->0)) by {
        if i < second.found.len() {
            assert(third.found[i] == second.found[i]);
            assert(is_one(second.found[i]));
            if second.found[i].device_id is Some {
                assert(second.serials.contains(second.found[i].device_id->0));
            }
        }
    }
}

proof fn lemma_adds_fewer(
    before: SearchView,
    after: SearchView,
    is_one: spec_fn(Found) -> bool,
    is_other: spec_fn(Found) -> bool,
)
    requires
        adds(before, after, is_one),
        forall|target: Found| #[trigger] is_one(target) ==> is_other(target),
    ensures
        adds(before, after, is_other),
{
    assert forall|i: int| before.found.len() <= i < after.found.len() implies is_other(
        #[trigger] after.found[i],
    ) by {
        assert(is_one(after.found[i]));
    }
}

/// The target captures the instance that a manager tells of in `info`: by the installation of that
/// manager and by the index in `info`, on the device at the address in `info`, where that device is
/// ready and has the game. It goes by the name in `info`, where there is one.
pub open spec fn captures_told_instance(
    machine: Machine,
    install: Seq<char>,
    info: InfoView,
    connected: Seq<Seq<char>>,
    target: Found,
) -> bool {
    &&& target.kind == TargetKind::MuMu
    &&& target.install_path == Some(install)
    &&& target.instance_index == Some(info.index)
    &&& target.device_id is Some
    &&& target.device_id == device_at(machine, info.host, info.port, connected)
    &&& has_game(machine, target.device_id->0)
    &&& target.window_handle is None
    &&& target.window_title is None
    &&& target.window_class is None
    &&& info.name is Some && trimmed(info.name->0).len() > 0 ==> target.name == trimmed(
        info.name->0,
    )
}

/// The target captures the `k`-th instance that the manager of an installation tells of.
pub open spec fn is_told_by(
    machine: Machine,
    install: (Seq<char>, Seq<char>),
    k: int,
    connected: Seq<Seq<char>>,
    target: Found,
) -> bool {
    &&& machine(Asked::MuMuInfo(install.1)) is Some
    &&& 0 <= k < infos_of_output(machine(Asked::MuMuInfo(install.1))->0).len()
    &&& captures_told_instance(
        machine,
        install.0,
        infos_of_output(machine(Asked::MuMuInfo(install.1))->0)[k],
        connected,
        target,
    )
}

/// The target captures an instance that one of the managers tells of.
pub open spec fn is_told(
    machine: Machine,
    installs: Seq<(Seq<char>, Seq<char>)>,
    connected: Seq<Seq<char>>,
    target: Found,
) -> bool {
    exists|i: int, k: int|
        0 <= i < installs.len() && #[trigger] is_told_by(
            machine,
            installs[i],
            k,
            connected,
            target,
        )
}

/// The target captures from the device that was found.
pub open spec fn is_reached(device: Option<(Seq<char>, u16)>, target: Found) -> bool {
    device is Some && target.device_id == Some((device->0).0)
}

/// The target captures the instance of a virtual machine that runs: by the installation of its
/// process and by the index that the processes tell, on a device with the game.
pub open spec fn captures_headless(
    machine: Machine,
    around: Surroundings,
    process: ProcessInfo,
    target: Found,
) -> bool {
    &&& same_but_case(process.name@, "MuMuVMMHeadless.exe"@)
    &&& target.kind == TargetKind::MuMu
    &&& target.install_path is Some
    &&& target.install_path == mumu::install_for(machine, process, around.processes@)
    &&& target.instance_index == Some(headless_index(process, around.processes@) as u32)
    &&& target.device_id is Some
    &&& target.window_handle is None
    &&& target.window_title is None
    &&& target.window_class is None
    &&& is_reached(
        device_with_game(
            machine,
            related_ports(process, target.install_path, around.processes@, around.listeners@),
            views(around.connected@),
        ),
        target,
    )
}

/// The target captures a MuMu instance: one that a manager tells of, or one whose virtual machine
/// runs.
pub open spec fn is_mumu_instance(machine: Machine, around: Surroundings, target: Found) -> bool {
    let installs = mumu::tools(machine, around.processes@, around.processes@.len() as int);
    ||| is_told(machine, installs, views(around.connected@), target)
    ||| exists|p: int|
        0 <= p < around.processes@.len() && captures_headless(
            machine,
            around,
            #[trigger] around.processes@[p],
            target,
        )
}

proof fn lemma_infos_are_added(
    machine: Machine,
    search: SearchView,
    install: Seq<char>,
    infos: Seq<InfoView>,
    connected: Seq<Seq<char>>,
    is_one: spec_fn(Found) -> bool,
)
    requires
        forall|k: int, target: Found|
            0 <= k < infos.len() && #[trigger] captures_told_instance(
                machine,
                install,
                infos[k],
                connected,
                target,
            ) ==> is_one(target),
    ensures
        adds(search, mumu::with_infos(machine, search, install, infos, connected), is_one),
    decreases infos.len(),
{
    if infos.len() > 0 {
        let fewer = infos.drop_last();
        let info = infos.last();
        assert forall|k: int, target: Found|
            0 <= k < fewer.len() && #[trigger] captures_told_instance(
                machine,
                install,
                fewer[k],
                connected,
                target,
            ) implies is_one(target) by {
            assert(captures_told_instance(machine, install, infos[k], connected, target));
        }
        lemma_infos_are_added(machine, search, install, fewer, connected, is_one);
        let before = mumu::with_infos(machine, search, install, fewer, connected);
        match device_at(machine, info.host, info.port, connected) {
            Some(serial) => if has_game(machine, serial) {
                let target = mumu_target(install, info.index, info.name, serial);
                assert(captures_told_instance(
                    machine,
                    install,
                    infos[infos.len() - 1],
                    connected,
                    target,
                ));
                lemma_adds_device(before, is_one, target, info.port, serial);
                lemma_adds_more(
                    search,
                    before,
                    before.with_device(target, info.port, serial),
                    is_one,
                );
            },
            None => {},
        }
    } else {
        lemma_adds_nothing(search, is_one);
    }
}

proof fn lemma_told_instances_are_added(
    machine: Machine,
    search: SearchView,
    installs: Seq<(Seq<char>, Seq<char>)>,
    connected: Seq<Seq<char>>,
    is_one: spec_fn(Found) -> bool,
)
    requires
        forall|target: Found|
            #[trigger] is_told(machine, installs, connected, target) ==> is_one(target),
    ensures
        adds(search, mumu::with_tools(machine, search, installs, connected), is_one),
    decreases installs.len(),
{
    if installs.len() > 0 {
        let fewer = installs.drop_last();
        let last = installs.last();
        assert forall|target: Found| #[trigger] is_told(
            machine,
            fewer,
            connected,
            target,
        ) implies is_one(target) by {
            let (i, k) = choose|i: int, k: int|
                0 <= i < fewer.len() && #[trigger] is_told_by(
                    machine,
                    fewer[i],
                    k,
                    connected,
                    target,
                );
            assert(is_told_by(machine, installs[i], k, connected, target));
            assert(is_told(machine, installs, connected, target));
        }
        lemma_told_instances_are_added(machine, search, fewer, connected, is_one);
        let before = mumu::with_tools(machine, search, fewer, connected);
        match machine(Asked::MuMuInfo(last.1)) {
            Some(output) => {
                let infos = infos_of_output(output);
                assert forall|k: int, target: Found|
                    0 <= k < infos.len() && #[trigger] captures_told_instance(
                        machine,
                        last.0,
                        infos[k],
                        connected,
                        target,
                    ) implies is_one(target) by {
                    assert(is_told_by(
                        machine,
                        installs[installs.len() - 1],
                        k,
                        connected,
                        target,
                    ));
                    assert(is_told(machine, installs, connected, target));
                }
                lemma_infos_are_added(machine, before, last.0, infos, connected, is_one);
                lemma_adds_more(
                    search,
                    before,
                    mumu::with_infos(machine, before, last.0, infos, connected),
                    is_one,
                );
            },
            None => {},
        }
    } else {
        lemma_adds_nothing(search, is_one);
    }
}

proof fn lemma_headless_are_added(
    machine: Machine,
    search: SearchView,
    around: Surroundings,
    n: int,
    is_one: spec_fn(Found) -> bool,
)
    requires
        n <= around.processes@.len(),
        forall|p: int, target: Found|
            0 <= p < around.processes@.len() && #[trigger] captures_headless(
                machine,
                around,
                around.processes@[p],
                target,
            ) ==> is_one(target),
    ensures
        adds(search, mumu::with_headless(machine, search, around, n), is_one),
    decreases n,
{
    if n > 0 {
        lemma_headless_are_added(machine, search, around, n - 1, is_one);
        let before = mumu::with_headless(machine, search, around, n - 1);
        let process = around.processes@[n - 1];
        match mumu::headless_target(machine, around, process) {
            Some((target, port, serial)) => {
                assert(captures_headless(machine, around, around.processes@[n - 1], target));
                lemma_adds_device(before, is_one, target, port, serial);
                lemma_adds_more(search, before, before.with_device(target, port, serial), is_one);
            },
            None => {},
        }
    } else {
        lemma_adds_nothing(search, is_one);
    }
}

/// Every MuMu target that the search adds captures an instance just as it was told of: with the
/// index that the manager, or the process of the virtual machine, tells for that instance, with the
/// path of that installation, and on the device at that instance's address. What was found before
/// stays in its place, and the device of each target is its own from then on.
pub proof fn law_mumu_targets_capture_what_was_told(
    machine: Machine,
    search: SearchView,
    around: Surroundings,
)
    ensures
        adds(
            search,
            mumu::with_mumu(machine, search, around),
            |target: Found| is_mumu_instance(machine, around, target),
        ),
{
    let is_one = |target: Found| is_mumu_instance(machine, around, target);
    let connected = views(around.connected@);
    let n = around.processes@.len() as int;
    let installs = mumu::tools(machine, around.processes@, n);
    let told = mumu::with_tools(machine, search, installs, connected);
    lemma_told_instances_are_added(machine, search, installs, connected, is_one);
    lemma_headless_are_added(machine, told, around, n, is_one);
    lemma_adds_more(search, told, mumu::with_headless(machine, told, around, n), is_one);
}

/// Two instances of one installation are two targets: they differ in the index to capture and in
/// the fingerprint they are remembered by, whatever they are called and wherever they are reached.
pub proof fn law_instances_of_one_installation_differ(
    install: Seq<char>,
    a: u32,
    b: u32,
    names: (Option<Seq<char>>, Option<Seq<char>>),
    serials: (Seq<char>, Seq<char>),
)
    requires
        a != b,
    ensures
        ({
            let first = mumu_target(install, a, names.0, serials.0);
            let second = mumu_target(install, b, names.1, serials.1);
            &&& first.instance_index == Some(a)
            &&& second.instance_index == Some(b)
            &&& first.install_path == second.install_path
            &&& first.fingerprint != second.fingerprint
        }),
        ({
            let first = ldplayer_target(install, a, names.0, serials.0);
            let second = ldplayer_target(install, b, names.1, serials.1);
            &&& first.instance_index == Some(a)
            &&& second.instance_index == Some(b)
            &&& first.install_path == second.install_path
            &&& first.fingerprint != second.fingerprint
        }),
{
    text::lemma_decimal_digits(a as nat);
    text::lemma_decimal_digits(b as nat);
    lemma_endings_differ(
        "mumu:"@ + stable_path_text(install) + seq![':'],
        decimal(a as nat),
        decimal(b as nat),
    );
    lemma_endings_differ(
        "ldplayer:"@ + stable_path_text(install) + seq![':'],
        decimal(a as nat),
        decimal(b as nat),
    );
}

proof fn lemma_endings_differ(start: Seq<char>, a: Seq<char>, b: Seq<char>)
    requires
        a != b,
    ensures
        start + a != start + b,
{
    if start + a == start + b {
        assert((start + a).skip(start.len() as int) =~= a);
        assert((start + b).skip(start.len() as int) =~= b);
    }
}

/// An instance is remembered the same however it was found and whatever it is called: the
/// fingerprint tells the installation and the index, and nothing else.
pub proof fn law_fingerprints_name_the_instance(
    install: Seq<char>,
    spelled: Seq<char>,
    index: u32,
    names: (Option<Seq<char>>, Option<Seq<char>>),
    serials: (Seq<char>, Seq<char>),
)
    requires
        stable_path_text(install) == stable_path_text(spelled),
    ensures
        mumu_target(install, index, names.0, serials.0).fingerprint == mumu_target(
            spelled,
            index,
            names.1,
            serials.1,
        ).fingerprint,
        ldplayer_target(install, index, names.0, serials.0).fingerprint == ldplayer_target(
            spelled,
            index,
            names.1,
            serials.1,
        ).fingerprint,
{
}

/// Some target among `found` behind the first `n` captures the instance in `info`.
pub open spec fn is_offered_instance(
    machine: Machine,
    install: Seq<char>,
    info: InfoView,
    connected: Seq<Seq<char>>,
    found: Seq<Found>,
) -> bool {
    exists|i: int|
        0 <= i < found.len() && captures_told_instance(
            machine,
            install,
            info,
            connected,
            #[trigger] found[i],
        )
}

proof fn lemma_stays_offered(
    machine: Machine,
    install: Seq<char>,
    info: InfoView,
    connected: Seq<Seq<char>>,
    before: SearchView,
    after: SearchView,
    is_one: spec_fn(Found) -> bool,
)
    requires
        adds(before, after, is_one),
        is_offered_instance(machine, install, info, connected, before.found),
    ensures
        is_offered_instance(machine, install, info, connected, after.found),
{
    let i = choose|i: int|
        0 <= i < before.found.len() && captures_told_instance(
            machine,
            install,
            info,
            connected,
            #[trigger] before.found[i],
        );
    assert(after.found[i] == before.found[i]);
}

proof fn lemma_infos_are_offered(
    machine: Machine,
    search: SearchView,
    install: Seq<char>,
    infos: Seq<InfoView>,
    connected: Seq<Seq<char>>,
    k: int,
)
    requires
        0 <= k < infos.len(),
        device_at(machine, infos[k].host, infos[k].port, connected) is Some,
        has_game(machine, device_at(machine, infos[k].host, infos[k].port, connected)->0),
    ensures
        is_offered_instance(
            machine,
            install,
            infos[k],
            connected,
            mumu::with_infos(machine, search, install, infos, connected).found,
        ),
    decreases infos.len(),
{
    let fewer = infos.drop_last();
    let before = mumu::with_infos(machine, search, install, fewer, connected);
    let after = mumu::with_infos(machine, search, install, infos, connected);
    let serial = device_at(machine, infos[k].host, infos[k].port, connected)->0;
    if k == infos.len() - 1 {
        assert(after.found[before.found.len() as int] == mumu_target(
            install,
            infos[k].index,
            infos[k].name,
            serial,
        ));
    } else {
        lemma_infos_are_offered(machine, search, install, fewer, connected, k);
        let i = choose|i: int|
            0 <= i < before.found.len() && captures_told_instance(
                machine,
                install,
                fewer[k],
                connected,
                #[trigger] before.found[i],
            );
        assert(after.found[i] == before.found[i]);
    }
}

proof fn lemma_told_instances_are_offered(
    machine: Machine,
    search: SearchView,
    installs: Seq<(Seq<char>, Seq<char>)>,
    connected: Seq<Seq<char>>,
    i: int,
    k: int,
)
    requires
        0 <= i < installs.len(),
        machine(Asked::MuMuInfo(installs[i].1)) is Some,
        ({
            let infos = infos_of_output(machine(Asked::MuMuInfo(installs[i].1))->0);
            &&& 0 <= k < infos.len()
            &&& device_at(machine, infos[k].host, infos[k].port, connected) is Some
            &&& has_game(machine, device_at(machine, infos[k].host, infos[k].port, connected)->0)
        }),
    ensures
        is_offered_instance(
            machine,
            installs[i].0,
            infos_of_output(machine(Asked::MuMuInfo(installs[i].1))->0)[k],
            connected,
            mumu::with_tools(machine, search, installs, connected).found,
        ),
    decreases installs.len(),
{
    let fewer = installs.drop_last();
    let before = mumu::with_tools(machine, search, fewer, connected);
    let infos = infos_of_output(machine(Asked::MuMuInfo(installs[i].1))->0);
    let last = installs.last();
    if i == installs.len() - 1 {
        lemma_infos_are_offered(machine, before, last.0, infos, connected, k);
    } else {
        lemma_told_instances_are_offered(machine, search, fewer, connected, i, k);
        let any = |target: Found| true;
        if machine(Asked::MuMuInfo(last.1)) is Some {
            let more = infos_of_output(machine(Asked::MuMuInfo(last.1))->0);
            lemma_infos_are_added(machine, before, last.0, more, connected, any);
            lemma_stays_offered(
                machine,
                installs[i].0,
                infos[k],
                connected,
                before,
                mumu::with_infos(machine, before, last.0, more, connected),
                any,
            );
        }
    }
}

/// Every instance that a manager tells of is offered with its own index, where its device is ready
/// and has the game.
pub proof fn law_told_instances_are_offered(
    machine: Machine,
    search: SearchView,
    around: Surroundings,
    i: int,
    k: int,
)
    requires
        ({
            let installs = mumu::tools(machine, around.processes@, around.processes@.len() as int);
            let infos = infos_of_output(machine(Asked::MuMuInfo(installs[i].1))->0);
            let connected = views(around.connected@);
            &&& 0 <= i < installs.len()
            &&& machine(Asked::MuMuInfo(installs[i].1)) is Some
            &&& 0 <= k < infos.len()
            &&& device_at(machine, infos[k].host, infos[k].port, connected) is Some
            &&& has_game(machine, device_at(machine, infos[k].host, infos[k].port, connected)->0)
        }),
    ensures
        ({
            let installs = mumu::tools(machine, around.processes@, around.processes@.len() as int);
            let infos = infos_of_output(machine(Asked::MuMuInfo(installs[i].1))->0);
            is_offered_instance(
                machine,
                installs[i].0,
                infos[k],
                views(around.connected@),
                mumu::with_mumu(machine, search, around).found,
            )
        }),
{
    let n = around.processes@.len() as int;
    let installs = mumu::tools(machine, around.processes@, n);
    let connected = views(around.connected@);
    let infos = infos_of_output(machine(Asked::MuMuInfo(installs[i].1))->0);
    let told = mumu::with_tools(machine, search, installs, connected);
    let any = |target: Found| true;
    lemma_told_instances_are_offered(machine, search, installs, connected, i, k);
    lemma_headless_are_added(machine, told, around, n, any);
    lemma_stays_offered(
        machine,
        installs[i].0,
        infos[k],
        connected,
        told,
        mumu::with_headless(machine, told, around, n),
        any,
    );
}

/// The target captures an instance that the console of an installation lists as running: by that
/// installation and by the index on its line, on the device of that instance. It goes by the name on
/// the line, where there is one.
pub open spec fn captures_listed_instance(
    machine: Machine,
    install: Seq<char>,
    instance: InstanceView,
    listeners: Seq<TcpListener>,
    connected: Seq<Seq<char>>,
    target: Found,
) -> bool {
    &&& instance.player_pid != 0
    &&& instance.vbox_pid != 0
    &&& target.kind == TargetKind::LDPlayer
    &&& target.install_path == Some(install)
    &&& target.instance_index == Some(instance.index)
    &&& target.device_id is Some
    &&& target.window_handle is None
    &&& target.window_title is None
    &&& target.window_class is None
    &&& trimmed(instance.name).len() > 0 ==> target.name == trimmed(instance.name)
    &&& is_reached(
        device_of(machine, instance.index, instance_ports(instance, listeners), connected),
        target,
    )
}

/// The target captures the `k`-th instance that the console of an installation lists.
pub open spec fn is_listed_by(
    machine: Machine,
    install: Seq<char>,
    k: int,
    listeners: Seq<TcpListener>,
    connected: Seq<Seq<char>>,
    target: Found,
) -> bool {
    &&& console_lines(machine, install) is Some
    &&& 0 <= k < instances_on(console_lines(machine, install)->0).len()
    &&& captures_listed_instance(
        machine,
        install,
        instances_on(console_lines(machine, install)->0)[k],
        listeners,
        connected,
        target,
    )
}

/// The target captures an instance that one of the consoles lists.
pub open spec fn is_listed(
    machine: Machine,
    installs: Seq<Seq<char>>,
    listeners: Seq<TcpListener>,
    connected: Seq<Seq<char>>,
    target: Found,
) -> bool {
    exists|i: int, k: int|
        0 <= i < installs.len() && #[trigger] is_listed_by(
            machine,
            installs[i],
            k,
            listeners,
            connected,
            target,
        )
}

/// The target captures the instance of a virtual machine that runs: by the installation of its
/// process and by the index on the line on which the console lists that process.
pub open spec fn captures_ldplayer_headless(
    machine: Machine,
    around: Surroundings,
    process: ProcessInfo,
    target: Found,
) -> bool {
    let install = ldplayer::install_for(machine, process, around.processes@);
    &&& same_but_case(process.name@, "Ld9BoxHeadless.exe"@)
    &&& target.kind == TargetKind::LDPlayer
    &&& install is Some
    &&& target.install_path == install
    &&& console_lines(machine, install->0) is Some
    &&& index_for_pid(console_lines(machine, install->0)->0, process.process_id) is Some
    &&& target.instance_index == Some(
        index_for_pid(console_lines(machine, install->0)->0, process.process_id)->0 as u32,
    )
    &&& target.device_id is Some
    &&& target.window_handle is None
    &&& target.window_title is None
    &&& target.window_class is None
    &&& is_reached(
        device_of(
            machine,
            target.instance_index->0,
            ldplayer::headless_ports(process, install->0, target.instance_index->0, around),
            views(around.connected@),
        ),
        target,
    )
}

/// The target captures an LDPlayer instance: one that a console lists, or one whose virtual machine
/// runs.
pub open spec fn is_ldplayer_instance(
    machine: Machine,
    around: Surroundings,
    target: Found,
) -> bool {
    let installs = ldplayer::tools(machine, around.processes@, around.processes@.len() as int);
    ||| is_listed(machine, installs, around.listeners@, views(around.connected@), target)
    ||| exists|p: int|
        0 <= p < around.processes@.len() && captures_ldplayer_headless(
            machine,
            around,
            #[trigger] around.processes@[p],
            target,
        )
}

proof fn lemma_instances_are_added(
    machine: Machine,
    search: SearchView,
    install: Seq<char>,
    instances: Seq<InstanceView>,
    listeners: Seq<TcpListener>,
    connected: Seq<Seq<char>>,
    is_one: spec_fn(Found) -> bool,
)
    requires
        forall|k: int, target: Found|
            0 <= k < instances.len() && #[trigger] captures_listed_instance(
                machine,
                install,
                instances[k],
                listeners,
                connected,
                target,
            ) ==> is_one(target),
    ensures
        adds(
            search,
            ldplayer::with_instances(machine, search, install, instances, listeners, connected),
            is_one,
        ),
    decreases instances.len(),
{
    if instances.len() > 0 {
        let fewer = instances.drop_last();
        let instance = instances.last();
        assert forall|k: int, target: Found|
            0 <= k < fewer.len() && #[trigger] captures_listed_instance(
                machine,
                install,
                fewer[k],
                listeners,
                connected,
                target,
            ) implies is_one(target) by {
            assert(captures_listed_instance(
                machine,
                install,
                instances[k],
                listeners,
                connected,
                target,
            ));
        }
        lemma_instances_are_added(machine, search, install, fewer, listeners, connected, is_one);
        let before = ldplayer::with_instances(
            machine,
            search,
            install,
            fewer,
            listeners,
            connected,
        );
        if instance.player_pid != 0 && instance.vbox_pid != 0 {
            match device_of(
                machine,
                instance.index,
                instance_ports(instance, listeners),
                connected,
            ) {
                Some((serial, port)) => {
                    let target = ldplayer_target(
                        install,
                        instance.index,
                        Some(instance.name),
                        serial,
                    );
                    assert(captures_listed_instance(
                        machine,
                        install,
                        instances[instances.len() - 1],
                        listeners,
                        connected,
                        target,
                    ));
                    lemma_adds_device(before, is_one, target, port, serial);
                    lemma_adds_more(
                        search,
                        before,
                        before.with_device(target, port, serial),
                        is_one,
                    );
                },
                None => {},
            }
        }
    } else {
        lemma_adds_nothing(search, is_one);
    }
}

proof fn lemma_listed_instances_are_added(
    machine: Machine,
    search: SearchView,
    installs: Seq<Seq<char>>,
    listeners: Seq<TcpListener>,
    connected: Seq<Seq<char>>,
    is_one: spec_fn(Found) -> bool,
)
    requires
        forall|target: Found|
            #[trigger] is_listed(machine, installs, listeners, connected, target) ==> is_one(
                target,
            ),
    ensures
        adds(
            search,
            ldplayer::with_tools(machine, search, installs, listeners, connected),
            is_one,
        ),
    decreases installs.len(),
{
    if installs.len() > 0 {
        let fewer = installs.drop_last();
        let last = installs.last();
        assert forall|target: Found| #[trigger] is_listed(
            machine,
            fewer,
            listeners,
            connected,
            target,
        ) implies is_one(target) by {
            let (i, k) = choose|i: int, k: int|
                0 <= i < fewer.len() && #[trigger] is_listed_by(
                    machine,
                    fewer[i],
                    k,
                    listeners,
                    connected,
                    target,
                );
            assert(is_listed_by(machine, installs[i], k, listeners, connected, target));
            assert(is_listed(machine, installs, listeners, connected, target));
        }
        lemma_listed_instances_are_added(machine, search, fewer, listeners, connected, is_one);
        let before = ldplayer::with_tools(machine, search, fewer, listeners, connected);
        match console_lines(machine, last) {
            Some(lines) => {
                let instances = instances_on(lines);
                assert forall|k: int, target: Found|
                    0 <= k < instances.len() && #[trigger] captures_listed_instance(
                        machine,
                        last,
                        instances[k],
                        listeners,
                        connected,
                        target,
                    ) implies is_one(target) by {
                    assert(is_listed_by(
                        machine,
                        installs[installs.len() - 1],
                        k,
                        listeners,
                        connected,
                        target,
                    ));
                    assert(is_listed(machine, installs, listeners, connected, target));
                }
                lemma_instances_are_added(
                    machine,
                    before,
                    last,
                    instances,
                    listeners,
                    connected,
                    is_one,
                );
                lemma_adds_more(
                    search,
                    before,
                    ldplayer::with_instances(
                        machine,
                        before,
                        last,
                        instances,
                        listeners,
                        connected,
                    ),
                    is_one,
                );
            },
            None => {},
        }
    } else {
        lemma_adds_nothing(search, is_one);
    }
}

proof fn lemma_ldplayer_headless_are_added(
    machine: Machine,
    search: SearchView,
    around: Surroundings,
    n: int,
    is_one: spec_fn(Found) -> bool,
)
    requires
        n <= around.processes@.len(),
        forall|p: int, target: Found|
            0 <= p < around.processes@.len() && #[trigger] captures_ldplayer_headless(
                machine,
                around,
                around.processes@[p],
                target,
            ) ==> is_one(target),
    ensures
        adds(search, ldplayer::with_headless(machine, search, around, n), is_one),
    decreases n,
{
    if n > 0 {
        lemma_ldplayer_headless_are_added(machine, search, around, n - 1, is_one);
        let before = ldplayer::with_headless(machine, search, around, n - 1);
        let process = around.processes@[n - 1];
        match ldplayer::headless_target(machine, around, process) {
            Some((target, port, serial)) => {
                assert(captures_ldplayer_headless(
                    machine,
                    around,
                    around.processes@[n - 1],
                    target,
                ));
                lemma_adds_device(before, is_one, target, port, serial);
                lemma_adds_more(search, before, before.with_device(target, port, serial), is_one);
            },
            None => {},
        }
    } else {
        lemma_adds_nothing(search, is_one);
    }
}

/// Every LDPlayer target that the search adds captures an instance just as it is listed: with the
/// index on the line of that instance, with the path of that installation, and on the device of that
/// instance. What was found before stays in its place, and the device of each target is its own.
pub proof fn law_ldplayer_targets_capture_what_is_listed(
    machine: Machine,
    search: SearchView,
    around: Surroundings,
)
    ensures
        adds(
            search,
            ldplayer::with_ldplayer(machine, search, around),
            |target: Found| is_ldplayer_instance(machine, around, target),
        ),
{
    let is_one = |target: Found| is_ldplayer_instance(machine, around, target);
    let connected = views(around.connected@);
    let listeners = around.listeners@;
    let n = around.processes@.len() as int;
    let installs = ldplayer::tools(machine, around.processes@, n);
    let listed = ldplayer::with_tools(machine, search, installs, listeners, connected);
    lemma_listed_instances_are_added(machine, search, installs, listeners, connected, is_one);
    lemma_ldplayer_headless_are_added(machine, listed, around, n, is_one);
    lemma_adds_more(search, listed, ldplayer::with_headless(machine, listed, around, n), is_one);
}

/// Some target captures the instance on a line.
pub open spec fn is_offered_line(
    machine: Machine,
    install: Seq<char>,
    instance: InstanceView,
    listeners: Seq<TcpListener>,
    connected: Seq<Seq<char>>,
    found: Seq<Found>,
) -> bool {
    exists|i: int|
        0 <= i < found.len() && captures_listed_instance(
            machine,
            install,
            instance,
            listeners,
            connected,
            #[trigger] found[i],
        )
}

proof fn lemma_instances_are_offered(
    machine: Machine,
    search: SearchView,
    install: Seq<char>,
    instances: Seq<InstanceView>,
    listeners: Seq<TcpListener>,
    connected: Seq<Seq<char>>,
    k: int,
)
    requires
        0 <= k < instances.len(),
        instances[k].player_pid != 0,
        instances[k].vbox_pid != 0,
        device_of(
            machine,
            instances[k].index,
            instance_ports(instances[k], listeners),
            connected,
        ) is Some,
    ensures
        is_offered_line(
            machine,
            install,
            instances[k],
            listeners,
            connected,
            ldplayer::with_instances(
                machine,
                search,
                install,
                instances,
                listeners,
                connected,
            ).found,
        ),
    decreases instances.len(),
{
    let fewer = instances.drop_last();
    let before = ldplayer::with_instances(machine, search, install, fewer, listeners, connected);
    let after = ldplayer::with_instances(
        machine,
        search,
        install,
        instances,
        listeners,
        connected,
    );
    if k == instances.len() - 1 {
        assert(captures_listed_instance(
            machine,
            install,
            instances[k],
            listeners,
            connected,
            after.found[before.found.len() as int],
        ));
    } else {
        lemma_instances_are_offered(
            machine,
            search,
            install,
            fewer,
            listeners,
            connected,
            k,
        );
        let i = choose|i: int|
            0 <= i < before.found.len() && captures_listed_instance(
                machine,
                install,
                fewer[k],
                listeners,
                connected,
                #[trigger] before.found[i],
            );
        assert(after.found[i] == before.found[i]);
    }
}

/// Every instance that a console lists as running is offered with its own index, where its device
/// has the game.
pub proof fn law_listed_instances_are_offered(
    machine: Machine,
    search: SearchView,
    installs: Seq<Seq<char>>,
    listeners: Seq<TcpListener>,
    connected: Seq<Seq<char>>,
    i: int,
    k: int,
)
    requires
        0 <= i < installs.len(),
        console_lines(machine, installs[i]) is Some,
        ({
            let instances = instances_on(console_lines(machine, installs[i])->0);
            &&& 0 <= k < instances.len()
            &&& instances[k].player_pid != 0
            &&& instances[k].vbox_pid != 0
            &&& device_of(
                machine,
                instances[k].index,
                instance_ports(instances[k], listeners),
                connected,
            ) is Some
        }),
    ensures
        is_offered_line(
            machine,
            installs[i],
            instances_on(console_lines(machine, installs[i])->0)[k],
            listeners,
            connected,
            ldplayer::with_tools(machine, search, installs, listeners, connected).found,
        ),
    decreases installs.len(),
{
    let fewer = installs.drop_last();
    let before = ldplayer::with_tools(machine, search, fewer, listeners, connected);
    let instances = instances_on(console_lines(machine, installs[i])->0);
    let last = installs.last();
    if i == installs.len() - 1 {
        lemma_instances_are_offered(
            machine,
            before,
            last,
            instances,
            listeners,
            connected,
            k,
        );
    } else {
        law_listed_instances_are_offered(
            machine,
            search,
            fewer,
            listeners,
            connected,
            i,
            k,
        );
        let any = |target: Found| true;
        if console_lines(machine, last) is Some {
            let more = instances_on(console_lines(machine, last)->0);
            lemma_instances_are_added(machine, before, last, more, listeners, connected, any);
            let after = ldplayer::with_instances(
                machine,
                before,
                last,
                more,
                listeners,
                connected,
            );
            let j = choose|j: int|
                0 <= j < before.found.len() && captures_listed_instance(
                    machine,
                    installs[i],
                    instances[k],
                    listeners,
                    connected,
                    #[trigger] before.found[j],
                );
            assert(after.found[j] == before.found[j]);
        }
    }
}

/// The target captures a window: by its handle, its title and its class.
pub open spec fn captures_window(window: WindowView, target: Found) -> bool {
    &&& target.kind == TargetKind::Windows
    &&& target.window_handle == Some(window.hwnd)
    &&& target.window_title == Some(window.title)
    &&& target.window_class == Some(window.class_name)
    &&& target.install_path is None
    &&& target.instance_index is None
    &&& target.device_id is None
}

/// The target captures a visible window with a title that a process of the game shows.
pub open spec fn is_game_window(
    processes: Seq<ProcessInfo>,
    windows: Seq<WindowInfo>,
    target: Found,
) -> bool {
    exists|p: int, w: int|
        #![trigger processes[p], windows[w]]
        0 <= p < processes.len() && 0 <= w < windows.len() && same_but_case(
            processes[p].name@,
            "Arknights.exe"@,
        ) && windows[w].is_visible && windows[w].process_id == processes[p].process_id && trimmed(
            windows[w].title@,
        ).len() > 0 && captures_window(windows[w]@, target)
}

proof fn lemma_placed_among(windows: Seq<WindowView>, window: WindowView)
    ensures
        forall|i: int|
            0 <= i < windows::placed(windows, window).len() ==> (#[trigger] windows::placed(
                windows,
                window,
            )[i] == window || windows.contains(windows::placed(windows, window)[i])),
    decreases windows.len(),
{
    if windows.len() > 0 && !windows::goes_first(windows.last(), window) {
        let fewer = windows.drop_last();
        lemma_placed_among(fewer, window);
        let before = windows::placed(fewer, window);
        let after = windows::placed(windows, window);
        assert forall|i: int| 0 <= i < after.len() implies (#[trigger] after[i] == window
            || windows.contains(after[i])) by {
            if i < before.len() {
                assert(after[i] == before[i]);
                if before[i] != window {
                    let k = choose|k: int| 0 <= k < fewer.len() && fewer[k] == before[i];
                    assert(windows[k] == before[i]);
                }
            } else {
                assert(windows[windows.len() - 1] == after[i]);
            }
        }
    } else {
        let after = windows::placed(windows, window);
        assert forall|i: int| 0 <= i < after.len() implies (#[trigger] after[i] == window
            || windows.contains(after[i])) by {
            if i < windows.len() {
                assert(windows[i] == after[i]);
            }
        }
    }
}

/// The window is one of those that a process shows.
pub open spec fn is_one_shown(windows: Seq<WindowInfo>, pid: u32, window: WindowView) -> bool {
    exists|w: int|
        0 <= w < windows.len() && (#[trigger] windows[w]).is_visible && windows[w].process_id == pid
            && trimmed(windows[w].title@).len() > 0 && windows[w]@ == window
}

proof fn lemma_offered_are_shown(windows: Seq<WindowInfo>, pid: u32)
    ensures
        forall|i: int|
            0 <= i < offered(windows, pid).len() ==> is_one_shown(
                windows,
                pid,
                #[trigger] offered(windows, pid)[i],
            ),
    decreases windows.len(),
{
    if windows.len() > 0 {
        let fewer = windows.drop_last();
        lemma_offered_are_shown(fewer, pid);
        let before = offered(fewer, pid);
        let after = offered(windows, pid);
        lemma_placed_among(before, windows.last()@);
        assert forall|i: int| 0 <= i < after.len() implies is_one_shown(
            windows,
            pid,
            #[trigger] after[i],
        ) by {
            if is_shown_by(windows.last(), pid) && after[i] == windows.last()@ {
                assert(windows[windows.len() - 1] == windows.last());
            } else {
                let k = if is_shown_by(windows.last(), pid) {
                    choose|k: int| 0 <= k < before.len() && before[k] == after[i]
                } else {
                    i
                };
                assert(is_one_shown(fewer, pid, before[k]));
                let w = choose|w: int|
                    0 <= w < fewer.len() && (#[trigger] fewer[w]).is_visible
                        && fewer[w].process_id == pid && trimmed(fewer[w].title@).len() > 0
                        && fewer[w]@ == before[k];
                assert(windows[w] == fewer[w]);
            }
        }
    }
}

proof fn lemma_process_windows_are_added(
    search: SearchView,
    executable: Seq<char>,
    windows: Seq<WindowView>,
    is_one: spec_fn(Found) -> bool,
)
    requires
        forall|w: int|
            0 <= w < windows.len() ==> is_one(#[trigger] window_target(executable, windows[w])),
    ensures
        adds(search, windows::with_process_windows(search, executable, windows), is_one),
        windows::with_process_windows(search, executable, windows).serials == search.serials,
        windows::with_process_windows(search, executable, windows).ports == search.ports,
    decreases windows.len(),
{
    if windows.len() > 0 {
        let fewer = windows.drop_last();
        assert forall|w: int| 0 <= w < fewer.len() implies is_one(
            #[trigger] window_target(executable, fewer[w]),
        ) by {
            assert(is_one(window_target(executable, windows[w])));
        }
        lemma_process_windows_are_added(search, executable, fewer, is_one);
        let before = windows::with_process_windows(search, executable, fewer);
        let target = window_target(executable, windows[windows.len() - 1]);
        assert(is_one(target));
        lemma_adds_window(before, is_one, target);
        lemma_adds_more(search, before, before.with_target(target), is_one);
    } else {
        lemma_adds_nothing(search, is_one);
    }
}

/// Every window that the search adds is captured by its own handle, title and class; it is visible,
/// has a title, and belongs to a process of the game. Windows lay no claim to a device.
pub proof fn law_window_targets_capture_game_windows(
    search: SearchView,
    processes: Seq<ProcessInfo>,
    all: Seq<WindowInfo>,
)
    ensures
        adds(
            search,
            windows::with_windows(search, processes, all),
            |target: Found| is_game_window(processes, all, target),
        ),
        windows::with_windows(search, processes, all).serials == search.serials,
        windows::with_windows(search, processes, all).ports == search.ports,
    decreases processes.len(),
{
    let is_one = |target: Found| is_game_window(processes, all, target);
    if processes.len() > 0 {
        let fewer = processes.drop_last();
        let process = processes.last();
        let is_other = |target: Found| is_game_window(fewer, all, target);
        law_window_targets_capture_game_windows(search, fewer, all);
        let before = windows::with_windows(search, fewer, all);
        assert forall|target: Found| #[trigger] is_other(target) implies is_one(target) by {
            let (p, w) = choose|p: int, w: int|
                #![trigger fewer[p], all[w]]
                0 <= p < fewer.len() && 0 <= w < all.len() && same_but_case(
                    fewer[p].name@,
                    "Arknights.exe"@,
                ) && all[w].is_visible && all[w].process_id == fewer[p].process_id && trimmed(
                    all[w].title@,
                ).len() > 0 && captures_window(all[w]@, target);
            assert(processes[p] == fewer[p]);
            assert(is_game_window(processes, all, target));
        }
        lemma_adds_fewer(search, before, is_other, is_one);
        if same_but_case(process.name@, "Arknights.exe"@) {
            let executable = executable_of(process);
            let shown = offered(all, process.process_id);
            lemma_offered_are_shown(all, process.process_id);
            assert forall|w: int| 0 <= w < shown.len() implies is_one(
                #[trigger] window_target(executable, shown[w]),
            ) by {
                let target = window_target(executable, shown[w]);
                assert(is_one_shown(all, process.process_id, shown[w]));
                let v = choose|v: int|
                    0 <= v < all.len() && (#[trigger] all[v]).is_visible && all[v].process_id
                        == process.process_id && trimmed(all[v].title@).len() > 0 && all[v]@
                        == shown[w];
                assert(processes[processes.len() - 1] == process);
                assert(captures_window(all[v]@, target));
                assert(is_game_window(processes, all, target));
            }
            lemma_process_windows_are_added(before, executable, shown, is_one);
            lemma_adds_more(
                search,
                before,
                windows::with_process_windows(before, executable, shown),
                is_one,
            );
        }
    } else {
        lemma_adds_nothing(search, is_one);
    }
}

/// The target captures a device by its name alone.
pub open spec fn captures_device(serial: Seq<char>, target: Found) -> bool {
    &&& target.kind == TargetKind::Adb
    &&& target.device_id == Some(serial)
    &&& target.install_path is None
    &&& target.instance_index is None
    &&& target.window_handle is None
    &&& target.window_title is None
    &&& target.window_class is None
}

/// A device that is offered for itself is captured by its own name. It is connected, has the game,
/// and belongs to no target found before.
pub proof fn law_plain_targets_capture_their_device(
    machine: Machine,
    search: SearchView,
    connected: Seq<Seq<char>>,
    i: int,
)
    requires
        search.found.len() <= i < with_generic(machine, search, connected).found.len(),
    ensures
        ({
            let target = with_generic(machine, search, connected).found[i];
            &&& target.device_id is Some
            &&& captures_device(target.device_id->0, target)
            &&& connected.contains(target.device_id->0)
            &&& has_game(machine, target.device_id->0)
            &&& !search.serials.contains(target.device_id->0)
        }),
    decreases connected.len(),
{
    let after = with_generic(machine, search, connected);
    let fewer = connected.drop_last();
    let before = with_generic(machine, search, fewer);
    adb::law_plain_devices_are_those_of_no_one(machine, search, fewer, Seq::empty());
    if i < before.found.len() {
        law_plain_targets_capture_their_device(machine, search, fewer, i);
        assert(after.found[i] == before.found[i]);
        let serial = before.found[i].device_id->0;
        let k = choose|k: int| 0 <= k < fewer.len() && fewer[k] == serial;
        assert(connected[k] == serial);
    } else {
        let serial = connected.last();
        assert(after.found[i] == generic_target(serial));
        assert(connected[connected.len() - 1] == serial);
    }
}

/// The order in which kinds of targets are offered.
pub open spec fn place_of(kind: TargetKind) -> int {
    match kind {
        TargetKind::MuMu => 0,
        TargetKind::LDPlayer => 1,
        TargetKind::Windows => 2,
        TargetKind::Adb => 3,
    }
}

/// No kind of target comes behind one that is offered later.
pub open spec fn in_places(found: Seq<Found>) -> bool {
    forall|i: int, j: int|
        0 <= i < j < found.len() ==> place_of((#[trigger] found[i]).kind) <= place_of(
            (#[trigger] found[j]).kind,
        )
}

/// What is kept was found, and nothing with its fingerprint was found before it.
pub proof fn law_the_first_of_each_fingerprint_is_kept(found: Seq<Found>, i: int)
    requires
        0 <= i < without_repeats(found).len(),
    ensures
        exists|j: int|
            0 <= j < found.len() && #[trigger] found[j] == without_repeats(found)[i] && forall|k: int|
                0 <= k < j ==> (#[trigger] found[k]).fingerprint != found[j].fingerprint,
    decreases found.len(),
{
    let head = found.drop_last();
    let rest = without_repeats(head);
    let kept = without_repeats(found);
    if i < rest.len() {
        law_the_first_of_each_fingerprint_is_kept(head, i);
        let j = choose|j: int|
            0 <= j < head.len() && #[trigger] head[j] == rest[i] && forall|k: int|
                0 <= k < j ==> (#[trigger] head[k]).fingerprint != head[j].fingerprint;
        assert(kept[i] == rest[i]);
        assert(found[j] == head[j]);
        assert forall|k: int| 0 <= k < j implies (#[trigger] found[k]).fingerprint
            != found[j].fingerprint by {
            assert(head[k] == found[k]);
        }
    } else {
        let j = found.len() - 1;
        crate::target_discovery::search::law_fingerprints_are_unique(head);
        assert(found[j] == kept[i]);
        assert forall|k: int| 0 <= k < j implies (#[trigger] found[k]).fingerprint
            != found[j].fingerprint by {
            assert(head[k] == found[k]);
            if head[k].fingerprint == found[j].fingerprint {
                assert(crate::target_discovery::search::has_fingerprint(
                    rest,
                    head[k].fingerprint,
                ));
            }
        }
    }
}

proof fn lemma_kept_in_places(found: Seq<Found>)
    requires
        in_places(found),
    ensures
        in_places(without_repeats(found)),
    decreases found.len(),
{
    if found.len() > 0 {
        let head = found.drop_last();
        let rest = without_repeats(head);
        let kept = without_repeats(found);
        assert(in_places(head)) by {
            assert forall|i: int, j: int| 0 <= i < j < head.len() implies place_of(
                (#[trigger] head[i]).kind,
            ) <= place_of((#[trigger] head[j]).kind) by {
                assert(head[i] == found[i] && head[j] == found[j]);
            }
        }
        lemma_kept_in_places(head);
        assert forall|i: int, j: int| 0 <= i < j < kept.len() implies place_of(
            (#[trigger] kept[i]).kind,
        ) <= place_of((#[trigger] kept[j]).kind) by {
            assert(kept[i] == rest[i]);
            if j < rest.len() {
                assert(kept[j] == rest[j]);
            } else {
                law_the_first_of_each_fingerprint_is_kept(head, i);
                let k = choose|k: int| 0 <= k < head.len() && #[trigger] head[k] == rest[i];
                assert(found[k] == head[k]);
                assert(found[found.len() - 1] == kept[j]);
            }
        }
    }
}

/// The target captures what it was found as: a MuMu instance as it was told of, an LDPlayer instance
/// as it is listed, a window of the game, or a connected device with the game.
pub open spec fn captures_what_was_found(
    machine: Machine,
    around: Surroundings,
    windows: Seq<WindowInfo>,
    target: Found,
) -> bool {
    match target.kind {
        TargetKind::MuMu => is_mumu_instance(machine, around, target),
        TargetKind::LDPlayer => is_ldplayer_instance(machine, around, target),
        TargetKind::Windows => is_game_window(around.processes@, windows, target),
        TargetKind::Adb => target.device_id is Some && captures_device(
            target.device_id->0,
            target,
        ) && views(around.connected@).contains(target.device_id->0) && has_game(
            machine,
            target.device_id->0,
        ),
    }
}

proof fn lemma_all_found(machine: Machine, around: Surroundings, all: Seq<WindowInfo>)
    ensures
        ({
            let connected = views(around.connected@);
            let mumu_found = mumu::with_mumu(machine, nothing_found(), around);
            let emulators = ldplayer::with_ldplayer(machine, mumu_found, around);
            let local = windows::with_windows(emulators, around.processes@, all);
            let found = with_generic(machine, local, connected).found;
            &&& forall|i: int|
                0 <= i < found.len() ==> captures_what_was_found(
                    machine,
                    around,
                    all,
                    #[trigger] found[i],
                )
            &&& in_places(found)
            &&& forall|i: int, j: int|
                0 <= i < found.len() && 0 <= j < found.len() && (#[trigger] found[i]).kind
                    != TargetKind::Adb && (#[trigger] found[j]).kind == TargetKind::Adb
                    ==> found[i].device_id != found[j].device_id
        }),
{
    let connected = views(around.connected@);
    let mumu_found = mumu::with_mumu(machine, nothing_found(), around);
    let emulators = ldplayer::with_ldplayer(machine, mumu_found, around);
    let local = windows::with_windows(emulators, around.processes@, all);
    let after = with_generic(machine, local, connected);
    let found = after.found;
    let is_mumu = |target: Found| is_mumu_instance(machine, around, target);
    let is_ldplayer = |target: Found| is_ldplayer_instance(machine, around, target);
    let is_window = |target: Found| is_game_window(around.processes@, all, target);
    law_mumu_targets_capture_what_was_told(machine, nothing_found(), around);
    law_ldplayer_targets_capture_what_is_listed(machine, mumu_found, around);
    law_window_targets_capture_game_windows(emulators, around.processes@, all);
    adb::law_plain_devices_are_those_of_no_one(machine, local, connected, Seq::empty());
    let a = mumu_found.found.len() as int;
    let b = emulators.found.len() as int;
    let c = local.found.len() as int;
    assert(found.take(c) == local.found);
    assert forall|i: int| 0 <= i < found.len() implies captures_what_was_found(
        machine,
        around,
        all,
        #[trigger] found[i],
    ) && place_of(found[i].kind) == (if i < a {
        0
    } else if i < b {
        1
    } else if i < c {
        2int
    } else {
        3
    }) && (i < b ==> found[i].device_id is Some && local.serials.contains(found[i].device_id->0))
        && (b <= i < c ==> found[i].device_id is None) && (i >= c ==> found[i].device_id is Some
        && !local.serials.contains(found[i].device_id->0)) by {
        if i < c {
            assert(found[i] == found.take(c)[i]);
        }
        if i < b {
            assert(local.found[i] == emulators.found[i]);
        }
        if i < a {
            assert(emulators.found[i] == mumu_found.found[i]);
            assert(is_mumu(mumu_found.found[i]));
            assert(mumu_found.serials.contains(mumu_found.found[i].device_id->0));
            assert(emulators.serials.contains(mumu_found.found[i].device_id->0));
        } else if i < b {
            assert(is_ldplayer(emulators.found[i]));
            assert(emulators.serials.contains(emulators.found[i].device_id->0));
        } else if i < c {
            assert(is_window(local.found[i]));
        } else {
            law_plain_targets_capture_their_device(machine, local, connected, i);
        }
    }
}

/// What is offered captures what was found: every MuMu target by the index that was told for its
/// instance, every LDPlayer target by the index on its line, every window by its handle, every other
/// device by its name. They come in this order, and no device of an emulator is offered once more
/// for itself.
pub proof fn law_targets_capture_what_was_found(
    machine: Machine,
    around: Surroundings,
    all: Seq<WindowInfo>,
)
    ensures
        ({
            let found = targets(machine, around, all);
            &&& forall|i: int|
                0 <= i < found.len() ==> captures_what_was_found(
                    machine,
                    around,
                    all,
                    #[trigger] found[i],
                )
            &&& in_places(found)
            &&& forall|i: int, j: int|
                0 <= i < found.len() && 0 <= j < found.len() && (#[trigger] found[i]).kind
                    != TargetKind::Adb && (#[trigger] found[j]).kind == TargetKind::Adb
                    ==> found[i].device_id != found[j].device_id
        }),
{
    lemma_all_found(machine, around, all);
    let connected = views(around.connected@);
    let mumu_found = mumu::with_mumu(machine, nothing_found(), around);
    let emulators = ldplayer::with_ldplayer(machine, mumu_found, around);
    let local = windows::with_windows(emulators, around.processes@, all);
    let found = with_generic(machine, local, connected).found;
    let kept = targets(machine, around, all);
    assert(kept == without_repeats(found));
    lemma_kept_in_places(found);
    assert forall|i: int| 0 <= i < kept.len() implies captures_what_was_found(
        machine,
        around,
        all,
        #[trigger] kept[i],
    ) by {
        law_the_first_of_each_fingerprint_is_kept(found, i);
        let j = choose|j: int| 0 <= j < found.len() && #[trigger] found[j] == kept[i];
        assert(captures_what_was_found(machine, around, all, found[j]));
    }
    assert forall|i: int, j: int|
        0 <= i < kept.len() && 0 <= j < kept.len() && (#[trigger] kept[i]).kind != TargetKind::Adb
            && (#[trigger] kept[j]).kind == TargetKind::Adb implies kept[i].device_id
        != kept[j].device_id by {
        law_the_first_of_each_fingerprint_is_kept(found, i);
        law_the_first_of_each_fingerprint_is_kept(found, j);
        let k = choose|k: int| 0 <= k < found.len() && #[trigger] found[k] == kept[i];
        let l = choose|l: int| 0 <= l < found.len() && #[trigger] found[l] == kept[j];
        assert(found[k].kind != TargetKind::Adb && found[l].kind == TargetKind::Adb);
    }
}

/// Choosing an emulator writes down what it takes to capture just that instance: its kind, the path
/// of the installation, the index of the instance, and the fingerprint it is found again by.
pub proof fn law_chosen_instances_are_configured(
    machine: Machine,
    around: Surroundings,
    all: Seq<WindowInfo>,
    candidates: Seq<TargetCandidate>,
    previous: Option<RulerConfig>,
    i: int,
)
    requires
        all_found(candidates) == targets(machine, around, all),
        all_fresh(candidates, previous),
        0 <= i < candidates.len(),
    ensures
        ({
            let candidate = candidates[i];
            let config = candidate.config;
            &&& candidate.kind == TargetKind::MuMu ==> {
                &&& config.capture_type@ == "mumu"@
                &&& config.install_path is Some
                &&& config.instance_index is Some
                &&& config.window_handle is None
                &&& exists|target: Found|
                    #![trigger is_mumu_instance(machine, around, target)]
                    is_mumu_instance(machine, around, target) && target.instance_index
                        == config.instance_index && target.install_path == Some(
                        config.install_path->0@,
                    )
            }
            &&& candidate.kind == TargetKind::LDPlayer ==> {
                &&& config.capture_type@ == "ldplayer"@
                &&& config.install_path is Some
                &&& config.instance_index is Some
                &&& config.window_handle is None
                &&& exists|target: Found|
                    #![trigger is_ldplayer_instance(machine, around, target)]
                    is_ldplayer_instance(machine, around, target) && target.instance_index
                        == config.instance_index && target.install_path == Some(
                        config.install_path->0@,
                    )
            }
            &&& candidate.kind == TargetKind::Windows ==> {
                &&& config.capture_type@ == "window"@
                &&& config.window_handle is Some
                &&& config.instance_index is None
            }
            &&& candidate.kind == TargetKind::Adb ==> {
                &&& config.capture_type@ == "adb"@
                &&& config.device_id is Some
                &&& config.instance_index is None
                &&& views(around.connected@).contains(config.device_id->0@)
            }
            &&& config.target_fingerprint is Some
            &&& config.target_fingerprint->0@ == candidate.fingerprint@
        }),
{
    law_targets_capture_what_was_found(machine, around, all);
    let target = found(candidates[i]);
    assert(all_found(candidates)[i] == target);
    assert(captures_what_was_found(machine, around, all, targets(machine, around, all)[i]));
    assert(is_fresh(candidates[i], previous));
}

/// A device at an address is reached at that address: it was connected, or connecting worked, and it
/// says that it is ready.
pub proof fn law_devices_are_reached_at_their_address(
    machine: Machine,
    host: Seq<char>,
    port: u16,
    connected: Seq<Seq<char>>,
)
    ensures
        device_at(machine, host, port, connected) is Some <==> {
            let serial = address(host, port);
            &&& connected.contains(serial) || machine(Asked::Connect(serial)) is Some
            &&& machine(Asked::DeviceState(serial)) is Some
            &&& trimmed(machine(Asked::DeviceState(serial))->0) == "device"@
        },
        device_at(machine, host, port, connected) is Some ==> device_at(
            machine,
            host,
            port,
            connected,
        )->0 == address(host, port),
        address(host, port).len() > decimal(port as nat).len(),
        address(host, port).skip(address(host, port).len() - decimal(port as nat).len()) == decimal(
            port as nat,
        ),
        address("localhost"@, port) == address("127.0.0.1"@, port),
        address("0.0.0.0"@, port) == address("127.0.0.1"@, port),
{
    reveal_strlit("localhost");
    reveal_strlit("0.0.0.0");
    reveal_strlit("127.0.0.1");
    reveal_strlit("");
    text::lemma_trimmed_is_itself("localhost"@);
    text::lemma_trimmed_is_itself("0.0.0.0"@);
    text::lemma_trimmed_is_itself("127.0.0.1"@);
    assert("127.0.0.1"@[0] == '1' && "0.0.0.0"@[0] == '0' && "localhost"@[0] == 'l');
    let full = address(host, port);
    let digits = decimal(port as nat);
    assert(full.skip(full.len() - digits.len()) =~= digits);
}

/// A device that is found on some ports has the game and is on one of them: where one that is
/// connected already has it, nothing else is connected to.
pub proof fn law_devices_on_ports_have_the_game(
    machine: Machine,
    ports: Seq<u16>,
    connected: Seq<Seq<char>>,
)
    ensures
        match device_with_game(machine, ports, connected) {
            Some((serial, port)) => {
                &&& has_game(machine, serial)
                &&& ports.contains(port)
                &&& connected.contains(serial) && adb::port_of(serial) == Some(port as int)
                    || serial == address("127.0.0.1"@, port)
            },
            None => forall|i: int|
                0 <= i < connected.len() && adb::port_of(#[trigger] connected[i]) is Some
                    && ports.contains(adb::port_of(connected[i])->0 as u16) ==> !has_game(
                    machine,
                    connected[i],
                ),
        },
{
    lemma_connected_with_game(machine, ports, connected);
    lemma_probed_with_game(machine, ports, connected);
}

proof fn lemma_connected_with_game(machine: Machine, ports: Seq<u16>, connected: Seq<Seq<char>>)
    ensures
        match adb::connected_with_game(machine, ports, connected) {
            Some((serial, port)) => {
                &&& has_game(machine, serial)
                &&& ports.contains(port)
                &&& connected.contains(serial)
                &&& adb::port_of(serial) == Some(port as int)
            },
            None => forall|i: int|
                0 <= i < connected.len() && adb::port_of(#[trigger] connected[i]) is Some
                    && ports.contains(adb::port_of(connected[i])->0 as u16) ==> !has_game(
                    machine,
                    connected[i],
                ),
        },
    decreases connected.len(),
{
    if connected.len() > 0 {
        let rest = connected.drop_first();
        lemma_connected_with_game(machine, ports, rest);
        match adb::connected_with_game(machine, ports, connected) {
            Some((serial, port)) => {
                if rest.contains(serial) {
                    let k = choose|k: int| 0 <= k < rest.len() && rest[k] == serial;
                    assert(connected[k + 1] == serial);
                } else {
                    assert(connected[0] == serial);
                }
            },
            None => {
                assert forall|i: int|
                    0 <= i < connected.len() && adb::port_of(#[trigger] connected[i]) is Some
                        && ports.contains(adb::port_of(connected[i])->0 as u16) implies !has_game(
                    machine,
                    connected[i],
                ) by {
                    if i > 0 {
                        assert(rest[i - 1] == connected[i]);
                    }
                }
            },
        }
    }
}

proof fn lemma_probed_with_game(machine: Machine, ports: Seq<u16>, connected: Seq<Seq<char>>)
    ensures
        match adb::probed_with_game(machine, ports, connected) {
            Some((serial, port)) => {
                &&& has_game(machine, serial)
                &&& ports.contains(port)
                &&& serial == address("127.0.0.1"@, port)
            },
            None => true,
        },
    decreases ports.len(),
{
    if ports.len() > 0 {
        let rest = ports.drop_first();
        lemma_probed_with_game(machine, rest, connected);
        match adb::probed_with_game(machine, ports, connected) {
            Some((serial, port)) => {
                if rest.contains(port) {
                    let k = choose|k: int| 0 <= k < rest.len() && rest[k] == port;
                    assert(ports[k + 1] == port);
                } else {
                    assert(ports[0] == port);
                }
            },
            None => {},
        }
    }
}

/// The device of an LDPlayer instance has the game. It is the one that the emulator gives to that
/// index, two ports further for each instance, or one on the ports around that instance.
pub proof fn law_ldplayer_devices_are_those_of_the_instance(
    machine: Machine,
    index: u32,
    ports: Seq<u16>,
    connected: Seq<Seq<char>>,
)
    requires
        index <= 0x7000,
    ensures
        console_serial(index) == "emulator-"@ + decimal((5554 + 2 * index) as nat),
        connected.contains(console_serial(index)) && has_game(machine, console_serial(index))
            ==> device_of(machine, index, ports, connected) == Some(
            (console_serial(index), (5554 + 2 * index) as u16),
        ),
        match device_of(machine, index, ports, connected) {
            Some((serial, port)) => has_game(machine, serial) && (serial == console_serial(index)
                || ports.contains(port)),
            None => true,
        },
{
    law_devices_on_ports_have_the_game(machine, ports, connected);
    assert((index as u16).wrapping_mul(2).wrapping_add(5554) == 5554 + 2 * index) by {
        assert(index as u16 == index);
    }
}

/// The index of a virtual machine is the one that its own process tells, where it tells one; else one
/// told by a process around it; else the number in its name.
pub proof fn law_processes_tell_their_index(headless: ProcessInfo, processes: Seq<ProcessInfo>)
    ensures
        mumu::instance_index(headless) is Some ==> headless_index(headless, processes)
            == mumu::instance_index(headless)->0,
        mumu::instance_index(headless) is None && mumu::index_among(
            processes,
            mumu::instance_name(headless),
        ) is Some ==> headless_index(headless, processes) == mumu::index_among(
            processes,
            mumu::instance_name(headless),
        )->0,
        match mumu::index_among(processes, mumu::instance_name(headless)) {
            Some(n) => exists|i: int|
                0 <= i < processes.len() && mumu::instance_index(#[trigger] processes[i]) == Some(
                    n,
                ),
            None => true,
        },
{
    lemma_index_among(processes, mumu::instance_name(headless));
}

proof fn lemma_index_among(processes: Seq<ProcessInfo>, name: Option<Seq<char>>)
    ensures
        match mumu::index_among(processes, name) {
            Some(n) => exists|i: int|
                0 <= i < processes.len() && mumu::instance_index(#[trigger] processes[i]) == Some(
                    n,
                ),
            None => true,
        },
    decreases processes.len(),
{
    if processes.len() > 0 {
        let rest = processes.drop_first();
        lemma_index_among(rest, name);
        match mumu::index_among(processes, name) {
            Some(n) => {
                if mumu::instance_index(processes[0]) != Some(n) {
                    let i = choose|i: int|
                        0 <= i < rest.len() && mumu::instance_index(#[trigger] rest[i]) == Some(n);
                    assert(processes[i + 1] == rest[i]);
                }
            },
            None => {},
        }
    }
}

proof fn lemma_member(entries: Seq<(Seq<char>, ItemView)>, i: int)
    requires
        distinct_keys(entries),
        0 <= i < entries.len(),
    ensures
        mumu::member(entries, entries[i].0) == Some(entries[i].1),
    decreases entries.len(),
{
    if i > 0 {
        let rest = entries.drop_first();
        assert forall|j: int, k: int| 0 <= j < k < rest.len() implies (#[trigger] rest[j]).0 != (
        #[trigger] rest[k]).0 by {
            assert(entries[j + 1].0 != entries[k + 1].0);
        }
        assert(entries[0].0 != entries[i].0);
        lemma_member(rest, i - 1);
        assert(rest[i - 1] == entries[i]);
    }
}

/// What a manager says of an instance is taken over by name: the index from `index`, the port from
/// `adb_port`, the name from `name`, the host from `adb_host_ip`, in whatever order they come.
pub proof fn law_told_instances_are_read_by_name(entries: Seq<(Seq<char>, ItemView)>, i: int)
    requires
        distinct_keys(entries),
        0 <= i < entries.len(),
        mumu::info_of_members(entries) is Some,
    ensures
        ({
            let info = mumu::info_of_members(entries)->0;
            let key = entries[i].0;
            let item = entries[i].1;
            &&& key == "index"@ && item is Unsigned ==> info.index == item->Unsigned_value
            &&& key == "adb_port"@ && item is Unsigned ==> info.port == item->Unsigned_value
            &&& key == "name"@ && item is Text && trimmed(item->Text_0).len() > 0 ==> info.name
                == Some(trimmed(item->Text_0))
            &&& key == "adb_host_ip"@ && item is Text && trimmed(item->Text_0).len() > 0
                ==> info.host == adb::usual_host(trimmed(item->Text_0))
            &&& info.port > 0
        }),
{
    lemma_member(entries, i);
}

/// A manager's object that names an index and a port tells of an instance.
pub proof fn law_index_and_port_make_an_instance(
    entries: Seq<(Seq<char>, ItemView)>,
    i: int,
    j: int,
)
    requires
        distinct_keys(entries),
        0 <= i < entries.len(),
        0 <= j < entries.len(),
        entries[i].0 == "index"@,
        entries[i].1 is Unsigned,
        entries[i].1->Unsigned_value <= u32::MAX,
        entries[j].0 == "adb_port"@,
        entries[j].1 is Unsigned,
        0 < entries[j].1->Unsigned_value <= u16::MAX,
    ensures
        mumu::info_of_members(entries) is Some,
        mumu::info_of_members(entries)->0.index == entries[i].1->Unsigned_value,
        mumu::info_of_members(entries)->0.port == entries[j].1->Unsigned_value,
        mumu::is_single(entries),
{
    lemma_member(entries, i);
    lemma_member(entries, j);
}

/// The objects of a list tell of one instance each, in their order; those that tell of none are left
/// out.
pub proof fn law_each_object_tells_of_its_instance(
    objects: Seq<Option<Seq<(Seq<char>, ItemView)>>>,
    object: Option<Seq<(Seq<char>, ItemView)>>,
)
    ensures
        mumu::infos_of_values(objects).len() <= objects.len(),
        mumu::infos_of_values(objects.push(object)) == match mumu::info_of_value(object) {
            Some(info) => mumu::infos_of_values(objects).push(info),
            None => mumu::infos_of_values(objects),
        },
        mumu::infos_of_values(Seq::empty()).len() == 0,
    decreases objects.len(),
{
    assert(objects.push(object).drop_last() =~= objects);
    if objects.len() > 0 {
        law_each_object_tells_of_its_instance(objects.drop_last(), object);
    }
}

/// The line on which a console lists an instance.
pub open spec fn console_line(
    index: u32,
    name: Seq<char>,
    between: (Seq<char>, Seq<char>, Seq<char>),
    player_pid: u32,
    vbox_pid: u32,
) -> Seq<char> {
    text::joined_with(
        seq![
            decimal(index as nat),
            name,
            between.0,
            between.1,
            between.2,
            decimal(player_pid as nat),
            decimal(vbox_pid as nat),
        ],
        ',',
    )
}

proof fn lemma_seven_parts(parts: Seq<Seq<char>>)
    requires
        parts.len() == 7,
        forall|i: int| 0 <= i < 7 ==> !(#[trigger] parts[i]).contains(','),
    ensures
        text::split_on(text::joined_with(parts, ','), ',') == parts,
{
    let a = seq![parts[0]];
    let b = a.push(parts[1]);
    let c = b.push(parts[2]);
    let d = c.push(parts[3]);
    let e = d.push(parts[4]);
    let f = e.push(parts[5]);
    let g = f.push(parts[6]);
    assert(g =~= parts);
    text::lemma_split_plain(parts[0], ',');
    lemma_one_more_part(a, parts[1]);
    lemma_one_more_part(b, parts[2]);
    lemma_one_more_part(c, parts[3]);
    lemma_one_more_part(d, parts[4]);
    lemma_one_more_part(e, parts[5]);
    lemma_one_more_part(f, parts[6]);
}

proof fn lemma_one_more_part(parts: Seq<Seq<char>>, last: Seq<char>)
    requires
        parts.len() > 0,
        !last.contains(','),
        text::split_on(text::joined_with(parts, ','), ',') == parts,
    ensures
        text::split_on(text::joined_with(parts.push(last), ','), ',') == parts.push(last),
{
    assert(parts.push(last).drop_last() =~= parts);
    text::lemma_split_last(text::joined_with(parts, ','), ',', last);
}

/// An instance that a console lists is read off its line as it is listed: the index from the first
/// field, the name from the second, the two processes from the sixth and the seventh. The same line
/// gives the index for either of its processes.
pub proof fn law_listed_instances_are_read_off_their_line(
    index: u32,
    name: Seq<char>,
    between: (Seq<char>, Seq<char>, Seq<char>),
    player_pid: u32,
    vbox_pid: u32,
)
    requires
        !name.contains(','),
        !between.0.contains(','),
        !between.1.contains(','),
        !between.2.contains(','),
    ensures
        ({
            let line = console_line(index, name, between, player_pid, vbox_pid);
            &&& ldplayer::instance_on(line) == Some(
                InstanceView { index, name: trimmed(name), player_pid, vbox_pid },
            )
            &&& ldplayer::index_on(line, player_pid) == Some(index as int)
            &&& ldplayer::index_on(line, vbox_pid) == Some(index as int)
            &&& forall|pid: u32|
                pid != player_pid && pid != vbox_pid ==> #[trigger] ldplayer::index_on(line, pid)
                    is None
        }),
{
    let parts = seq![
        decimal(index as nat),
        name,
        between.0,
        between.1,
        between.2,
        decimal(player_pid as nat),
        decimal(vbox_pid as nat),
    ];
    let line = console_line(index, name, between, player_pid, vbox_pid);
    lemma_number_field(index as nat);
    lemma_number_field(player_pid as nat);
    lemma_number_field(vbox_pid as nat);
    lemma_seven_parts(parts);
    let fields = ldplayer::fields_of(line);
    assert(fields.len() == 7);
    assert(fields[0] == trimmed(parts[0]));
    assert(fields[1] == trimmed(parts[1]));
    assert(fields[5] == trimmed(parts[5]));
    assert(fields[6] == trimmed(parts[6]));
}

proof fn lemma_number_field(n: nat)
    requires
        n <= u32::MAX,
    ensures
        !decimal(n).contains(','),
        trimmed(decimal(n)) == decimal(n),
        ldplayer::field_number(decimal(n)) == Some(n as int),
{
    text::law_written_numbers_read_back(n, u32::MAX as int);
    text::lemma_decimal_digits(n);
    let digits = decimal(n);
    assert forall|i: int| 0 <= i < digits.len() implies digits[i] != ',' && !text::is_white_space(
        digits[i],
    ) by {
        assert(text::is_digit(digits[i]));
    }
    text::lemma_trimmed_is_itself(digits);
}

/// What `adb` lists as a device that is ready is connected, and nothing else: a line has to name the
/// device first and the state `device` behind it.
pub proof fn law_ready_devices_are_connected(lines: Seq<Seq<char>>, serial: Seq<char>)
    ensures
        adb::ready_devices(lines).contains(serial) <==> exists|i: int|
            0 <= i < lines.len() && text::words_of(#[trigger] lines[i]).len() >= 2
                && text::words_of(lines[i])[0] == serial && text::words_of(lines[i])[1]
                == "device"@,
    decreases lines.len(),
{
    let all = adb::ready_devices(lines);
    if lines.len() > 0 {
        let head = lines.drop_last();
        let rest = adb::ready_devices(head);
        law_ready_devices_are_connected(head, serial);
        if all.contains(serial) {
            let k = choose|k: int| 0 <= k < all.len() && all[k] == serial;
            if k < rest.len() {
                assert(rest[k] == serial);
                let i = choose|i: int|
                    0 <= i < head.len() && text::words_of(#[trigger] head[i]).len() >= 2
                        && text::words_of(head[i])[0] == serial && text::words_of(head[i])[1]
                        == "device"@;
                assert(lines[i] == head[i]);
            } else {
                assert(lines[lines.len() - 1] == lines.last());
            }
        }
        if exists|i: int|
            0 <= i < lines.len() && text::words_of(#[trigger] lines[i]).len() >= 2
                && text::words_of(lines[i])[0] == serial && text::words_of(lines[i])[1]
                == "device"@ {
            let i = choose|i: int|
                0 <= i < lines.len() && text::words_of(#[trigger] lines[i]).len() >= 2
                    && text::words_of(lines[i])[0] == serial && text::words_of(lines[i])[1]
                    == "device"@;
            if i < head.len() {
                assert(head[i] == lines[i]);
                assert(rest.contains(serial));
                let k = choose|k: int| 0 <= k < rest.len() && rest[k] == serial;
                assert(all[k] == serial);
            } else {
                assert(all[rest.len() as int] == serial);
            }
        }
    }
}

/// A device has the game under any of the names it is published by, and under no other.
pub proof fn law_the_game_goes_by_its_names(machine: Machine, serial: Seq<char>)
    ensures
        has_game(machine, serial) <==> {
            ||| adb::has_package(machine, serial, "com.hypergryph.arknights"@)
            ||| adb::has_package(machine, serial, "com.hypergryph.arknights.bilibili"@)
            ||| adb::has_package(machine, serial, "tw.txwy.and.arknights"@)
            ||| adb::has_package(machine, serial, "com.YoStarEN.Arknights"@)
            ||| adb::has_package(machine, serial, "com.YoStarJP.Arknights"@)
            ||| adb::has_package(machine, serial, "com.YoStarKR.Arknights"@)
        },
        forall|package: Seq<char>| #[trigger]
            adb::has_package(machine, serial, package) <==> machine(
                Asked::PackagePath(serial, package),
            ) is Some && text::contains_text(
                machine(Asked::PackagePath(serial, package))->0,
                "package:"@,
            ),
{
    let names = adb::package_names();
    assert(names[0] == "com.hypergryph.arknights"@);
    assert(names[1] == "com.hypergryph.arknights.bilibili"@);
    assert(names[2] == "tw.txwy.and.arknights"@);
    assert(names[3] == "com.YoStarEN.Arknights"@);
    assert(names[4] == "com.YoStarJP.Arknights"@);
    assert(names[5] == "com.YoStarKR.Arknights"@);
}

/// Choosing another target keeps what does not depend on it: the profile in use, how frames are
/// numbered, the language, where the overlay is and how large, reports, recordings and logs. The
/// target is not chosen without asking unless the user says so anew, and it has not been tried yet.
pub proof fn law_found_targets_keep_the_settings(
    candidate: TargetCandidate,
    previous: RulerConfig,
)
    requires
        is_fresh(candidate, Some(previous)),
    ensures
        ({
            let config = candidate.config;
            &&& config.uuid == previous.uuid
            &&& config.telemetry_enabled == previous.telemetry_enabled
            &&& config.active_calibration_profile == previous.active_calibration_profile
            &&& previous.frame_display_mode is Some ==> config.frame_display_mode is Some
                && config.frame_display_mode->0@ == previous.frame_display_mode->0@
            &&& previous.language is Some ==> config.language is Some && config.language->0@
                == previous.language->0@
            &&& config.overlay_pos_x == previous.overlay_pos_x
            &&& config.overlay_pos_y == previous.overlay_pos_y
            &&& config.overlay_scale == previous.overlay_scale
            &&& config.ui_scaler == previous.ui_scaler
            &&& config.debug_recording_enabled == previous.debug_recording_enabled
            &&& config.debug_recording_video == previous.debug_recording_video
            &&& config.debug_recording_csv == previous.debug_recording_csv
            &&& config.trace_logging_enabled == previous.trace_logging_enabled
            &&& config.log_output_dir == previous.log_output_dir
            &&& config.replay_video_path == previous.replay_video_path
            &&& config.replay_fps == previous.replay_fps
            &&& !config.auto_select_target
            &&& config.screenshot_delay_ms is None
            &&& candidate.latency is None
            &&& candidate.latency_class == LatencyClass::Unknown
            &&& candidate.preview is None
            &&& candidate.error is None
        }),
{
    let config = candidate.config;
    assert(text::opt_view(config.frame_display_mode) == or_default(
        text::opt_view(previous.frame_display_mode),
        "0_to_n-1"@,
    ));
    assert(text::opt_view(config.language) == or_default(
        text::opt_view(previous.language),
        "zh_CN"@,
    ));
}

} // verus!
