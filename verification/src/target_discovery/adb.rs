//! Devices behind `adb`: which are connected, how one is reached at an address, and whether the
//! game is installed on it.
use crate::config::RulerConfig;
use crate::target_discovery::facts;
use crate::target_discovery::facts::{
    consistent, fits, grows, having_asked, questions, Asked, Fact, Machine, Question,
};
use crate::target_discovery::order;
use crate::target_discovery::order::{connects_first, connects_only};
use crate::target_discovery::process::port_in;
use crate::target_discovery::search::{
    all_fresh, found, new_candidate, opt_config, Found, Search, SearchView,
};
use crate::target_discovery::{Source, TargetKind};
use crate::text;
use crate::text::{
    contains_text, decimal, lines_of, number_at_most, split_on, trimmed, views, words_of,
};
use vstd::prelude::*;

verus! {

/// The names under which the game is published.
pub open spec fn package_names() -> Seq<Seq<char>> {
    seq![
        "com.hypergryph.arknights"@,
        "com.hypergryph.arknights.bilibili"@,
        "tw.txwy.and.arknights"@,
        "com.YoStarEN.Arknights"@,
        "com.YoStarJP.Arknights"@,
        "com.YoStarKR.Arknights"@,
    ]
}

/// The device has this package.
pub open spec fn has_package(machine: Machine, serial: Seq<char>, package: Seq<char>) -> bool {
    match machine(Asked::PackagePath(serial, package)) {
        Some(output) => contains_text(output, "package:"@),
        None => false,
    }
}

/// The game is installed on the device.
pub open spec fn has_game(machine: Machine, serial: Seq<char>) -> bool {
    exists|i: int|
        0 <= i < package_names().len() && has_package(
            machine,
            serial,
            #[trigger] package_names()[i],
        )
}

fn package_list() -> (names: Vec<&'static str>)
    ensures
        names@.map_values(|s: &'static str| s@) == package_names(),
{
    let names = vec![
        "com.hypergryph.arknights",
        "com.hypergryph.arknights.bilibili",
        "tw.txwy.and.arknights",
        "com.YoStarEN.Arknights",
        "com.YoStarJP.Arknights",
        "com.YoStarKR.Arknights",
    ];
    assert(names@.map_values(|s: &'static str| s@) =~= package_names());
    names
}

/// What has been asked once the device was asked for `packages`, up to the first that it has.
pub open spec fn asking_for_packages(
    machine: Machine,
    asked: Seq<Asked>,
    serial: Seq<char>,
    packages: Seq<Seq<char>>,
) -> Seq<Asked>
    decreases packages.len(),
{
    if packages.len() == 0 {
        asked
    } else {
        let now = having_asked(asked, Asked::PackagePath(serial, packages[0]));
        if has_package(machine, serial, packages[0]) {
            now
        } else {
            asking_for_packages(machine, now, serial, packages.drop_first())
        }
    }
}

/// What has been asked once the device was asked for the game.
pub open spec fn asking_for_game(
    machine: Machine,
    asked: Seq<Asked>,
    serial: Seq<char>,
) -> Seq<Asked> {
    asking_for_packages(machine, asked, serial, package_names())
}

/// Whether the game is installed on the device.
pub fn adb_has_arknights_package(facts: &mut Vec<Fact>, serial: &str) -> (b: bool)
    ensures
        grows(old(facts)@, final(facts)@),
        forall|machine: Machine| #[trigger]
            fits(machine, final(facts)@) ==> questions(final(facts)@) == asking_for_game(
                machine,
                questions(old(facts)@),
                serial@,
            ),
        forall|machine: Machine| #[trigger]
            fits(machine, final(facts)@) ==> b == has_game(machine, serial@),
{
    let names = package_list();
    let ghost all = package_names();
    let ghost start = questions(facts@);
    let mut i: usize = 0;
    assert(all.skip(0) =~= all);
    while i < names.len()
        invariant
            grows(old(facts)@, facts@),
            start == questions(old(facts)@),
            forall|machine: Machine| #[trigger]
                fits(machine, facts@) ==> asking_for_packages(machine, start, serial@, all)
                    == asking_for_packages(
                    machine,
                    questions(facts@),
                    serial@,
                    all.skip(i as int),
                ),
            i <= names@.len(),
            all == package_names(),
            all == names@.map_values(|s: &'static str| s@),
            forall|machine: Machine, k: int| #![trigger fits(machine, facts@), all[k]]
                fits(machine, facts@) && 0 <= k < i ==> !has_package(machine, serial@, all[k]),
        decreases names@.len() - i,
    {
        let package = names[i];
        assert(all[i as int] == package@);
        assert(all.skip(i as int)[0] == package@);
        assert(all.skip(i as int).drop_first() =~= all.skip(i as int + 1));
        if let Some(output) = facts::ask(
            facts,
            Question::PackagePath { serial: serial.to_owned(), package },
        ) {
            if text::contains(&output, "package:") {
                assert forall|machine: Machine| #[trigger] fits(machine, facts@) implies has_game(
                    machine,
                    serial@,
                ) by {
                    assert(has_package(machine, serial@, package_names()[i as int]));
                }
                return true;
            }
        }
        i += 1;
    }
    assert(all.skip(i as int) =~= Seq::<Seq<char>>::empty());
    false
}

/// A host under which this machine reaches itself is always written in the same way.
pub open spec fn usual_host(host: Seq<char>) -> Seq<char> {
    let name = trimmed(host);
    if name == ""@ || name == "0.0.0.0"@ || name == "localhost"@ {
        "127.0.0.1"@
    } else {
        name
    }
}

pub fn normalize_adb_host(host: &str) -> (r: String)
    ensures
        r@ == usual_host(host@),
{
    let name = text::trim(host);
    if text::same(&name, "") || text::same(&name, "0.0.0.0") || text::same(&name, "localhost") {
        "127.0.0.1".to_owned()
    } else {
        name
    }
}

pub open spec fn address(host: Seq<char>, port: u16) -> Seq<char> {
    usual_host(host) + seq![':'] + decimal(port as nat)
}

/// The address is that of one of `ports` on this machine.
pub open spec fn is_local_address(ports: Seq<u16>, serial: Seq<char>) -> bool {
    exists|k: int|
        0 <= k < ports.len() && serial == address("127.0.0.1"@, #[trigger] ports[k])
}

/// The device at an address: connected to where it is not yet, and ready for use.
pub open spec fn device_at(
    machine: Machine,
    host: Seq<char>,
    port: u16,
    connected: Seq<Seq<char>>,
) -> Option<Seq<char>> {
    let serial = address(host, port);
    if !connected.contains(serial) && machine(Asked::Connect(serial)) is None {
        None
    } else {
        match machine(Asked::DeviceState(serial)) {
            Some(state) => if trimmed(state) == "device"@ {
                Some(serial)
            } else {
                None
            },
            None => None,
        }
    }
}

/// What has been asked once a device was looked for at an address. Only where it is not connected yet
/// it is connected to, and its state is asked for only when it is.
pub open spec fn asking_for_device(
    machine: Machine,
    asked: Seq<Asked>,
    host: Seq<char>,
    port: u16,
    connected: Seq<Seq<char>>,
) -> Seq<Asked> {
    let serial = address(host, port);
    if connected.contains(serial) {
        having_asked(asked, Asked::DeviceState(serial))
    } else {
        let now = having_asked(asked, Asked::Connect(serial));
        if machine(Asked::Connect(serial)) is None {
            now
        } else {
            having_asked(now, Asked::DeviceState(serial))
        }
    }
}

pub fn adb_serial_for_address(
    facts: &mut Vec<Fact>,
    host: &str,
    port: u16,
    connected: &Vec<String>,
) -> (serial: Option<String>)
    ensures
        grows(old(facts)@, final(facts)@),
        connects_first(old(facts)@, final(facts)@, views(connected@)),
        connects_only(
            old(facts)@,
            final(facts)@,
            views(connected@),
            |serial: Seq<char>| serial == address(host@, port),
        ),
        forall|machine: Machine| #[trigger]
            fits(machine, final(facts)@) ==> questions(final(facts)@) == asking_for_device(
                machine,
                questions(old(facts)@),
                host@,
                port,
                views(connected@),
            ),
        forall|machine: Machine| #[trigger]
            fits(machine, final(facts)@) ==> text::opt_view(serial) == device_at(
                machine,
                host@,
                port,
                views(connected@),
            ),
{
    let mut serial = normalize_adb_host(host);
    serial.push(':');
    text::push_decimal(&mut serial, port as u64);
    assert(serial@ =~= address(host@, port));
    if !text::list_contains(connected, &serial) {
        match facts::ask(facts, Question::Connect { serial: serial.clone() }) {
            Some(_) => {},
            None => {
                return None;
            },
        }
    }
    match facts::ask(facts, Question::DeviceState { serial: serial.clone() }) {
        Some(state) => {
            if text::same(&text::trim(&state), "device") {
                Some(serial)
            } else {
                None
            }
        },
        None => None,
    }
}

/// The port in a device's name: what stands behind its last colon, where that is a port.
pub open spec fn port_of(serial: Seq<char>) -> Option<int> {
    number_at_most(split_on(serial, ':').last(), u16::MAX as int)
}

pub fn serial_port(serial: &str) -> (port: Option<u16>)
    ensures
        match port {
            Some(port) => port_of(serial@) == Some(port as int),
            None => port_of(serial@) is None,
        },
{
    let parts = text::split(serial, ':');
    let ghost all = split_on(serial@, ':');
    assert(all.len() == parts@.len());
    assert(all.last() == parts@.last()@);
    match text::parse_number(&parts[parts.len() - 1], 0xffff) {
        Some(n) => Some(n as u16),
        None => None,
    }
}

/// The first of the connected devices on one of `ports` that has the game.
pub open spec fn connected_with_game(
    machine: Machine,
    ports: Seq<u16>,
    connected: Seq<Seq<char>>,
) -> Option<(Seq<char>, u16)>
    decreases connected.len(),
{
    if connected.len() == 0 {
        None
    } else {
        let serial = connected[0];
        match port_of(serial) {
            Some(port) => if ports.contains(port as u16) && has_game(machine, serial) {
                Some((serial, port as u16))
            } else {
                connected_with_game(machine, ports, connected.drop_first())
            },
            None => connected_with_game(machine, ports, connected.drop_first()),
        }
    }
}

/// What has been asked once the connected devices on one of `ports` were asked for the game, up to the
/// first that has it.
pub open spec fn asking_connected(
    machine: Machine,
    asked: Seq<Asked>,
    ports: Seq<u16>,
    connected: Seq<Seq<char>>,
) -> Seq<Asked>
    decreases connected.len(),
{
    if connected.len() == 0 {
        asked
    } else {
        let serial = connected[0];
        let rest = connected.drop_first();
        match port_of(serial) {
            Some(port) => if ports.contains(port as u16) {
                let now = asking_for_game(machine, asked, serial);
                if has_game(machine, serial) {
                    now
                } else {
                    asking_connected(machine, now, ports, rest)
                }
            } else {
                asking_connected(machine, asked, ports, rest)
            },
            None => asking_connected(machine, asked, ports, rest),
        }
    }
}

/// A connected device is on this port.
pub open spec fn is_connected_port(connected: Seq<Seq<char>>, port: u16) -> bool {
    exists|i: int|
        0 <= i < connected.len() && port_of(#[trigger] connected[i]) == Some(port as int)
}

/// The first of `ports` without a connected device where one with the game can be connected to.
pub open spec fn probed_with_game(
    machine: Machine,
    ports: Seq<u16>,
    connected: Seq<Seq<char>>,
) -> Option<(Seq<char>, u16)>
    decreases ports.len(),
{
    if ports.len() == 0 {
        None
    } else {
        let rest = probed_with_game(machine, ports.drop_first(), connected);
        if is_connected_port(connected, ports[0]) {
            rest
        } else {
            match device_at(machine, "127.0.0.1"@, ports[0], connected) {
                Some(serial) => if has_game(machine, serial) {
                    Some((serial, ports[0]))
                } else {
                    rest
                },
                None => rest,
            }
        }
    }
}

/// What has been asked once a device with the game was looked for on those of `ports` without a
/// connected one, up to the first that has it.
pub open spec fn asking_ports(
    machine: Machine,
    asked: Seq<Asked>,
    ports: Seq<u16>,
    connected: Seq<Seq<char>>,
) -> Seq<Asked>
    decreases ports.len(),
{
    if ports.len() == 0 {
        asked
    } else {
        let rest = ports.drop_first();
        if is_connected_port(connected, ports[0]) {
            asking_ports(machine, asked, rest, connected)
        } else {
            let now = asking_for_device(machine, asked, "127.0.0.1"@, ports[0], connected);
            match device_at(machine, "127.0.0.1"@, ports[0], connected) {
                Some(serial) => {
                    let then_game = asking_for_game(machine, now, serial);
                    if has_game(machine, serial) {
                        then_game
                    } else {
                        asking_ports(machine, then_game, rest, connected)
                    }
                },
                None => asking_ports(machine, now, rest, connected),
            }
        }
    }
}

/// What has been asked once a device with the game was looked for on `ports`. Nothing is connected to
/// where a connected device has the game.
pub open spec fn asking_on_ports(
    machine: Machine,
    asked: Seq<Asked>,
    ports: Seq<u16>,
    connected: Seq<Seq<char>>,
) -> Seq<Asked> {
    let now = asking_connected(machine, asked, ports, connected);
    match connected_with_game(machine, ports, connected) {
        Some(_) => now,
        None => asking_ports(machine, now, ports, connected),
    }
}

/// The first device with the game on one of `ports`: of those connected already, or else of those
/// that can be connected to.
pub open spec fn device_with_game(
    machine: Machine,
    ports: Seq<u16>,
    connected: Seq<Seq<char>>,
) -> Option<(Seq<char>, u16)> {
    match connected_with_game(machine, ports, connected) {
        Some(device) => Some(device),
        None => probed_with_game(machine, ports, connected),
    }
}

pub open spec fn device_view(device: Option<(String, u16)>) -> Option<(Seq<char>, u16)> {
    match device {
        Some((serial, port)) => Some((serial@, port)),
        None => None,
    }
}

fn find_connected(
    facts: &mut Vec<Fact>,
    ports: &Vec<u16>,
    connected: &Vec<String>,
) -> (device: Option<(String, u16)>)
    ensures
        grows(old(facts)@, final(facts)@),
        forall|machine: Machine| #[trigger]
            fits(machine, final(facts)@) ==> questions(final(facts)@) == asking_connected(
                machine,
                questions(old(facts)@),
                ports@,
                views(connected@),
            ),
        forall|machine: Machine| #[trigger]
            fits(machine, final(facts)@) ==> device_view(device) == connected_with_game(
                machine,
                ports@,
                views(connected@),
            ),
{
    let ghost all = views(connected@);
    let ghost asked = questions(facts@);
    let mut i: usize = 0;
    assert(all.skip(0) =~= all);
    while i < connected.len()
        invariant
            grows(old(facts)@, facts@),
            asked == questions(old(facts)@),
            forall|machine: Machine| #[trigger]
                fits(machine, facts@) ==> asking_connected(machine, asked, ports@, all)
                    == asking_connected(machine, questions(facts@), ports@, all.skip(i as int)),
            i <= connected@.len(),
            all == views(connected@),
            forall|machine: Machine| #[trigger]
                fits(machine, facts@) ==> connected_with_game(machine, ports@, all)
                    == connected_with_game(machine, ports@, all.skip(i as int)),
        decreases connected@.len() - i,
    {
        let serial = &connected[i];
        assert(all.skip(i as int)[0] == serial@);
        assert(all.skip(i as int).drop_first() =~= all.skip(i as int + 1));
        if let Some(port) = serial_port(serial) {
            if port_in(ports, port) {
                if adb_has_arknights_package(facts, serial) {
                    return Some((serial.clone(), port));
                }
            }
        }
        i += 1;
    }
    assert(all.skip(i as int) =~= Seq::<Seq<char>>::empty());
    None
}

fn port_connected(connected: &Vec<String>, port: u16) -> (b: bool)
    ensures
        b == is_connected_port(views(connected@), port),
{
    let ghost all = views(connected@);
    let mut i: usize = 0;
    while i < connected.len()
        invariant
            i <= connected@.len(),
            all == views(connected@),
            forall|k: int| 0 <= k < i ==> port_of(#[trigger] all[k]) != Some(port as int),
        decreases connected@.len() - i,
    {
        assert(all[i as int] == connected@[i as int]@);
        if let Some(p) = serial_port(&connected[i]) {
            if p == port {
                return true;
            }
        }
        i += 1;
    }
    false
}

fn find_probed(
    facts: &mut Vec<Fact>,
    ports: &Vec<u16>,
    connected: &Vec<String>,
) -> (device: Option<(String, u16)>)
    ensures
        grows(old(facts)@, final(facts)@),
        forall|machine: Machine| #[trigger]
            fits(machine, final(facts)@) ==> questions(final(facts)@) == asking_ports(
                machine,
                questions(old(facts)@),
                ports@,
                views(connected@),
            ),
        forall|machine: Machine| #[trigger]
            fits(machine, final(facts)@) ==> device_view(device) == probed_with_game(
                machine,
                ports@,
                views(connected@),
            ),
{
    let ghost all = views(connected@);
    let ghost asked = questions(facts@);
    let mut i: usize = 0;
    assert(ports@.skip(0) =~= ports@);
    while i < ports.len()
        invariant
            grows(old(facts)@, facts@),
            asked == questions(old(facts)@),
            forall|machine: Machine| #[trigger]
                fits(machine, facts@) ==> asking_ports(machine, asked, ports@, all)
                    == asking_ports(machine, questions(facts@), ports@.skip(i as int), all),
            i <= ports@.len(),
            all == views(connected@),
            forall|machine: Machine| #[trigger]
                fits(machine, facts@) ==> probed_with_game(machine, ports@, all)
                    == probed_with_game(machine, ports@.skip(i as int), all),
        decreases ports@.len() - i,
    {
        let port = ports[i];
        assert(ports@.skip(i as int)[0] == port);
        assert(ports@.skip(i as int).drop_first() =~= ports@.skip(i as int + 1));
        if !port_connected(connected, port) {
            if let Some(serial) = adb_serial_for_address(facts, "127.0.0.1", port, connected) {
                if adb_has_arknights_package(facts, &serial) {
                    return Some((serial, port));
                }
            }
        }
        i += 1;
    }
    assert(ports@.skip(i as int) =~= Seq::<u16>::empty());
    None
}

/// The first device with the game on one of `ports`.
pub fn adb_serial_for_ports(
    facts: &mut Vec<Fact>,
    ports: &Vec<u16>,
    connected: &Vec<String>,
) -> (device: Option<(String, u16)>)
    ensures
        grows(old(facts)@, final(facts)@),
        consistent(old(facts)@) ==> connects_first(
            old(facts)@,
            final(facts)@,
            views(connected@),
        ) && connects_only(
            old(facts)@,
            final(facts)@,
            views(connected@),
            |serial: Seq<char>| is_local_address(ports@, serial),
        ),
        forall|machine: Machine| #[trigger]
            fits(machine, final(facts)@) ==> questions(final(facts)@) == asking_on_ports(
                machine,
                questions(old(facts)@),
                ports@,
                views(connected@),
            ),
        forall|machine: Machine| #[trigger]
            fits(machine, final(facts)@) ==> device_view(device) == device_with_game(
                machine,
                ports@,
                views(connected@),
            ),
{
    let device = match find_connected(facts, ports, connected) {
        Some(device) => Some(device),
        None => find_probed(facts, ports, connected),
    };
    proof {
        let ready = views(connected@);
        let local = |serial: Seq<char>| is_local_address(ports@, serial);
        let asked = questions(old(facts)@);
        assert forall|machine: Machine| #[trigger] fits(machine, facts@) implies order::orderly(
            machine,
            ready,
            local,
            asked,
            questions(facts@),
        ) by {
            order::law_ports_are_connected_to_last(machine, ready, local, asked, ports@);
        }
        if consistent(old(facts)@) {
            order::law_order_of_known_facts(ready, |machine: Machine| local, old(facts)@, facts@);
        }
    }
    device
}

/// The port of the console of an LDPlayer instance.
pub open spec fn console_port(instance_index: u32) -> u32 {
    instance_index.wrapping_mul(2).wrapping_add(5554)
}

pub open spec fn console_serial(instance_index: u32) -> Seq<char> {
    "emulator-"@ + decimal(console_port(instance_index) as nat)
}

/// The device of an LDPlayer instance under its usual name, where that is connected.
pub fn ldplayer_adb_serial_for_instance(instance_index: u32, connected: &Vec<String>) -> (serial:
    Option<String>)
    ensures
        text::opt_view(serial) == if views(connected@).contains(console_serial(instance_index)) {
            Some(console_serial(instance_index))
        } else {
            None
        },
{
    let mut serial = "emulator-".to_owned();
    let port: u32 = instance_index.wrapping_mul(2).wrapping_add(5554);
    text::push_decimal(&mut serial, port as u64);
    if text::list_contains(connected, &serial) {
        Some(serial)
    } else {
        None
    }
}

/// A line of the device list names a device that is ready for use.
pub open spec fn ready_device(line: Seq<char>) -> Option<Seq<char>> {
    let words = words_of(line);
    if words.len() >= 2 && words[1] == "device"@ {
        Some(words[0])
    } else {
        None
    }
}

pub open spec fn ready_devices(lines: Seq<Seq<char>>) -> Seq<Seq<char>>
    decreases lines.len(),
{
    if lines.len() == 0 {
        Seq::empty()
    } else {
        let rest = ready_devices(lines.drop_last());
        match ready_device(lines.last()) {
            Some(serial) => rest.push(serial),
            None => rest,
        }
    }
}

/// The devices that the output of `adb devices` lists as ready, below its heading.
pub fn adb_connected_serials(output: &str) -> (serials: Vec<String>)
    ensures
        views(serials@) == ready_devices(
            if lines_of(output@).len() > 0 {
                lines_of(output@).drop_first()
            } else {
                Seq::empty()
            },
        ),
{
    let lines = text::lines(output);
    let ghost all = lines_of(output@);
    let ghost listed = if all.len() > 0 {
        all.drop_first()
    } else {
        Seq::empty()
    };
    assert(all.len() == lines@.len());
    let mut serials: Vec<String> = Vec::new();
    let mut i: usize = 1;
    assert(listed.take(0) =~= Seq::<Seq<char>>::empty());
    assert(views(serials@) =~= ready_devices(listed.take(0)));
    while i < lines.len()
        invariant
            1 <= i,
            i <= lines@.len() || i == 1,
            all == views(lines@),
            listed == (if all.len() > 0 {
                all.drop_first()
            } else {
                Seq::empty()
            }),
            views(serials@) == ready_devices(listed.take(i - 1)),
        decreases lines@.len() - i,
    {
        let words = text::words(&lines[i]);
        let ghost found = words_of(all[i as int]);
        let ghost before = views(serials@);
        proof {
            assert(all[i as int] == lines@[i as int]@);
            assert(listed.take(i as int).drop_last() =~= listed.take(i - 1));
            assert(listed.take(i as int).last() == all[i as int]);
            assert(found.len() == words@.len());
        }
        if words.len() >= 2 {
            assert(found[0] == words@[0]@ && found[1] == words@[1]@);
            if text::same(&words[1], "device") {
                serials.push(words[0].clone());
                assert(views(serials@) =~= before.push(found[0]));
            }
        }
        i += 1;
    }
    assert(listed.take(i - 1) =~= listed);
    serials
}

/// A device that no emulator has claimed, with nothing known of it but its name.
pub open spec fn generic_target(serial: Seq<char>) -> Found {
    Found {
        kind: TargetKind::Adb,
        fingerprint: "adb:"@ + serial,
        name: "Generic ADB"@,
        detail: serial,
        install_path: None,
        instance_index: None,
        device_id: Some(serial),
        window_handle: None,
        window_title: None,
        window_class: None,
    }
}

/// The device belongs to a target that was found already.
pub open spec fn is_claimed(search: SearchView, serial: Seq<char>) -> bool {
    search.serials.contains(serial) || (port_of(serial) is Some && search.ports.contains(
        port_of(serial)->0 as u16,
    ))
}

/// The connected devices with the game that are no one's, each once.
pub open spec fn with_generic(
    machine: Machine,
    search: SearchView,
    connected: Seq<Seq<char>>,
) -> SearchView
    decreases connected.len(),
{
    if connected.len() == 0 {
        search
    } else {
        let before = with_generic(machine, search, connected.drop_last());
        let serial = connected.last();
        if is_claimed(search, serial) || !has_game(machine, serial)
            || connected.drop_last().contains(serial) {
            before
        } else {
            before.with_target(generic_target(serial))
        }
    }
}

/// What has been asked once the connected devices that are no one's were asked for the game.
pub open spec fn asking_others(
    machine: Machine,
    asked: Seq<Asked>,
    search: SearchView,
    connected: Seq<Seq<char>>,
) -> Seq<Asked>
    decreases connected.len(),
{
    if connected.len() == 0 {
        asked
    } else {
        let before = asking_others(machine, asked, search, connected.drop_last());
        if is_claimed(search, connected.last()) {
            before
        } else {
            asking_for_game(machine, before, connected.last())
        }
    }
}

fn push_generic_adb_candidate(
    search: &mut Search,
    serial: &str,
    previous: Option<&RulerConfig>,
)
    requires
        all_fresh(old(search).candidates@, opt_config(previous)),
    ensures
        final(search)@ == old(search)@.with_target(generic_target(serial@)),
        all_fresh(final(search).candidates@, opt_config(previous)),
{
    let ghost before = search.candidates@;
    let mut fingerprint = "adb:".to_owned();
    fingerprint.append(serial);
    let candidate = new_candidate(
        TargetKind::Adb,
        fingerprint,
        "Generic ADB".to_owned(),
        serial.to_owned(),
        Source {
            install_path: None,
            instance_index: None,
            device_id: Some(serial.to_owned()),
            window_handle: None,
            window_title: None,
            window_class: None,
        },
        previous,
    );
    assert(found(candidate) =~= generic_target(serial@));
    search.add_target(candidate);
}

/// Adds the connected devices with the game that are no one's.
pub fn discover_generic_adb(
    facts: &mut Vec<Fact>,
    connected: &Vec<String>,
    previous: Option<&RulerConfig>,
    search: &mut Search,
)
    requires
        all_fresh(old(search).candidates@, opt_config(previous)),
    ensures
        all_fresh(final(search).candidates@, opt_config(previous)),
        grows(old(facts)@, final(facts)@),
        forall|machine: Machine| #[trigger]
            fits(machine, final(facts)@) ==> questions(final(facts)@) == asking_others(
                machine,
                questions(old(facts)@),
                old(search)@,
                views(connected@),
            ),
        forall|machine: Machine| #[trigger]
            fits(machine, final(facts)@) ==> final(search)@ == with_generic(
                machine,
                old(search)@,
                views(connected@),
            ),
{
    let ghost start = search@;
    let ghost all = views(connected@);
    let ghost asked = questions(facts@);
    let mut i: usize = 0;
    assert(all.take(0) =~= Seq::<Seq<char>>::empty());
    while i < connected.len()
        invariant
            grows(old(facts)@, facts@),
            asked == questions(old(facts)@),
            forall|machine: Machine| #[trigger]
                fits(machine, facts@) ==> questions(facts@) == asking_others(
                    machine,
                    asked,
                    start,
                    all.take(i as int),
                ),
            i <= connected@.len(),
            all == views(connected@),
            start == old(search)@,
            search@.ports == start.ports,
            search@.serials == start.serials,
            all_fresh(search.candidates@, opt_config(previous)),
            forall|machine: Machine| #[trigger]
                fits(machine, facts@) ==> search@ == with_generic(
                    machine,
                    start,
                    all.take(i as int),
                ),
        decreases connected@.len() - i,
    {
        let serial = &connected[i];
        proof {
            assert(all.take(i as int + 1).drop_last() =~= all.take(i as int));
            assert(all.take(i as int + 1).last() == serial@);
        }
        let claimed = text::list_contains(&search.claimed_serials, serial) || match serial_port(
            serial,
        ) {
            Some(port) => port_in(&search.claimed_ports, port),
            None => false,
        };
        assert(claimed == is_claimed(start, serial@));
        if !claimed {
            if adb_has_arknights_package(facts, serial) {
                if !listed_before(connected, i) {
                    push_generic_adb_candidate(search, serial, previous);
                }
            }
        }
        i += 1;
    }
    assert(all.take(i as int) =~= all);
}

/// Whether the text at `n` stands before it too.
fn listed_before(list: &Vec<String>, n: usize) -> (b: bool)
    requires
        n < list@.len(),
    ensures
        b == views(list@).take(n as int).contains(list@[n as int]@),
{
    let ghost head = views(list@).take(n as int);
    let mut i: usize = 0;
    while i < n
        invariant
            i <= n < list@.len(),
            head == views(list@).take(n as int),
            forall|k: int| 0 <= k < i ==> head[k] != list@[n as int]@,
        decreases n - i,
    {
        assert(head[i as int] == list@[i as int]@);
        if text::same(&list[i], &list[n]) {
            return true;
        }
        i += 1;
    }
    false
}

/// The target is one of the devices, with nothing known of it but its name.
pub open spec fn is_plain_device(target: Found, connected: Seq<Seq<char>>) -> bool {
    exists|serial: Seq<char>| #[trigger]
        connected.contains(serial) && target == generic_target(serial)
}

/// A plain device is offered where it is connected, has the game and belongs to no target that was
/// found before; and every such device is offered. What was found before stays in its place.
pub proof fn law_plain_devices_are_those_of_no_one(
    machine: Machine,
    search: SearchView,
    connected: Seq<Seq<char>>,
    serial: Seq<char>,
)
    ensures
        ({
            let after = with_generic(machine, search, connected).found;
            let n = search.found.len() as int;
            &&& after.len() >= n
            &&& after.take(n) == search.found
            &&& after.skip(n).contains(generic_target(serial)) <==> connected.contains(serial)
                && !is_claimed(search, serial) && has_game(machine, serial)
            &&& forall|i: int|
                n <= i < after.len() ==> is_plain_device(#[trigger] after[i], connected)
        }),
    decreases connected.len(),
{
    let n = search.found.len() as int;
    let after = with_generic(machine, search, connected).found;
    if connected.len() == 0 {
        assert(after.take(n) =~= search.found);
        assert(after.skip(n) =~= Seq::<Found>::empty());
    } else {
        let rest = connected.drop_last();
        let last = connected.last();
        let before = with_generic(machine, search, rest).found;
        law_plain_devices_are_those_of_no_one(machine, search, rest, serial);
        law_plain_devices_are_those_of_no_one(machine, search, rest, last);
        assert(connected =~= rest.push(last));
        lemma_listed_once_more(rest, last, serial);
        let added = !(is_claimed(search, last) || !has_game(machine, last) || rest.contains(last));
        if added {
            assert(after =~= before.push(generic_target(last)));
            assert(after.take(n) =~= before.take(n));
            assert(after.skip(n) =~= before.skip(n).push(generic_target(last)));
            lemma_target_names_its_device(serial, last);
            lemma_found_once_more(before.skip(n), generic_target(last), generic_target(serial));
        }
        assert forall|i: int| n <= i < after.len() implies is_plain_device(
            #[trigger] after[i],
            connected,
        ) by {
            if i < before.len() {
                assert(after[i] == before[i]);
                assert(is_plain_device(before[i], rest));
                let other = choose|other: Seq<char>| #[trigger]
                    rest.contains(other) && before[i] == generic_target(other);
                lemma_listed_once_more(rest, last, other);
                assert(connected.contains(other));
            } else {
                lemma_listed_once_more(rest, last, last);
                assert(connected.contains(last));
            }
        }
    }
}

proof fn lemma_listed_once_more(rest: Seq<Seq<char>>, last: Seq<char>, serial: Seq<char>)
    ensures
        rest.push(last).contains(serial) <==> rest.contains(serial) || serial == last,
{
    let all = rest.push(last);
    if rest.contains(serial) {
        let k = choose|k: int| 0 <= k < rest.len() && rest[k] == serial;
        assert(all[k] == serial);
    }
    assert(all[rest.len() as int] == last);
}

proof fn lemma_found_once_more(rest: Seq<Found>, last: Found, target: Found)
    ensures
        rest.push(last).contains(target) <==> rest.contains(target) || target == last,
{
    let all = rest.push(last);
    if rest.contains(target) {
        let k = choose|k: int| 0 <= k < rest.len() && rest[k] == target;
        assert(all[k] == target);
    }
    assert(all[rest.len() as int] == last);
}

proof fn lemma_target_names_its_device(a: Seq<char>, b: Seq<char>)
    ensures
        generic_target(a) == generic_target(b) <==> a == b,
{
    if generic_target(a) == generic_target(b) {
        assert(generic_target(a).detail == generic_target(b).detail);
    }
}

/// The port of an address is the port it was made of; addresses that name this machine in different
/// ways are the same.
pub proof fn law_addresses_tell_their_port(host: Seq<char>, port: u16)
    ensures
        port_of(address(host, port)) == Some(port as int),
        address("localhost"@, port) == address("127.0.0.1"@, port),
        address("0.0.0.0"@, port) == address("127.0.0.1"@, port),
        address(""@, port) == address("127.0.0.1"@, port),
        text::starts_with(address(host, port), usual_host(host)),
        usual_host(usual_host(host)) == usual_host(host),
{
    reveal_strlit("localhost");
    reveal_strlit("0.0.0.0");
    reveal_strlit("127.0.0.1");
    reveal_strlit("");
    lemma_trimmed_plain("localhost"@);
    lemma_trimmed_plain("0.0.0.0"@);
    lemma_trimmed_plain("127.0.0.1"@);
    lemma_trimmed_plain(""@);
    assert("127.0.0.1"@[0] == '1' && "0.0.0.0"@[0] == '0' && "localhost"@[0] == 'l');
    let whole = address(host, port);
    assert(whole.take(usual_host(host).len() as int) =~= usual_host(host));
    crate::telemetry::identity::lemma_trimmed_settles(host);
    text::law_written_numbers_read_back(port as nat, u16::MAX as int);
    lemma_last_part(usual_host(host), decimal(port as nat));
}

proof fn lemma_trimmed_plain(s: Seq<char>)
    requires
        s.len() > 0 ==> !text::is_white_space(s[0]) && !text::is_white_space(s.last()),
    ensures
        trimmed(s) == s,
{
}

proof fn lemma_last_part(front: Seq<char>, last: Seq<char>)
    requires
        forall|i: int| 0 <= i < last.len() ==> text::is_digit(#[trigger] last[i]),
    ensures
        split_on(front + seq![':'] + last, ':').last() == last,
{
    let whole = front + seq![':'] + last;
    text::law_split_parts_join(whole, ':');
    let parts = split_on(whole, ':');
    text::lemma_split_len(whole, ':');
    let tail = parts.last();
    let joint = text::joined_with(parts, ':');
    if parts.len() == 1 {
        assert(joint == parts[0]);
        assert(whole[front.len() as int] == ':');
        assert(parts[0][front.len() as int] == ':');
        assert(!parts[0].contains(':'));
    } else {
        let head = text::joined_with(parts.drop_last(), ':').push(':');
        assert(whole == head + tail);
        assert(!tail.contains(':'));
        let n = head.len() - 1;
        assert(whole[n] == ':');
        if n < front.len() {
            assert(tail[front.len() - head.len()] == whole[front.len() as int]);
            assert(tail.contains(':'));
        } else if n > front.len() {
            assert(whole[n] == last[n - front.len() - 1]);
            assert(text::is_digit(last[n - front.len() - 1]));
        }
        assert(tail =~= last) by {
            assert forall|i: int| 0 <= i < last.len() implies tail[i] == last[i] by {
                assert(whole[head.len() + i] == tail[i]);
            }
        }
    }
}

} // verus!
