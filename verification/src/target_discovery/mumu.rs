//! MuMu emulators: found through their manager program, or through the processes of their virtual
//! machines where the manager cannot be reached.
use crate::config::RulerConfig;
use crate::json;
use crate::json::{
    entry_views, item_text, json_document, json_objects, members_view, object_views, Document,
    DocumentKind, DocumentView,
    ItemView, JsonItem,
};
use crate::paths;
use crate::paths::{joined, joined_all, parent_of};
use crate::target_discovery::adb::{
    adb_has_arknights_package, adb_serial_for_address, adb_serial_for_ports, address,
    asking_for_device, asking_for_game, asking_on_ports, device_at, device_with_game, has_game,
    is_local_address, normalize_adb_host, usual_host,
};
use crate::target_discovery::facts;
use crate::target_discovery::facts::{
    consistent, fits, grows, having_asked, known_machine, path_exists, path_is_there, questions,
    Asked, Fact, Machine, Question,
};
use crate::target_discovery::order;
use crate::target_discovery::order::{connects_first, connects_only};
use crate::target_discovery::process::{
    command_and_path, describe_process, named_number, parse_named_number,
    parse_trailing_segment_number, related_listener_ports, related_ports, trailing_number,
    ProcessInfo, TcpListener,
};
use crate::target_discovery::search::{
    all_fresh, found, new_candidate, opt_config, Found, Search, SearchView,
};
use crate::target_discovery::{
    non_empty, non_empty_text, stable_path, stable_path_text, Source, TargetKind,
};
use crate::text;
use crate::text::{
    contains_text, decimal, is_white_space, lowered, number_at_most, opt_view, same_but_case,
    split_on, starts_with, trimmed, views,
};
use vstd::prelude::*;

verus! {

/// What the manager says of an instance.
#[derive(Debug, PartialEq, Eq)]
pub struct MuMuManagerInfo {
    pub index: u32,
    pub name: Option<String>,
    pub host: String,
    pub port: u16,
}

#[verifier::ext_equal]
pub struct InfoView {
    pub index: u32,
    pub name: Option<Seq<char>>,
    pub host: Seq<char>,
    pub port: u16,
}

impl View for MuMuManagerInfo {
    type V = InfoView;

    open spec fn view(&self) -> InfoView {
        InfoView {
            index: self.index,
            name: opt_view(self.name),
            host: self.host@,
            port: self.port,
        }
    }
}

pub open spec fn info_views(infos: Seq<MuMuManagerInfo>) -> Seq<InfoView> {
    infos.map_values(|info: MuMuManagerInfo| info@)
}

/// The value of the first member of that name.
pub open spec fn member(entries: Seq<(Seq<char>, ItemView)>, key: Seq<char>) -> Option<ItemView>
    decreases entries.len(),
{
    if entries.len() == 0 {
        None
    } else if entries[0].0 == key {
        Some(entries[0].1)
    } else {
        member(entries.drop_first(), key)
    }
}

/// A number up to `max`, written as such or as a text.
pub open spec fn number_in(item: ItemView, max: int) -> Option<int> {
    match item {
        ItemView::Unsigned { value, .. } => if value <= max {
            Some(value as int)
        } else {
            None
        },
        ItemView::Text(s) => number_at_most(trimmed(s), max),
        _ => None,
    }
}

/// A text, or a number as it is written; nothing where nothing is left of it.
pub open spec fn text_in(item: ItemView) -> Option<Seq<char>> {
    let s = match item {
        ItemView::Text(s) => Some(trimmed(s)),
        ItemView::Unsigned { .. } => Some(item_text(item)),
        ItemView::Negative { .. } => Some(item_text(item)),
        ItemView::Float { .. } => Some(item_text(item)),
        _ => None,
    };
    match s {
        Some(s) => if s.len() == 0 {
            None
        } else {
            Some(s)
        },
        None => None,
    }
}

/// What the members of an object say of an instance: it needs an index and a port.
pub open spec fn info_of_members(entries: Seq<(Seq<char>, ItemView)>) -> Option<InfoView> {
    match (member(entries, "index"@), member(entries, "adb_port"@)) {
        (Some(index), Some(port)) => match (
            number_in(index, u32::MAX as int),
            number_in(port, u32::MAX as int),
        ) {
            (Some(index), Some(port)) => if port == 0 || port > u16::MAX {
                None
            } else {
                Some(
                    InfoView {
                        index: index as u32,
                        name: match member(entries, "name"@) {
                            Some(item) => text_in(item),
                            None => None,
                        },
                        host: match member(entries, "adb_host_ip"@) {
                            Some(item) => match text_in(item) {
                                Some(host) => usual_host(host),
                                None => "127.0.0.1"@,
                            },
                            None => "127.0.0.1"@,
                        },
                        port: port as u16,
                    },
                )
            },
            _ => None,
        },
        _ => None,
    }
}

/// What a value says of an instance, given its members where it is an object.
pub open spec fn info_of_value(members: Option<Seq<(Seq<char>, ItemView)>>) -> Option<InfoView> {
    match members {
        Some(members) => info_of_members(members),
        None => None,
    }
}

/// What values say of instances, given the members of each that is an object.
pub open spec fn infos_of_values(objects: Seq<Option<Seq<(Seq<char>, ItemView)>>>) -> Seq<InfoView>
    decreases objects.len(),
{
    if objects.len() == 0 {
        Seq::empty()
    } else {
        let rest = infos_of_values(objects.drop_last());
        match info_of_value(objects.last()) {
            Some(info) => rest.push(info),
            None => rest,
        }
    }
}

/// The object tells of a single instance.
pub open spec fn is_single(entries: Seq<(Seq<char>, ItemView)>) -> bool {
    member(entries, "adb_port"@) is Some || member(entries, "adb_host_ip"@) is Some || member(
        entries,
        "index"@,
    ) is Some
}

/// What a document says of instances: each element of an array, each value of an object, or the
/// object itself. `objects` are the members of those values that are objects.
pub open spec fn infos_of(
    document: DocumentView,
    objects: Seq<Option<Seq<(Seq<char>, ItemView)>>>,
) -> Seq<InfoView> {
    match document.kind {
        DocumentKind::Array => infos_of_values(objects),
        DocumentKind::Object => if is_single(document.entries) {
            match info_of_members(document.entries) {
                Some(info) => seq![info],
                None => Seq::empty(),
            }
        } else {
            infos_of_values(objects)
        },
        DocumentKind::Scalar => Seq::empty(),
    }
}

/// What the manager's output says of its instances.
pub open spec fn infos_of_output(output: Seq<char>) -> Seq<InfoView> {
    match json_document(output) {
        Ok(document) => infos_of(document, json_objects(output, document)),
        Err(_) => Seq::empty(),
    }
}

fn find_member(members: &Vec<(String, JsonItem)>, key: &'static str) -> (item: Option<JsonItem>)
    ensures
        match item {
            Some(item) => member(entry_views(members@), key@) == Some(item@),
            None => member(entry_views(members@), key@) is None,
        },
{
    let ghost entries = entry_views(members@);
    let mut i: usize = 0;
    assert(entries.skip(0) =~= entries);
    while i < members.len()
        invariant
            i <= members@.len() == entries.len(),
            entries == entry_views(members@),
            member(entries, key@) == member(entries.skip(i as int), key@),
        decreases members@.len() - i,
    {
        let entry = &members[i];
        assert(entries[i as int] == (entry.0@, entry.1@));
        assert(entries.skip(i as int)[0] == entries[i as int]);
        if text::same(&entry.0, key) {
            return Some(entry.1.clone());
        }
        assert(entries.skip(i as int).drop_first() =~= entries.skip(i as int + 1));
        i += 1;
    }
    None
}

fn json_number(item: &JsonItem, max: u64) -> (n: Option<u64>)
    ensures
        match n {
            Some(n) => number_in(item@, max as int) == Some(n as int) && n <= max,
            None => number_in(item@, max as int) is None,
        },
{
    match item {
        JsonItem::Unsigned { value, .. } => if *value <= max {
            Some(*value)
        } else {
            None
        },
        JsonItem::Text(s) => text::parse_number(&text::trim(s), max),
        _ => None,
    }
}

fn json_string(item: &JsonItem) -> (s: Option<String>)
    ensures
        opt_view(s) == text_in(item@),
{
    let s = match item {
        JsonItem::Text(s) => text::trim(s),
        JsonItem::Unsigned { .. } => json::write_item(item),
        JsonItem::Negative { .. } => json::write_item(item),
        JsonItem::Float { .. } => json::write_item(item),
        _ => {
            return None;
        },
    };
    if s.as_str().is_empty() {
        None
    } else {
        Some(s)
    }
}

/// What an object says of an instance.
pub fn info_from_members(members: &Vec<(String, JsonItem)>) -> (info: Option<MuMuManagerInfo>)
    ensures
        match info {
            Some(info) => info_of_members(entry_views(members@)) == Some(info@),
            None => info_of_members(entry_views(members@)) is None,
        },
{
    let index = match find_member(members, "index") {
        Some(item) => item,
        None => {
            return None;
        },
    };
    let port = match find_member(members, "adb_port") {
        Some(item) => item,
        None => {
            return None;
        },
    };
    let index: u64 = match json_number(&index, 0xffff_ffff) {
        Some(n) => n,
        None => {
            return None;
        },
    };
    let port: u64 = match json_number(&port, 0xffff_ffff) {
        Some(n) => n,
        None => {
            return None;
        },
    };
    if port == 0 || port > 0xffff {
        return None;
    }
    let host = match find_member(members, "adb_host_ip") {
        Some(item) => match json_string(&item) {
            Some(host) => normalize_adb_host(&host),
            None => "127.0.0.1".to_owned(),
        },
        None => "127.0.0.1".to_owned(),
    };
    let name = match find_member(members, "name") {
        Some(item) => json_string(&item),
        None => None,
    };
    Some(MuMuManagerInfo { index: index as u32, name, host, port: port as u16 })
}

fn parse_mumu_manager_info_value(members: &Option<Vec<(String, JsonItem)>>) -> (info: Option<
    MuMuManagerInfo,
>)
    ensures
        match info {
            Some(info) => info_of_value(members_view(*members)) == Some(info@),
            None => info_of_value(members_view(*members)) is None,
        },
{
    match members {
        Some(members) => info_from_members(members),
        None => None,
    }
}

fn infos_from_values(values: &Vec<Option<Vec<(String, JsonItem)>>>) -> (infos: Vec<
    MuMuManagerInfo,
>)
    ensures
        info_views(infos@) == infos_of_values(object_views(values@)),
{
    let ghost objects = object_views(values@);
    let mut infos: Vec<MuMuManagerInfo> = Vec::new();
    let mut i: usize = 0;
    assert(objects.take(0) =~= Seq::<Option<Seq<(Seq<char>, ItemView)>>>::empty());
    assert(info_views(infos@) =~= Seq::<InfoView>::empty());
    while i < values.len()
        invariant
            i <= values@.len() == objects.len(),
            objects == object_views(values@),
            info_views(infos@) == infos_of_values(objects.take(i as int)),
        decreases values@.len() - i,
    {
        let ghost before = info_views(infos@);
        let members = &values[i];
        proof {
            assert(objects[i as int] == members_view(*members));
            assert(objects.take(i as int + 1).drop_last() =~= objects.take(i as int));
        }
        if let Some(info) = parse_mumu_manager_info_value(members) {
            let ghost added = info@;
            infos.push(info);
            assert(info_views(infos@) =~= before.push(added));
        }
        i += 1;
    }
    assert(objects.take(i as int) =~= objects);
    infos
}

/// What a document says of instances, given the members of its values that are objects.
pub fn infos_from_document(
    document: &Document,
    objects: &Vec<Option<Vec<(String, JsonItem)>>>,
) -> (infos: Vec<MuMuManagerInfo>)
    ensures
        info_views(infos@) == infos_of(document@, object_views(objects@)),
{
    match document.kind {
        DocumentKind::Array => infos_from_values(objects),
        DocumentKind::Object => {
            if find_member(&document.entries, "adb_port").is_some() || find_member(
                &document.entries,
                "adb_host_ip",
            ).is_some() || find_member(&document.entries, "index").is_some() {
                match info_from_members(&document.entries) {
                    Some(info) => {
                        let infos = vec![info];
                        assert(info_views(infos@) =~= seq![info@]);
                        infos
                    },
                    None => {
                        let infos: Vec<MuMuManagerInfo> = Vec::new();
                        assert(info_views(infos@) =~= Seq::<InfoView>::empty());
                        infos
                    },
                }
            } else {
                infos_from_values(objects)
            }
        },
        DocumentKind::Scalar => {
            let infos: Vec<MuMuManagerInfo> = Vec::new();
            assert(info_views(infos@) =~= Seq::<InfoView>::empty());
            infos
        },
    }
}

/// What the manager's output says of its instances.
pub fn parse_mumu_manager_infos(output: &str) -> (infos: Vec<MuMuManagerInfo>)
    ensures
        info_views(infos@) == infos_of_output(output@),
{
    match json::read_document(output) {
        Ok(document) => infos_from_document(&document, &json::read_objects(output, &document)),
        Err(_) => {
            let infos: Vec<MuMuManagerInfo> = Vec::new();
            assert(info_views(infos@) =~= Seq::<InfoView>::empty());
            infos
        },
    }
}

/// The directory holds one of the libraries that an installation has.
pub open spec fn has_library(machine: Machine, dir: Seq<char>) -> bool {
    ||| path_exists(machine, joined(dir, "nx_device/12.0/shell/sdk/external_renderer_ipc.dll"@))
    ||| path_exists(machine, joined(dir, "nx_main/sdk/external_renderer_ipc.dll"@))
    ||| path_exists(machine, joined(dir, "shell/sdk/external_renderer_ipc.dll"@))
}

/// The installation that a file belongs to: the outermost directory around it with a library.
pub open spec fn install_of(machine: Machine, path: Seq<char>) -> Option<Seq<char>>
    decreases path.len(),
{
    match parent_of(path) {
        None => None,
        Some(dir) => {
            proof {
                paths::lemma_parent_is_shorter(path);
            }
            match install_of(machine, dir) {
                Some(outer) => Some(outer),
                None => if has_library(machine, dir) {
                    Some(dir)
                } else {
                    None
                },
            }
        },
    }
}

/// What has been asked once the libraries were looked for in a directory, up to the first that is
/// there.
pub open spec fn asking_for_library(
    machine: Machine,
    asked: Seq<Asked>,
    dir: Seq<char>,
) -> Seq<Asked> {
    let device = joined(dir, "nx_device/12.0/shell/sdk/external_renderer_ipc.dll"@);
    let main = joined(dir, "nx_main/sdk/external_renderer_ipc.dll"@);
    let shell = joined(dir, "shell/sdk/external_renderer_ipc.dll"@);
    let first = having_asked(asked, Asked::Exists(device));
    if path_exists(machine, device) {
        first
    } else {
        let second = having_asked(first, Asked::Exists(main));
        if path_exists(machine, main) {
            second
        } else {
            having_asked(second, Asked::Exists(shell))
        }
    }
}

/// What has been asked once the installation was looked for that a file belongs to: in all
/// directories around it, the innermost first.
pub open spec fn asking_for_install(
    machine: Machine,
    asked: Seq<Asked>,
    path: Seq<char>,
) -> Seq<Asked>
    decreases path.len(),
{
    match parent_of(path) {
        None => asked,
        Some(dir) => {
            proof {
                paths::lemma_parent_is_shorter(path);
            }
            asking_for_install(machine, asking_for_library(machine, asked, dir), dir)
        },
    }
}

fn mumu_dll_exists(facts: &mut Vec<Fact>, dir: &str) -> (b: bool)
    ensures
        grows(old(facts)@, final(facts)@),
        forall|machine: Machine| #[trigger]
            fits(machine, final(facts)@) ==> questions(final(facts)@) == asking_for_library(
                machine,
                questions(old(facts)@),
                dir@,
            ),
        forall|machine: Machine| #[trigger]
            fits(machine, final(facts)@) ==> b == has_library(machine, dir@),
{
    if path_is_there(
        facts,
        &paths::join(dir, "nx_device/12.0/shell/sdk/external_renderer_ipc.dll"),
    ) {
        return true;
    }
    if path_is_there(facts, &paths::join(dir, "nx_main/sdk/external_renderer_ipc.dll")) {
        return true;
    }
    path_is_there(facts, &paths::join(dir, "shell/sdk/external_renderer_ipc.dll"))
}

/// Nothing but assumptions was added; and of every machine that fits, the path is the wanted one, and
/// what was asked is what it takes to find it.
pub open spec fn path_result(
    before: Seq<Fact>,
    after: Seq<Fact>,
    path: Option<String>,
    wanted: spec_fn(Machine) -> Option<Seq<char>>,
    asking: spec_fn(Machine, Seq<Asked>) -> Seq<Asked>,
) -> bool {
    &&& grows(before, after)
    &&& forall|machine: Machine| #[trigger]
        fits(machine, after) ==> opt_view(path) == wanted(machine)
    &&& forall|machine: Machine| #[trigger]
        fits(machine, after) ==> questions(after) == asking(machine, questions(before))
}

/// The installation that a file belongs to.
pub fn resolve_mumu_install_path(facts: &mut Vec<Fact>, path: &str) -> (r: Option<String>)
    ensures
        path_result(
            old(facts)@,
            final(facts)@,
            r,
            |machine: Machine| install_of(machine, path@),
            |machine: Machine, asked: Seq<Asked>| asking_for_install(machine, asked, path@),
        ),
    decreases path@.len(),
{
    match paths::parent(path) {
        None => None,
        Some(dir) => {
            proof {
                paths::lemma_parent_is_shorter(path@);
            }
            // The libraries of the inner directories are looked for first.
            let here = mumu_dll_exists(facts, &dir);
            match resolve_mumu_install_path(facts, &dir) {
                Some(outer) => Some(outer),
                None => if here {
                    Some(dir)
                } else {
                    None
                },
            }
        },
    }
}

/// What separates the parts of a command line or path.
pub open spec fn is_part_end(c: char) -> bool {
    is_white_space(c) || c == '"' || c == '\\' || c == '/'
}

pub open spec fn first_with_prefix(parts: Seq<Seq<char>>, prefix: Seq<char>) -> Option<Seq<char>>
    decreases parts.len(),
{
    if parts.len() == 0 {
        None
    } else if starts_with(parts[0], prefix) {
        Some(parts[0])
    } else {
        first_with_prefix(parts.drop_first(), prefix)
    }
}

pub open spec fn instance_name_in(s: Seq<char>) -> Option<Seq<char>> {
    first_with_prefix(
        split_on(s.map_values(|c: char| if is_part_end(c) { ' ' } else { c }), ' '),
        "MuMuPlayer-12.0-"@,
    )
}

/// The name of the instance that a process belongs to, from its command line or path.
pub open spec fn instance_name(process: ProcessInfo) -> Option<Seq<char>> {
    instance_name_in(command_and_path(process))
}

fn parse_mumu_instance_name(process: &ProcessInfo) -> (name: Option<String>)
    ensures
        opt_view(name) == instance_name(*process),
{
    let described = describe_process(process);
    let chars = text::to_chars(&described);
    let ghost spaced_view = described@.map_values(
        |c: char| if is_part_end(c) { ' ' } else { c },
    );
    let mut spaced = String::new();
    let mut i: usize = 0;
    while i < chars.len()
        invariant
            i <= chars@.len(),
            chars@ == described@,
            spaced_view == described@.map_values(|c: char| if is_part_end(c) { ' ' } else { c }),
            spaced@ == spaced_view.take(i as int),
        decreases chars@.len() - i,
    {
        let c: char = chars[i];
        let ends = text::white_space(c) || c == '"' || c == '\\' || c == '/';
        spaced.push(if ends { ' ' } else { c });
        i += 1;
        assert(spaced@ =~= spaced_view.take(i as int));
    }
    assert(spaced@ =~= spaced_view);
    let parts = text::split(&spaced, ' ');
    let ghost all = views(parts@);
    let mut k: usize = 0;
    assert(all.skip(0) =~= all);
    while k < parts.len()
        invariant
            k <= parts@.len(),
            all == views(parts@),
            first_with_prefix(all, "MuMuPlayer-12.0-"@) == first_with_prefix(
                all.skip(k as int),
                "MuMuPlayer-12.0-"@,
            ),
            instance_name(*process) == first_with_prefix(all, "MuMuPlayer-12.0-"@),
        decreases parts@.len() - k,
    {
        assert(all.skip(k as int)[0] == parts@[k as int]@);
        assert(all.skip(k as int).drop_first() =~= all.skip(k as int + 1));
        if text::has_prefix(&parts[k], "MuMuPlayer-12.0-") {
            return Some(parts[k].clone());
        }
        k += 1;
    }
    assert(all.skip(k as int) =~= Seq::<Seq<char>>::empty());
    None
}

pub open spec fn or_else_int(a: Option<int>, b: Option<int>) -> Option<int> {
    match a {
        Some(n) => Some(n),
        None => b,
    }
}

/// The index of the instance that a process belongs to, from its command line or path.
pub open spec fn instance_index(process: ProcessInfo) -> Option<int> {
    let s = command_and_path(process);
    or_else_int(
        named_number(s, seq!["instance"@, "instance_index"@, "index"@, "playerid"@]),
        or_else_int(trailing_number(s, "12.0-"@), trailing_number(s, "mumu-"@)),
    )
}

pub open spec fn opt_number(n: Option<u32>) -> Option<int> {
    match n {
        Some(n) => Some(n as int),
        None => None,
    }
}

pub fn parse_mumu_instance(process: &ProcessInfo) -> (index: Option<u32>)
    ensures
        opt_number(index) == instance_index(*process),
{
    let s = describe_process(process);
    let names: Vec<&'static str> = vec!["instance", "instance_index", "index", "playerid"];
    assert(names@.map_values(|s: &'static str| s@) =~= seq![
        "instance"@,
        "instance_index"@,
        "index"@,
        "playerid"@,
    ]);
    match parse_named_number(&s, &names) {
        Some(n) => Some(n),
        None => match parse_trailing_segment_number(&s, "12.0-") {
            Some(n) => Some(n),
            None => parse_trailing_segment_number(&s, "mumu-"),
        },
    }
}

pub open spec fn has_text(s: Option<String>, part: Seq<char>) -> bool {
    s is Some && contains_text(s->0@, part)
}

pub open spec fn has_lower_text(s: Option<String>, part: Seq<char>) -> bool {
    s is Some && contains_text(lowered(s->0@), part)
}

fn holds(s: &Option<String>, part: &str) -> (b: bool)
    ensures
        b == has_text(*s, part@),
{
    match s {
        Some(s) => text::contains(s, part),
        None => false,
    }
}

fn holds_lower(s: &Option<String>, part: &str) -> (b: bool)
    ensures
        b == has_lower_text(*s, part@),
{
    match s {
        Some(s) => text::contains(&text::to_lower(s), part),
        None => false,
    }
}

/// The process may tell where the instance `name` is installed.
pub open spec fn knows_install(process: ProcessInfo, name: Option<Seq<char>>) -> bool {
    &&& contains_text(lowered(process.name@), "mumu"@) || has_lower_text(
        process.executable_path,
        "mumu"@,
    )
    &&& match name {
        Some(name) => has_text(process.command_line, name) || has_text(
            process.executable_path,
            name,
        ) || same_but_case(process.name@, "MuMuNxDevice.exe"@),
        None => true,
    }
}

/// The first installation that one of the processes belongs to.
pub open spec fn install_among(
    machine: Machine,
    processes: Seq<ProcessInfo>,
    name: Option<Seq<char>>,
) -> Option<Seq<char>>
    decreases processes.len(),
{
    if processes.len() == 0 {
        None
    } else {
        let rest = install_among(machine, processes.drop_first(), name);
        match processes[0].executable_path {
            Some(path) => if knows_install(processes[0], name) {
                match install_of(machine, path@) {
                    Some(dir) => Some(dir),
                    None => rest,
                }
            } else {
                rest
            },
            None => rest,
        }
    }
}

/// The installation that a process belongs to: its own, or that of a process around the same
/// instance.
pub open spec fn install_for(
    machine: Machine,
    process: ProcessInfo,
    processes: Seq<ProcessInfo>,
) -> Option<Seq<char>> {
    let own = match process.executable_path {
        Some(path) => install_of(machine, path@),
        None => None,
    };
    match own {
        Some(dir) => Some(dir),
        None => install_among(machine, processes, instance_name(process)),
    }
}

/// What has been asked once the installations of the processes were looked for, up to the first that
/// is found.
pub open spec fn asking_among(
    machine: Machine,
    asked: Seq<Asked>,
    processes: Seq<ProcessInfo>,
    name: Option<Seq<char>>,
) -> Seq<Asked>
    decreases processes.len(),
{
    if processes.len() == 0 {
        asked
    } else {
        let rest = processes.drop_first();
        match processes[0].executable_path {
            Some(path) => if knows_install(processes[0], name) {
                let now = asking_for_install(machine, asked, path@);
                match install_of(machine, path@) {
                    Some(_) => now,
                    None => asking_among(machine, now, rest, name),
                }
            } else {
                asking_among(machine, asked, rest, name)
            },
            None => asking_among(machine, asked, rest, name),
        }
    }
}

/// What has been asked once the installation of a process was looked for: its own first.
pub open spec fn asking_install_for(
    machine: Machine,
    asked: Seq<Asked>,
    process: ProcessInfo,
    processes: Seq<ProcessInfo>,
) -> Seq<Asked> {
    match process.executable_path {
        Some(path) => {
            let now = asking_for_install(machine, asked, path@);
            match install_of(machine, path@) {
                Some(_) => now,
                None => asking_among(machine, now, processes, instance_name(process)),
            }
        },
        None => asking_among(machine, asked, processes, instance_name(process)),
    }
}

fn may_know_install(process: &ProcessInfo, name: &Option<String>) -> (b: bool)
    ensures
        b == knows_install(*process, opt_view(*name)),
{
    if !(text::contains(&text::to_lower(&process.name), "mumu") || holds_lower(
        &process.executable_path,
        "mumu",
    )) {
        return false;
    }
    match name {
        Some(name) => holds(&process.command_line, name) || holds(&process.executable_path, name)
            || text::same_ignoring_case(&process.name, "MuMuNxDevice.exe"),
        None => true,
    }
}

/// The installation that a process belongs to.
pub fn resolve_mumu_install_path_for_process(
    facts: &mut Vec<Fact>,
    process: &ProcessInfo,
    processes: &Vec<ProcessInfo>,
) -> (r: Option<String>)
    ensures
        path_result(
            old(facts)@,
            final(facts)@,
            r,
            |machine: Machine| install_for(machine, *process, processes@),
            |machine: Machine, asked: Seq<Asked>|
                asking_install_for(machine, asked, *process, processes@),
        ),
{
    let ghost asked = questions(facts@);
    if let Some(path) = &process.executable_path {
        if let Some(dir) = resolve_mumu_install_path(facts, path) {
            return Some(dir);
        }
    }
    let name = parse_mumu_instance_name(process);
    let ghost wanted = opt_view(name);
    let mut i: usize = 0;
    assert(processes@.skip(0) =~= processes@);
    while i < processes.len()
        invariant
            grows(old(facts)@, facts@),
            asked == questions(old(facts)@),
            forall|machine: Machine| #[trigger]
                fits(machine, facts@) ==> asking_install_for(machine, asked, *process, processes@)
                    == asking_among(
                    machine,
                    questions(facts@),
                    processes@.skip(i as int),
                    wanted,
                ),
            i <= processes@.len(),
            wanted == opt_view(name),
            wanted == instance_name(*process),
            forall|machine: Machine| #[trigger]
                fits(machine, facts@) ==> install_for(machine, *process, processes@)
                    == install_among(machine, processes@.skip(i as int), wanted),
        decreases processes@.len() - i,
    {
        let candidate = &processes[i];
        assert(processes@.skip(i as int)[0] == *candidate);
        assert(processes@.skip(i as int).drop_first() =~= processes@.skip(i as int + 1));
        if let Some(path) = &candidate.executable_path {
            if may_know_install(candidate, &name) {
                if let Some(dir) = resolve_mumu_install_path(facts, path) {
                    return Some(dir);
                }
            }
        }
        i += 1;
    }
    assert(processes@.skip(i as int) =~= Seq::<ProcessInfo>::empty());
    None
}

/// The ways from an installation to the places where its manager can be, the likeliest first.
pub open spec fn ways_to_manager() -> Seq<Seq<Seq<char>>> {
    seq![
        seq!["shell"@, "MuMuManager.exe"@],
        seq!["nx_main"@, "MuMuManager.exe"@],
        seq!["nx_device"@, "12.0"@, "shell"@, "MuMuManager.exe"@],
        seq!["MuMuManager.exe"@],
    ]
}

/// Where the manager of an installation can be, the likeliest first: beside the program of the
/// process, and in the installation.
pub open spec fn manager_places(install_path: Seq<char>, process: ProcessInfo) -> Seq<Seq<char>> {
    let inside = ways_to_manager().map_values(
        |way: Seq<Seq<char>>| joined_all(install_path, way),
    );
    match process.executable_path {
        Some(path) => match parent_of(path@) {
            Some(dir) => seq![joined(dir, "MuMuManager.exe"@)] + inside,
            None => inside,
        },
        None => inside,
    }
}

fn list_manager_places(install_path: &str, process: &ProcessInfo) -> (places: Vec<String>)
    ensures
        views(places@) == manager_places(install_path@, *process),
{
    let mut places: Vec<String> = Vec::new();
    if let Some(path) = &process.executable_path {
        if let Some(dir) = paths::parent(path) {
            places.push(paths::join(&dir, "MuMuManager.exe"));
        }
    }
    let ghost beside = views(places@);
    let ghost inside = ways_to_manager().map_values(
        |way: Seq<Seq<char>>| joined_all(install_path@, way),
    );
    assert(beside + inside =~= manager_places(install_path@, *process));
    let shell: Vec<&str> = vec!["shell", "MuMuManager.exe"];
    let main: Vec<&str> = vec!["nx_main", "MuMuManager.exe"];
    let device: Vec<&str> = vec!["nx_device", "12.0", "shell", "MuMuManager.exe"];
    let here: Vec<&str> = vec!["MuMuManager.exe"];
    proof {
        let ways = ways_to_manager();
        assert(shell@.map_values(|s: &str| s@) =~= ways[0]);
        assert(main@.map_values(|s: &str| s@) =~= ways[1]);
        assert(device@.map_values(|s: &str| s@) =~= ways[2]);
        assert(here@.map_values(|s: &str| s@) =~= ways[3]);
    }
    places.push(paths::join_all(install_path.to_owned(), shell));
    places.push(paths::join_all(install_path.to_owned(), main));
    places.push(paths::join_all(install_path.to_owned(), device));
    places.push(paths::join_all(install_path.to_owned(), here));
    assert(views(places@) =~= beside + inside);
    places
}

pub open spec fn first_there(machine: Machine, places: Seq<Seq<char>>) -> Option<Seq<char>>
    decreases places.len(),
{
    if places.len() == 0 {
        None
    } else if path_exists(machine, places[0]) {
        Some(places[0])
    } else {
        first_there(machine, places.drop_first())
    }
}

/// What has been asked once one of the places was looked for, up to the first that is there.
pub open spec fn asking_places(
    machine: Machine,
    asked: Seq<Asked>,
    places: Seq<Seq<char>>,
) -> Seq<Asked>
    decreases places.len(),
{
    if places.len() == 0 {
        asked
    } else {
        let now = having_asked(asked, Asked::Exists(places[0]));
        if path_exists(machine, places[0]) {
            now
        } else {
            asking_places(machine, now, places.drop_first())
        }
    }
}

fn find_there(facts: &mut Vec<Fact>, places: &Vec<String>) -> (r: Option<String>)
    ensures
        path_result(
            old(facts)@,
            final(facts)@,
            r,
            |machine: Machine| first_there(machine, views(places@)),
            |machine: Machine, asked: Seq<Asked>| asking_places(machine, asked, views(places@)),
        ),
{
    let ghost all = views(places@);
    let ghost asked = questions(facts@);
    let mut i: usize = 0;
    assert(all.skip(0) =~= all);
    while i < places.len()
        invariant
            grows(old(facts)@, facts@),
            asked == questions(old(facts)@),
            forall|machine: Machine| #[trigger]
                fits(machine, facts@) ==> asking_places(machine, asked, all)
                    == asking_places(machine, questions(facts@), all.skip(i as int)),
            i <= places@.len(),
            all == views(places@),
            forall|machine: Machine| #[trigger]
                fits(machine, facts@) ==> first_there(machine, all) == first_there(
                    machine,
                    all.skip(i as int),
                ),
        decreases places@.len() - i,
    {
        assert(all.skip(i as int)[0] == places@[i as int]@);
        assert(all.skip(i as int).drop_first() =~= all.skip(i as int + 1));
        if path_is_there(facts, &places[i]) {
            return Some(places[i].clone());
        }
        i += 1;
    }
    assert(all.skip(i as int) =~= Seq::<Seq<char>>::empty());
    None
}

/// The manager of an installation.
pub fn resolve_mumu_manager_path(
    facts: &mut Vec<Fact>,
    install_path: &str,
    process: &ProcessInfo,
) -> (r: Option<String>)
    ensures
        path_result(
            old(facts)@,
            final(facts)@,
            r,
            |machine: Machine| first_there(machine, manager_places(install_path@, *process)),
            |machine: Machine, asked: Seq<Asked>|
                asking_places(machine, asked, manager_places(install_path@, *process)),
        ),
{
    let places = list_manager_places(install_path, process);
    find_there(facts, &places)
}

pub open spec fn is_discovery_name(name: Seq<char>) -> bool {
    same_but_case(name, "MuMuPlayer.exe"@) || same_but_case(name, "MuMuNxDevice.exe"@)
        || same_but_case(name, "MuMuVMMHeadless.exe"@) || same_but_case(name, "NemuPlayer.exe"@)
}

fn is_mumu_discovery_process(name: &str) -> (b: bool)
    ensures
        b == is_discovery_name(name@),
{
    text::same_ignoring_case(name, "MuMuPlayer.exe") || text::same_ignoring_case(
        name,
        "MuMuNxDevice.exe",
    ) || text::same_ignoring_case(name, "MuMuVMMHeadless.exe") || text::same_ignoring_case(
        name,
        "NemuPlayer.exe",
    )
}

/// An installation and its manager.
#[derive(Debug)]
pub struct MuMuInstall {
    pub install_path: String,
    pub manager_path: String,
}

pub open spec fn install_views(installs: Seq<MuMuInstall>) -> Seq<(Seq<char>, Seq<char>)> {
    installs.map_values(|install: MuMuInstall| (install.install_path@, install.manager_path@))
}

/// One of the installations has this manager, in whatever spelling.
pub open spec fn manager_known(
    installs: Seq<(Seq<char>, Seq<char>)>,
    manager: Seq<char>,
) -> bool {
    exists|i: int|
        0 <= i < installs.len() && stable_path_text((#[trigger] installs[i]).1)
            == stable_path_text(manager)
}

/// The installation of a process with its manager, where both can be found.
pub open spec fn tool_of(
    machine: Machine,
    process: ProcessInfo,
    processes: Seq<ProcessInfo>,
) -> Option<(Seq<char>, Seq<char>)> {
    if !is_discovery_name(process.name@) {
        None
    } else {
        match install_for(machine, process, processes) {
            Some(install) => match first_there(machine, manager_places(install, process)) {
                Some(manager) => Some((install, manager)),
                None => None,
            },
            None => None,
        }
    }
}

/// The installations of the first `n` processes, each manager once.
pub open spec fn tools(machine: Machine, processes: Seq<ProcessInfo>, n: int) -> Seq<
    (Seq<char>, Seq<char>),
>
    decreases n,
{
    if n <= 0 {
        Seq::empty()
    } else {
        let before = tools(machine, processes, n - 1);
        match tool_of(machine, processes[n - 1], processes) {
            Some(tool) => if manager_known(before, tool.1) {
                before
            } else {
                before.push(tool)
            },
            None => before,
        }
    }
}

/// What has been asked once the installation of a process and its manager were looked for.
pub open spec fn asking_for_tool(
    machine: Machine,
    asked: Seq<Asked>,
    process: ProcessInfo,
    processes: Seq<ProcessInfo>,
) -> Seq<Asked> {
    if !is_discovery_name(process.name@) {
        asked
    } else {
        let now = asking_install_for(machine, asked, process, processes);
        match install_for(machine, process, processes) {
            Some(install) => asking_places(machine, now, manager_places(install, process)),
            None => now,
        }
    }
}

/// What has been asked once the installations of the first `n` processes were looked for.
pub open spec fn asking_for_tools(
    machine: Machine,
    asked: Seq<Asked>,
    processes: Seq<ProcessInfo>,
    n: int,
) -> Seq<Asked>
    decreases n,
{
    if n <= 0 {
        asked
    } else {
        asking_for_tool(
            machine,
            asking_for_tools(machine, asked, processes, n - 1),
            processes[n - 1],
            processes,
        )
    }
}

fn has_manager(installs: &Vec<MuMuInstall>, manager: &str) -> (b: bool)
    ensures
        b == manager_known(install_views(installs@), manager@),
{
    let ghost all = install_views(installs@);
    let wanted = stable_path(manager);
    let mut i: usize = 0;
    while i < installs.len()
        invariant
            i <= installs@.len(),
            all == install_views(installs@),
            wanted@ == stable_path_text(manager@),
            forall|k: int| 0 <= k < i ==> stable_path_text((#[trigger] all[k]).1) != wanted@,
        decreases installs@.len() - i,
    {
        assert(all[i as int] == (installs@[i as int].install_path@, installs@[i as int].manager_path@));
        if text::same(&stable_path(&installs[i].manager_path), &wanted) {
            return true;
        }
        i += 1;
    }
    false
}

/// The installations that the running processes lead to, each manager once.
pub fn discover_mumu_tool_installs(
    facts: &mut Vec<Fact>,
    processes: &Vec<ProcessInfo>,
) -> (installs: Vec<MuMuInstall>)
    ensures
        grows(old(facts)@, final(facts)@),
        forall|machine: Machine| #[trigger]
            fits(machine, final(facts)@) ==> questions(final(facts)@) == asking_for_tools(
                machine,
                questions(old(facts)@),
                processes@,
                processes@.len() as int,
            ),
        forall|machine: Machine| #[trigger]
            fits(machine, final(facts)@) ==> install_views(installs@) == tools(
                machine,
                processes@,
                processes@.len() as int,
            ),
{
    let mut installs: Vec<MuMuInstall> = Vec::new();
    let ghost asked = questions(facts@);
    let mut i: usize = 0;
    assert(install_views(installs@) =~= Seq::<(Seq<char>, Seq<char>)>::empty());
    while i < processes.len()
        invariant
            grows(old(facts)@, facts@),
            asked == questions(old(facts)@),
            forall|machine: Machine| #[trigger]
                fits(machine, facts@) ==> questions(facts@)
                    == asking_for_tools(machine, asked, processes@, i as int),
            i <= processes@.len(),
            forall|machine: Machine| #[trigger]
                fits(machine, facts@) ==> install_views(installs@) == tools(
                    machine,
                    processes@,
                    i as int,
                ),
        decreases processes@.len() - i,
    {
        let process = &processes[i];
        let ghost before = install_views(installs@);
        if is_mumu_discovery_process(&process.name) {
            if let Some(install_path) = resolve_mumu_install_path_for_process(
                facts,
                process,
                processes,
            ) {
                if let Some(manager_path) = resolve_mumu_manager_path(
                    facts,
                    &install_path,
                    process,
                ) {
                    if !has_manager(&installs, &manager_path) {
                        let ghost added = (install_path@, manager_path@);
                        installs.push(MuMuInstall { install_path, manager_path });
                        assert(install_views(installs@) =~= before.push(added));
                    }
                }
            }
        }
        i += 1;
    }
    installs
}

/// An instance that was found.
pub open spec fn mumu_target(
    install_path: Seq<char>,
    index: u32,
    name: Option<Seq<char>>,
    serial: Seq<char>,
) -> Found {
    Found {
        kind: TargetKind::MuMu,
        fingerprint: "mumu:"@ + stable_path_text(install_path) + seq![':'] + decimal(index as nat),
        name: match non_empty_text(name) {
            Some(name) => name,
            None => "MuMu #"@ + decimal(index as nat),
        },
        detail: serial + " | "@ + install_path,
        install_path: Some(install_path),
        instance_index: Some(index),
        device_id: Some(serial),
        window_handle: None,
        window_title: None,
        window_class: None,
    }
}

fn push_mumu_candidate(
    search: &mut Search,
    install_path: &str,
    index: u32,
    display_name: &Option<String>,
    serial: String,
    port: u16,
    previous: Option<&RulerConfig>,
)
    requires
        all_fresh(old(search).candidates@, opt_config(previous)),
    ensures
        final(search)@ == old(search)@.with_device(
            mumu_target(install_path@, index, opt_view(*display_name), serial@),
            port,
            serial@,
        ),
        all_fresh(final(search).candidates@, opt_config(previous)),
{
    let mut fingerprint = "mumu:".to_owned();
    fingerprint.append(&stable_path(install_path));
    fingerprint.push(':');
    text::push_decimal(&mut fingerprint, index as u64);
    let name = match non_empty(display_name) {
        Some(name) => name,
        None => {
            let mut name = "MuMu #".to_owned();
            text::push_decimal(&mut name, index as u64);
            name
        },
    };
    let mut detail = serial.clone();
    detail.append(" | ");
    detail.append(install_path);
    let candidate = new_candidate(
        TargetKind::MuMu,
        fingerprint,
        name,
        detail,
        Source {
            install_path: Some(install_path.to_owned()),
            instance_index: Some(index),
            device_id: Some(serial.clone()),
            window_handle: None,
            window_title: None,
            window_class: None,
        },
        previous,
    );
    assert(found(candidate) =~= mumu_target(
        install_path@,
        index,
        opt_view(*display_name),
        serial@,
    ));
    search.add_device(candidate, port, serial);
}

/// With the instances that a manager tells of, as far as they are reachable and have the game.
pub open spec fn with_infos(
    machine: Machine,
    search: SearchView,
    install_path: Seq<char>,
    infos: Seq<InfoView>,
    connected: Seq<Seq<char>>,
) -> SearchView
    decreases infos.len(),
{
    if infos.len() == 0 {
        search
    } else {
        let before = with_infos(machine, search, install_path, infos.drop_last(), connected);
        let info = infos.last();
        match device_at(machine, info.host, info.port, connected) {
            Some(serial) => if has_game(machine, serial) {
                before.with_device(
                    mumu_target(install_path, info.index, info.name, serial),
                    info.port,
                    serial,
                )
            } else {
                before
            },
            None => before,
        }
    }
}

/// With the instances of the given installations.
pub open spec fn with_tools(
    machine: Machine,
    search: SearchView,
    installs: Seq<(Seq<char>, Seq<char>)>,
    connected: Seq<Seq<char>>,
) -> SearchView
    decreases installs.len(),
{
    if installs.len() == 0 {
        search
    } else {
        let before = with_tools(machine, search, installs.drop_last(), connected);
        let (install, manager) = installs.last();
        match machine(Asked::MuMuInfo(manager)) {
            Some(output) => with_infos(
                machine,
                before,
                install,
                infos_of_output(output),
                connected,
            ),
            None => before,
        }
    }
}

/// The index of the first process around the same instance that tells one.
pub open spec fn index_among(processes: Seq<ProcessInfo>, name: Option<Seq<char>>) -> Option<int>
    decreases processes.len(),
{
    if processes.len() == 0 {
        None
    } else {
        let process = processes[0];
        let concerned = contains_text(lowered(process.name@), "mumu"@) || has_lower_text(
            process.executable_path,
            "mumu"@,
        ) || has_text(process.command_line, "MuMuPlayer-12.0-"@);
        let same_instance = match name {
            Some(name) => has_text(process.command_line, name) || has_text(
                process.executable_path,
                name,
            ),
            None => true,
        };
        let rest = index_among(processes.drop_first(), name);
        if concerned && same_instance {
            or_else_int(instance_index(process), rest)
        } else {
            rest
        }
    }
}

/// The index of the instance of a virtual machine: told by itself, by a process around it, by its
/// name, or else zero.
pub open spec fn headless_index(headless: ProcessInfo, processes: Seq<ProcessInfo>) -> int {
    let name = instance_name(headless);
    let told = or_else_int(
        instance_index(headless),
        or_else_int(
            index_among(processes, name),
            match name {
                Some(name) => trailing_number(name, "12.0-"@),
                None => None,
            },
        ),
    );
    match told {
        Some(n) => n,
        None => 0,
    }
}

fn find_index(processes: &Vec<ProcessInfo>, name: &Option<String>) -> (index: Option<u32>)
    ensures
        opt_number(index) == index_among(processes@, opt_view(*name)),
{
    let ghost wanted = opt_view(*name);
    let mut i: usize = 0;
    assert(processes@.skip(0) =~= processes@);
    while i < processes.len()
        invariant
            i <= processes@.len(),
            wanted == opt_view(*name),
            index_among(processes@, wanted) == index_among(processes@.skip(i as int), wanted),
        decreases processes@.len() - i,
    {
        let process = &processes[i];
        assert(processes@.skip(i as int)[0] == *process);
        assert(processes@.skip(i as int).drop_first() =~= processes@.skip(i as int + 1));
        let concerned = text::contains(&text::to_lower(&process.name), "mumu") || holds_lower(
            &process.executable_path,
            "mumu",
        ) || holds(&process.command_line, "MuMuPlayer-12.0-");
        let same_instance = match name {
            Some(name) => holds(&process.command_line, name) || holds(
                &process.executable_path,
                name,
            ),
            None => true,
        };
        if concerned && same_instance {
            if let Some(index) = parse_mumu_instance(process) {
                return Some(index);
            }
        }
        i += 1;
    }
    assert(processes@.skip(i as int) =~= Seq::<ProcessInfo>::empty());
    None
}

fn find_headless_index(headless: &ProcessInfo, processes: &Vec<ProcessInfo>) -> (index: u32)
    ensures
        index == headless_index(*headless, processes@),
{
    if let Some(index) = parse_mumu_instance(headless) {
        return index;
    }
    let name = parse_mumu_instance_name(headless);
    if let Some(index) = find_index(processes, &name) {
        return index;
    }
    match &name {
        Some(name) => match parse_trailing_segment_number(name, "12.0-") {
            Some(index) => index,
            None => 0,
        },
        None => 0,
    }
}

/// What the processes on a machine listen on, and which devices are connected.
pub struct Surroundings {
    pub processes: Vec<ProcessInfo>,
    pub listeners: Vec<TcpListener>,
    pub connected: Vec<String>,
}

/// The instance of a virtual machine, as far as it is reachable and has the game.
pub open spec fn headless_target(
    machine: Machine,
    around: Surroundings,
    process: ProcessInfo,
) -> Option<(Found, u16, Seq<char>)> {
    if !same_but_case(process.name@, "MuMuVMMHeadless.exe"@) || process.executable_path is None {
        None
    } else {
        match install_for(machine, process, around.processes@) {
            Some(install) => match device_with_game(
                machine,
                related_ports(process, Some(install), around.processes@, around.listeners@),
                views(around.connected@),
            ) {
                Some((serial, port)) => Some(
                    (
                        mumu_target(
                            install,
                            headless_index(process, around.processes@) as u32,
                            None,
                            serial,
                        ),
                        port,
                        serial,
                    ),
                ),
                None => None,
            },
            None => None,
        }
    }
}

/// With the virtual machines among the first `n` processes.
pub open spec fn with_headless(
    machine: Machine,
    search: SearchView,
    around: Surroundings,
    n: int,
) -> SearchView
    decreases n,
{
    if n <= 0 {
        search
    } else {
        let before = with_headless(machine, search, around, n - 1);
        match headless_target(machine, around, around.processes@[n - 1]) {
            Some((target, port, serial)) => before.with_device(target, port, serial),
            None => before,
        }
    }
}

/// With all MuMu instances: those that managers tell of, and the virtual machines that run.
pub open spec fn with_mumu(
    machine: Machine,
    search: SearchView,
    around: Surroundings,
) -> SearchView {
    let installs = tools(machine, around.processes@, around.processes@.len() as int);
    with_headless(
        machine,
        with_tools(machine, search, installs, views(around.connected@)),
        around,
        around.processes@.len() as int,
    )
}

/// What has been asked once the instances were looked for that a manager tells of.
pub open spec fn asking_infos(
    machine: Machine,
    asked: Seq<Asked>,
    infos: Seq<InfoView>,
    connected: Seq<Seq<char>>,
) -> Seq<Asked>
    decreases infos.len(),
{
    if infos.len() == 0 {
        asked
    } else {
        let before = asking_infos(machine, asked, infos.drop_last(), connected);
        let info = infos.last();
        let now = asking_for_device(machine, before, info.host, info.port, connected);
        match device_at(machine, info.host, info.port, connected) {
            Some(serial) => asking_for_game(machine, now, serial),
            None => now,
        }
    }
}

/// What has been asked once the managers of the given installations were asked for their instances,
/// and these were looked for.
pub open spec fn asking_managers(
    machine: Machine,
    asked: Seq<Asked>,
    installs: Seq<(Seq<char>, Seq<char>)>,
    connected: Seq<Seq<char>>,
) -> Seq<Asked>
    decreases installs.len(),
{
    if installs.len() == 0 {
        asked
    } else {
        let before = asking_managers(machine, asked, installs.drop_last(), connected);
        let manager = installs.last().1;
        let now = having_asked(before, Asked::MuMuInfo(manager));
        match machine(Asked::MuMuInfo(manager)) {
            Some(output) => asking_infos(machine, now, infos_of_output(output), connected),
            None => now,
        }
    }
}

/// What has been asked once the instance of a virtual machine was looked for.
pub open spec fn asking_for_headless(
    machine: Machine,
    asked: Seq<Asked>,
    around: Surroundings,
    process: ProcessInfo,
) -> Seq<Asked> {
    if !same_but_case(process.name@, "MuMuVMMHeadless.exe"@) || process.executable_path is None {
        asked
    } else {
        let now = asking_install_for(machine, asked, process, around.processes@);
        match install_for(machine, process, around.processes@) {
            Some(install) => asking_on_ports(
                machine,
                now,
                related_ports(process, Some(install), around.processes@, around.listeners@),
                views(around.connected@),
            ),
            None => now,
        }
    }
}

/// What has been asked once the virtual machines among the first `n` processes were looked for.
pub open spec fn asking_all_headless(
    machine: Machine,
    asked: Seq<Asked>,
    around: Surroundings,
    n: int,
) -> Seq<Asked>
    decreases n,
{
    if n <= 0 {
        asked
    } else {
        asking_for_headless(
            machine,
            asking_all_headless(machine, asked, around, n - 1),
            around,
            around.processes@[n - 1],
        )
    }
}

/// What has been asked once all MuMu instances were looked for.
pub open spec fn asking_for_mumu(
    machine: Machine,
    asked: Seq<Asked>,
    around: Surroundings,
) -> Seq<Asked> {
    let n = around.processes@.len() as int;
    let found = asking_for_tools(machine, asked, around.processes@, n);
    let told = asking_managers(
        machine,
        found,
        tools(machine, around.processes@, n),
        views(around.connected@),
    );
    asking_all_headless(machine, told, around, n)
}

/// The manager tells of an instance at this address.
pub open spec fn tells_of(machine: Machine, manager: Seq<char>, serial: Seq<char>) -> bool {
    machine(Asked::MuMuInfo(manager)) matches Some(output) && is_told(
        infos_of_output(output),
        serial,
    )
}

/// One of the instances is at this address.
pub open spec fn is_told(infos: Seq<InfoView>, serial: Seq<char>) -> bool {
    exists|k: int|
        0 <= k < infos.len() && serial == address((#[trigger] infos[k]).host, infos[k].port)
}

/// A virtual machine, or a process around it, listens at this address.
pub open spec fn listens_at(
    machine: Machine,
    around: Surroundings,
    process: ProcessInfo,
    serial: Seq<char>,
) -> bool {
    &&& same_but_case(process.name@, "MuMuVMMHeadless.exe"@)
    &&& install_for(machine, process, around.processes@) matches Some(install)
    &&& is_local_address(
        related_ports(process, Some(install), around.processes@, around.listeners@),
        serial,
    )
}

/// The address belongs to a MuMu instance: a manager tells of it, or a virtual machine listens there.
pub open spec fn is_instance_address(
    machine: Machine,
    around: Surroundings,
    serial: Seq<char>,
) -> bool {
    let installs = tools(machine, around.processes@, around.processes@.len() as int);
    ||| exists|i: int|
        0 <= i < installs.len() && tells_of(machine, (#[trigger] installs[i]).1, serial)
    ||| exists|p: int|
        0 <= p < around.processes@.len() && listens_at(
            machine,
            around,
            #[trigger] around.processes@[p],
            serial,
        )
}

fn add_infos(
    facts: &mut Vec<Fact>,
    search: &mut Search,
    install_path: &str,
    infos: &Vec<MuMuManagerInfo>,
    connected: &Vec<String>,
    previous: Option<&RulerConfig>,
)
    requires
        all_fresh(old(search).candidates@, opt_config(previous)),
    ensures
        all_fresh(final(search).candidates@, opt_config(previous)),
        grows(old(facts)@, final(facts)@),
        forall|machine: Machine| #[trigger]
            fits(machine, final(facts)@) ==> questions(final(facts)@) == asking_infos(
                machine,
                questions(old(facts)@),
                info_views(infos@),
                views(connected@),
            ),
        forall|machine: Machine| #[trigger]
            fits(machine, final(facts)@) ==> final(search)@ == with_infos(
                machine,
                old(search)@,
                install_path@,
                info_views(infos@),
                views(connected@),
            ),
{
    let ghost start = search@;
    let ghost all = info_views(infos@);
    let ghost asked = questions(facts@);
    let mut i: usize = 0;
    assert(all.take(0) =~= Seq::<InfoView>::empty());
    while i < infos.len()
        invariant
            grows(old(facts)@, facts@),
            asked == questions(old(facts)@),
            forall|machine: Machine| #[trigger]
                fits(machine, facts@) ==> questions(facts@)
                    == asking_infos(machine, asked, all.take(i as int), views(connected@)),
            i <= infos@.len(),
            all == info_views(infos@),
            start == old(search)@,
            all_fresh(search.candidates@, opt_config(previous)),
            forall|machine: Machine| #[trigger]
                fits(machine, facts@) ==> search@ == with_infos(
                    machine,
                    start,
                    install_path@,
                    all.take(i as int),
                    views(connected@),
                ),
        decreases infos@.len() - i,
    {
        let info = &infos[i];
        proof {
            assert(all.take(i as int + 1).drop_last() =~= all.take(i as int));
            assert(all.take(i as int + 1).last() == info@);
        }
        if let Some(serial) = adb_serial_for_address(facts, &info.host, info.port, connected) {
            if adb_has_arknights_package(facts, &serial) {
                push_mumu_candidate(
                    search,
                    install_path,
                    info.index,
                    &info.name,
                    serial,
                    info.port,
                    previous,
                );
            }
        }
        i += 1;
    }
    assert(all.take(i as int) =~= all);
}

fn add_tools(
    facts: &mut Vec<Fact>,
    search: &mut Search,
    installs: &Vec<MuMuInstall>,
    connected: &Vec<String>,
    previous: Option<&RulerConfig>,
)
    requires
        all_fresh(old(search).candidates@, opt_config(previous)),
    ensures
        all_fresh(final(search).candidates@, opt_config(previous)),
        grows(old(facts)@, final(facts)@),
        forall|machine: Machine| #[trigger]
            fits(machine, final(facts)@) ==> questions(final(facts)@) == asking_managers(
                machine,
                questions(old(facts)@),
                install_views(installs@),
                views(connected@),
            ),
        forall|machine: Machine| #[trigger]
            fits(machine, final(facts)@) ==> final(search)@ == with_tools(
                machine,
                old(search)@,
                install_views(installs@),
                views(connected@),
            ),
{
    let ghost start = search@;
    let ghost all = install_views(installs@);
    let ghost asked = questions(facts@);
    let mut i: usize = 0;
    assert(all.take(0) =~= Seq::<(Seq<char>, Seq<char>)>::empty());
    while i < installs.len()
        invariant
            grows(old(facts)@, facts@),
            asked == questions(old(facts)@),
            forall|machine: Machine| #[trigger]
                fits(machine, facts@) ==> questions(facts@)
                    == asking_managers(machine, asked, all.take(i as int), views(connected@)),
            i <= installs@.len(),
            all == install_views(installs@),
            start == old(search)@,
            all_fresh(search.candidates@, opt_config(previous)),
            forall|machine: Machine| #[trigger]
                fits(machine, facts@) ==> search@ == with_tools(
                    machine,
                    start,
                    all.take(i as int),
                    views(connected@),
                ),
        decreases installs@.len() - i,
    {
        let install = &installs[i];
        proof {
            assert(all.take(i as int + 1).drop_last() =~= all.take(i as int));
            assert(all.take(i as int + 1).last() == (install.install_path@, install.manager_path@));
        }
        if let Some(output) = facts::ask(
            facts,
            Question::MuMuInfo { program: install.manager_path.clone() },
        ) {
            let infos = parse_mumu_manager_infos(&output);
            add_infos(facts, search, &install.install_path, &infos, connected, previous);
        }
        i += 1;
    }
    assert(all.take(i as int) =~= all);
}

fn add_headless(
    facts: &mut Vec<Fact>,
    search: &mut Search,
    around: &Surroundings,
    previous: Option<&RulerConfig>,
)
    requires
        all_fresh(old(search).candidates@, opt_config(previous)),
    ensures
        all_fresh(final(search).candidates@, opt_config(previous)),
        grows(old(facts)@, final(facts)@),
        forall|machine: Machine| #[trigger]
            fits(machine, final(facts)@) ==> questions(final(facts)@) == asking_all_headless(
                machine,
                questions(old(facts)@),
                *around,
                around.processes@.len() as int,
            ),
        forall|machine: Machine| #[trigger]
            fits(machine, final(facts)@) ==> final(search)@ == with_headless(
                machine,
                old(search)@,
                *around,
                around.processes@.len() as int,
            ),
{
    let ghost start = search@;
    let ghost asked = questions(facts@);
    let mut i: usize = 0;
    while i < around.processes.len()
        invariant
            grows(old(facts)@, facts@),
            asked == questions(old(facts)@),
            forall|machine: Machine| #[trigger]
                fits(machine, facts@) ==> questions(facts@)
                    == asking_all_headless(machine, asked, *around, i as int),
            i <= around.processes@.len(),
            start == old(search)@,
            all_fresh(search.candidates@, opt_config(previous)),
            forall|machine: Machine| #[trigger]
                fits(machine, facts@) ==> search@ == with_headless(
                    machine,
                    start,
                    *around,
                    i as int,
                ),
        decreases around.processes@.len() - i,
    {
        let process = &around.processes[i];
        if text::same_ignoring_case(&process.name, "MuMuVMMHeadless.exe")
            && process.executable_path.is_some() {
            if let Some(install_path) = resolve_mumu_install_path_for_process(
                facts,
                process,
                &around.processes,
            ) {
                let index: u32 = find_headless_index(process, &around.processes);
                let ports = related_listener_ports(
                    process,
                    Some(install_path.as_str()),
                    &around.processes,
                    &around.listeners,
                );
                if let Some((serial, port)) = adb_serial_for_ports(
                    facts,
                    &ports,
                    &around.connected,
                ) {
                    push_mumu_candidate(
                        search,
                        &install_path,
                        index,
                        &None,
                        serial,
                        port,
                        previous,
                    );
                }
            }
        }
        i += 1;
    }
}

/// Adds all MuMu instances that are reachable and have the game.
pub fn discover_mumu(
    facts: &mut Vec<Fact>,
    around: &Surroundings,
    previous: Option<&RulerConfig>,
    search: &mut Search,
)
    requires
        all_fresh(old(search).candidates@, opt_config(previous)),
    ensures
        all_fresh(final(search).candidates@, opt_config(previous)),
        grows(old(facts)@, final(facts)@),
        consistent(old(facts)@) ==> connects_first(
            old(facts)@,
            final(facts)@,
            views(around.connected@),
        ) && connects_only(
            old(facts)@,
            final(facts)@,
            views(around.connected@),
            |serial: Seq<char>|
                is_instance_address(known_machine(final(facts)@), *around, serial),
        ),
        forall|machine: Machine| #[trigger]
            fits(machine, final(facts)@) ==> questions(final(facts)@) == asking_for_mumu(
                machine,
                questions(old(facts)@),
                *around,
            ),
        forall|machine: Machine| #[trigger]
            fits(machine, final(facts)@) ==> final(search)@ == with_mumu(
                machine,
                old(search)@,
                *around,
            ),
{
    let installs = discover_mumu_tool_installs(facts, &around.processes);
    add_tools(facts, search, &installs, &around.connected, previous);
    add_headless(facts, search, around, previous);
    proof {
        let connected = views(around.connected@);
        let asked = questions(old(facts)@);
        let instances = |machine: Machine|
            |serial: Seq<char>| is_instance_address(machine, *around, serial);
        assert forall|machine: Machine| #[trigger] fits(machine, facts@) implies order::orderly(
            machine,
            connected,
            instances(machine),
            asked,
            questions(facts@),
        ) by {
            order::law_mumu_is_looked_for_in_order(machine, asked, *around);
        }
        if consistent(old(facts)@) {
            order::law_order_of_known_facts(connected, instances, old(facts)@, facts@);
        }
    }
}

} // verus!
