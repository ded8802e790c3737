//! The `adb` programs that come with emulators.
use crate::paths;
use crate::paths::joined;
use crate::target_discovery::facts;
use crate::target_discovery::facts::{
    fits, grows, having_asked, questions, Asked, Fact, Machine, Question,
};
use crate::target_discovery::ldplayer;
use crate::target_discovery::mumu;
use crate::target_discovery::process::ProcessInfo;
use crate::text;
use crate::text::{lowered, same_but_case, views};
use vstd::prelude::*;

verus! {

/// The places below a MuMu installation where its `adb` may be.
pub open spec fn mumu_adb_places(root: Seq<char>) -> Seq<Seq<char>> {
    seq![
        joined(root, "shell\\adb.exe"@),
        joined(root, "nx_main\\adb.exe"@),
        joined(root, "nx_device\\12.0\\shell\\adb.exe"@),
        joined(root, "adb.exe"@),
    ]
}

/// The installations that virtual machines of the given name belong to.
pub open spec fn roots_of_machines(
    processes: Seq<ProcessInfo>,
    name: Seq<char>,
    root_of: spec_fn(Seq<char>) -> Option<Seq<char>>,
) -> Seq<Seq<char>>
    decreases processes.len(),
{
    if processes.len() == 0 {
        Seq::empty()
    } else {
        let before = roots_of_machines(processes.drop_last(), name, root_of);
        let process = processes.last();
        match process.executable_path {
            Some(path) => match root_of(path@) {
                Some(root) => if same_but_case(process.name@, name) {
                    before.push(root)
                } else {
                    before
                },
                None => before,
            },
            None => before,
        }
    }
}

pub open spec fn first_of_pair(pair: (Seq<char>, Seq<char>)) -> Seq<char> {
    pair.0
}

pub open spec fn mumu_roots(machine: Machine, processes: Seq<ProcessInfo>) -> Seq<Seq<char>> {
    mumu::tools(machine, processes, processes.len() as int).map_values(
        |tool: (Seq<char>, Seq<char>)| first_of_pair(tool),
    ) + roots_of_machines(
        processes,
        "MuMuVMMHeadless.exe"@,
        |path: Seq<char>| mumu::install_of(machine, path),
    )
}

pub open spec fn ldplayer_roots(machine: Machine, processes: Seq<ProcessInfo>) -> Seq<Seq<char>> {
    ldplayer::tools(machine, processes, processes.len() as int) + roots_of_machines(
        processes,
        "Ld9BoxHeadless.exe"@,
        |path: Seq<char>| ldplayer::install_of(machine, path),
    )
}

/// All places below MuMu installations where their `adb` may be.
pub open spec fn all_mumu_places(roots: Seq<Seq<char>>) -> Seq<Seq<char>>
    decreases roots.len(),
{
    if roots.len() == 0 {
        Seq::empty()
    } else {
        all_mumu_places(roots.drop_last()) + mumu_adb_places(roots.last())
    }
}

/// The places of LDPlayer installations where their `adb` may be.
pub open spec fn ldplayer_places(roots: Seq<Seq<char>>) -> Seq<Seq<char>> {
    roots.map_values(|root: Seq<char>| joined(root, "adb.exe"@))
}

/// The places where the `adb` of an emulator may be, in the order in which they are tried.
pub open spec fn adb_places(machine: Machine, processes: Seq<ProcessInfo>) -> Seq<Seq<char>> {
    all_mumu_places(mumu_roots(machine, processes)) + ldplayer_places(
        ldplayer_roots(machine, processes),
    )
}

pub open spec fn is_file(machine: Machine, path: Seq<char>) -> bool {
    machine(Asked::IsFile(path)) is Some
}

/// One of the paths is this one, up to the case of its letters.
pub open spec fn path_known(paths: Seq<Seq<char>>, path: Seq<char>) -> bool {
    exists|i: int| 0 <= i < paths.len() && lowered(#[trigger] paths[i]) == lowered(path)
}

/// `paths` with `place` where it is a file and not among them.
pub open spec fn with_file(
    machine: Machine,
    paths: Seq<Seq<char>>,
    place: Seq<char>,
) -> Seq<Seq<char>> {
    if is_file(machine, place) && !path_known(paths, place) {
        paths.push(place)
    } else {
        paths
    }
}

/// The files among `places`, each once.
pub open spec fn files_once(machine: Machine, places: Seq<Seq<char>>) -> Seq<Seq<char>>
    decreases places.len(),
{
    if places.len() == 0 {
        Seq::empty()
    } else {
        with_file(machine, files_once(machine, places.drop_last()), places.last())
    }
}

/// What has been asked once the installations of the virtual machines of the given name were looked
/// for.
pub open spec fn asking_for_roots(
    asked: Seq<Asked>,
    processes: Seq<ProcessInfo>,
    name: Seq<char>,
    asking: spec_fn(Seq<Asked>, Seq<char>) -> Seq<Asked>,
) -> Seq<Asked>
    decreases processes.len(),
{
    if processes.len() == 0 {
        asked
    } else {
        let before = asking_for_roots(asked, processes.drop_last(), name, asking);
        let process = processes.last();
        match process.executable_path {
            Some(path) => if same_but_case(process.name@, name) {
                asking(before, path@)
            } else {
                before
            },
            None => before,
        }
    }
}

/// What has been asked once the MuMu installations were looked for.
pub open spec fn asking_mumu_roots(
    machine: Machine,
    asked: Seq<Asked>,
    processes: Seq<ProcessInfo>,
) -> Seq<Asked> {
    asking_for_roots(
        mumu::asking_for_tools(machine, asked, processes, processes.len() as int),
        processes,
        "MuMuVMMHeadless.exe"@,
        |asked: Seq<Asked>, path: Seq<char>| mumu::asking_for_install(machine, asked, path),
    )
}

/// What has been asked once the LDPlayer installations were looked for.
pub open spec fn asking_ldplayer_roots(
    machine: Machine,
    asked: Seq<Asked>,
    processes: Seq<ProcessInfo>,
) -> Seq<Asked> {
    asking_for_roots(
        ldplayer::asking_for_tools(machine, asked, processes, processes.len() as int),
        processes,
        "Ld9BoxHeadless.exe"@,
        |asked: Seq<Asked>, path: Seq<char>| ldplayer::asking_for_install(machine, asked, path),
    )
}

/// What has been asked once each of the places was asked for a file.
pub open spec fn asking_for_files(asked: Seq<Asked>, places: Seq<Seq<char>>) -> Seq<Asked>
    decreases places.len(),
{
    if places.len() == 0 {
        asked
    } else {
        having_asked(asking_for_files(asked, places.drop_last()), Asked::IsFile(places.last()))
    }
}

/// What has been asked once the `adb` programs of emulators were looked for: those of MuMu first.
pub open spec fn asking_for_adb(
    machine: Machine,
    asked: Seq<Asked>,
    processes: Seq<ProcessInfo>,
) -> Seq<Asked> {
    let mumu = asking_for_files(
        asking_mumu_roots(machine, asked, processes),
        all_mumu_places(mumu_roots(machine, processes)),
    );
    asking_for_files(
        asking_ldplayer_roots(machine, mumu, processes),
        ldplayer_places(ldplayer_roots(machine, processes)),
    )
}

fn knows_path(paths: &Vec<String>, path: &str) -> (b: bool)
    ensures
        b == path_known(views(paths@), path@),
{
    let ghost all = views(paths@);
    let key = text::to_lower(path);
    let mut i: usize = 0;
    while i < paths.len()
        invariant
            i <= paths@.len(),
            all == views(paths@),
            key@ == lowered(path@),
            forall|k: int| 0 <= k < i ==> lowered(#[trigger] all[k]) != key@,
        decreases paths@.len() - i,
    {
        assert(all[i as int] == paths@[i as int]@);
        if text::same(&text::to_lower(&paths[i]), &key) {
            return true;
        }
        i += 1;
    }
    false
}

fn push_unique_adb(facts: &mut Vec<Fact>, paths: &mut Vec<String>, candidate: String)
    ensures
        grows(old(facts)@, final(facts)@),
        questions(final(facts)@) == having_asked(
            questions(old(facts)@),
            Asked::IsFile(candidate@),
        ),
        forall|machine: Machine| #[trigger]
            fits(machine, final(facts)@) ==> views(final(paths)@) == with_file(
                machine,
                views(old(paths)@),
                candidate@,
            ),
{
    let ghost before = views(paths@);
    if facts::ask(facts, Question::IsFile { path: candidate.clone() }).is_some() {
        if !knows_path(paths, &candidate) {
            let ghost added = candidate@;
            paths.push(candidate);
            assert(views(paths@) =~= before.push(added));
        }
    }
}

fn find_mumu_roots(facts: &mut Vec<Fact>, processes: &Vec<ProcessInfo>) -> (roots: Vec<String>)
    ensures
        grows(old(facts)@, final(facts)@),
        forall|machine: Machine| #[trigger]
            fits(machine, final(facts)@) ==> questions(final(facts)@) == asking_mumu_roots(
                machine,
                questions(old(facts)@),
                processes@,
            ),
        forall|machine: Machine| #[trigger]
            fits(machine, final(facts)@) ==> views(roots@) == mumu_roots(machine, processes@),
{
    let installs = mumu::discover_mumu_tool_installs(facts, processes);
    let ghost asked = facts@;
    let ghost told = questions(facts@);
    let ghost tools = mumu::install_views(installs@).map_values(
        |tool: (Seq<char>, Seq<char>)| first_of_pair(tool),
    );
    let mut roots: Vec<String> = Vec::new();
    let mut i: usize = 0;
    while i < installs.len()
        invariant
            i <= installs@.len(),
            tools == mumu::install_views(installs@).map_values(
                |tool: (Seq<char>, Seq<char>)| first_of_pair(tool),
            ),
            views(roots@) =~= tools.take(i as int),
        decreases installs@.len() - i,
    {
        let root = installs[i].install_path.clone();
        let ghost before = views(roots@);
        let ghost added = root@;
        assert(mumu::install_views(installs@)[i as int] == (
            installs@[i as int].install_path@,
            installs@[i as int].manager_path@,
        ));
        roots.push(root);
        assert(views(roots@) =~= before.push(added));
        assert(tools.take(i as int + 1) =~= tools.take(i as int).push(tools[i as int]));
        i += 1;
    }
    assert(tools.take(i as int) =~= tools);
    let mut k: usize = 0;
    assert(processes@.take(0) =~= Seq::<ProcessInfo>::empty());
    assert(views(roots@) =~= tools + Seq::<Seq<char>>::empty());
    while k < processes.len()
        invariant
            grows(asked, facts@),
            told == questions(asked),
            forall|machine: Machine| #[trigger]
                fits(machine, facts@) ==> questions(facts@) == asking_for_roots(
                    told,
                    processes@.take(k as int),
                    "MuMuVMMHeadless.exe"@,
                    |asked: Seq<Asked>, path: Seq<char>|
                        mumu::asking_for_install(machine, asked, path),
                ),
            k <= processes@.len(),
            forall|machine: Machine| #[trigger]
                fits(machine, facts@) ==> views(roots@) == tools + roots_of_machines(
                    processes@.take(k as int),
                    "MuMuVMMHeadless.exe"@,
                    |path: Seq<char>| mumu::install_of(machine, path),
                ),
        decreases processes@.len() - k,
    {
        let process = &processes[k];
        let ghost before = views(roots@);
        assert(processes@.take(k as int + 1).drop_last() =~= processes@.take(k as int));
        if text::same_ignoring_case(&process.name, "MuMuVMMHeadless.exe") {
            if let Some(path) = &process.executable_path {
                if let Some(root) = mumu::resolve_mumu_install_path(facts, path) {
                    let ghost added = root@;
                    roots.push(root);
                    assert(views(roots@) =~= before.push(added));
                    assert forall|machine: Machine| #[trigger] fits(machine, facts@) implies
                        views(roots@) == tools + roots_of_machines(
                        processes@.take(k as int + 1),
                        "MuMuVMMHeadless.exe"@,
                        |path: Seq<char>| mumu::install_of(machine, path),
                    ) by {
                        let known = roots_of_machines(
                            processes@.take(k as int),
                            "MuMuVMMHeadless.exe"@,
                            |path: Seq<char>| mumu::install_of(machine, path),
                        );
                        assert((tools + known).push(added) =~= tools + known.push(added));
                    }
                }
            }
        }
        k += 1;
    }
    assert(processes@.take(k as int) =~= processes@);
    roots
}

fn find_ldplayer_roots(facts: &mut Vec<Fact>, processes: &Vec<ProcessInfo>) -> (roots: Vec<String>)
    ensures
        grows(old(facts)@, final(facts)@),
        forall|machine: Machine| #[trigger]
            fits(machine, final(facts)@) ==> questions(final(facts)@) == asking_ldplayer_roots(
                machine,
                questions(old(facts)@),
                processes@,
            ),
        forall|machine: Machine| #[trigger]
            fits(machine, final(facts)@) ==> views(roots@) == ldplayer_roots(machine, processes@),
{
    let mut roots = ldplayer::discover_ldplayer_tool_installs(facts, processes);
    let ghost asked = facts@;
    let ghost told = questions(facts@);
    let ghost tools = views(roots@);
    let mut k: usize = 0;
    assert(processes@.take(0) =~= Seq::<ProcessInfo>::empty());
    assert(views(roots@) =~= tools + Seq::<Seq<char>>::empty());
    while k < processes.len()
        invariant
            grows(asked, facts@),
            told == questions(asked),
            forall|machine: Machine| #[trigger]
                fits(machine, facts@) ==> questions(facts@) == asking_for_roots(
                    told,
                    processes@.take(k as int),
                    "Ld9BoxHeadless.exe"@,
                    |asked: Seq<Asked>, path: Seq<char>|
                        ldplayer::asking_for_install(machine, asked, path),
                ),
            k <= processes@.len(),
            forall|machine: Machine| #[trigger]
                fits(machine, facts@) ==> views(roots@) == tools + roots_of_machines(
                    processes@.take(k as int),
                    "Ld9BoxHeadless.exe"@,
                    |path: Seq<char>| ldplayer::install_of(machine, path),
                ),
        decreases processes@.len() - k,
    {
        let process = &processes[k];
        let ghost before = views(roots@);
        assert(processes@.take(k as int + 1).drop_last() =~= processes@.take(k as int));
        if text::same_ignoring_case(&process.name, "Ld9BoxHeadless.exe") {
            if let Some(path) = &process.executable_path {
                if let Some(root) = ldplayer::resolve_ldplayer_install_path(facts, path) {
                    let ghost added = root@;
                    roots.push(root);
                    assert(views(roots@) =~= before.push(added));
                    assert forall|machine: Machine| #[trigger] fits(machine, facts@) implies
                        views(roots@) == tools + roots_of_machines(
                        processes@.take(k as int + 1),
                        "Ld9BoxHeadless.exe"@,
                        |path: Seq<char>| ldplayer::install_of(machine, path),
                    ) by {
                        let known = roots_of_machines(
                            processes@.take(k as int),
                            "Ld9BoxHeadless.exe"@,
                            |path: Seq<char>| ldplayer::install_of(machine, path),
                        );
                        assert((tools + known).push(added) =~= tools + known.push(added));
                    }
                }
            }
        }
        k += 1;
    }
    assert(processes@.take(k as int) =~= processes@);
    roots
}

fn list_mumu_places(roots: &Vec<String>) -> (places: Vec<String>)
    ensures
        views(places@) == all_mumu_places(views(roots@)),
{
    let ghost all = views(roots@);
    let mut places: Vec<String> = Vec::new();
    let mut i: usize = 0;
    assert(all.take(0) =~= Seq::<Seq<char>>::empty());
    assert(views(places@) =~= Seq::<Seq<char>>::empty());
    while i < roots.len()
        invariant
            i <= roots@.len(),
            all == views(roots@),
            views(places@) == all_mumu_places(all.take(i as int)),
        decreases roots@.len() - i,
    {
        let ghost before = places@;
        let root = &roots[i];
        let a = paths::join(root, "shell\\adb.exe");
        let b = paths::join(root, "nx_main\\adb.exe");
        let c = paths::join(root, "nx_device\\12.0\\shell\\adb.exe");
        let d = paths::join(root, "adb.exe");
        proof {
            assert(all.take(i as int + 1).drop_last() =~= all.take(i as int));
            assert(all.take(i as int + 1).last() == root@);
        }
        let ghost added = seq![a@, b@, c@, d@];
        places.push(a);
        places.push(b);
        places.push(c);
        places.push(d);
        assert(views(places@) =~= views(before) + added);
        assert(added =~= mumu_adb_places(root@));
        i += 1;
    }
    assert(all.take(i as int) =~= all);
    places
}

fn list_ldplayer_places(roots: &Vec<String>) -> (places: Vec<String>)
    ensures
        views(places@) == ldplayer_places(views(roots@)),
{
    let ghost want = ldplayer_places(views(roots@));
    let mut places: Vec<String> = Vec::new();
    let mut i: usize = 0;
    assert(views(places@) =~= want.take(0));
    while i < roots.len()
        invariant
            i <= roots@.len() == want.len(),
            want == ldplayer_places(views(roots@)),
            views(places@) == want.take(i as int),
        decreases roots@.len() - i,
    {
        let ghost before = views(places@);
        let place = paths::join(&roots[i], "adb.exe");
        let ghost added = place@;
        assert(views(roots@)[i as int] == roots@[i as int]@);
        places.push(place);
        assert(views(places@) =~= before.push(added));
        assert(before.push(added) =~= want.take(i as int + 1));
        i += 1;
    }
    assert(want.take(i as int) =~= want);
    places
}

/// Adds the files among `places`, each once.
fn push_files(facts: &mut Vec<Fact>, paths: &mut Vec<String>, places: &Vec<String>)
    ensures
        grows(old(facts)@, final(facts)@),
        questions(final(facts)@) == asking_for_files(questions(old(facts)@), views(places@)),
        forall|machine: Machine, known: Seq<Seq<char>>|
            #![trigger fits(machine, final(facts)@), files_once(machine, known)]
            fits(machine, final(facts)@) && views(old(paths)@) == files_once(machine, known)
                ==> views(final(paths)@) == files_once(machine, known + views(places@)),
{
    let ghost all = views(places@);
    let ghost asked = questions(facts@);
    let ghost start = views(paths@);
    let mut i: usize = 0;
    assert(all.take(0) =~= Seq::<Seq<char>>::empty());
    assert forall|machine: Machine, known: Seq<Seq<char>>|
        #![trigger fits(machine, facts@), files_once(machine, known)]
        fits(machine, facts@) && start == files_once(machine, known) implies views(paths@)
        == files_once(machine, known + all.take(0)) by {
        assert(known + all.take(0) =~= known);
    }
    while i < places.len()
        invariant
            grows(old(facts)@, facts@),
            i <= places@.len(),
            all == views(places@),
            asked == questions(old(facts)@),
            start == views(old(paths)@),
            questions(facts@) == asking_for_files(asked, all.take(i as int)),
            forall|machine: Machine, known: Seq<Seq<char>>|
                #![trigger fits(machine, facts@), files_once(machine, known)]
                fits(machine, facts@) && start == files_once(machine, known) ==> views(paths@)
                    == files_once(machine, known + all.take(i as int)),
        decreases places@.len() - i,
    {
        proof {
            assert(all.take(i as int + 1).drop_last() =~= all.take(i as int));
            assert(all.take(i as int + 1).last() == places@[i as int]@);
        }
        let ghost before = facts@;
        push_unique_adb(facts, paths, places[i].clone());
        assert forall|machine: Machine, known: Seq<Seq<char>>|
            #![trigger fits(machine, facts@), files_once(machine, known)]
            fits(machine, facts@) && start == files_once(machine, known) implies views(paths@)
            == files_once(machine, known + all.take(i as int + 1)) by {
            assert(fits(machine, before));
            let now = known + all.take(i as int + 1);
            assert(now.drop_last() =~= known + all.take(i as int));
            assert(now.last() == places@[i as int]@);
        }
        i += 1;
    }
    assert(all.take(i as int) =~= all);
}

/// The `adb` programs of the emulators that run, each once.
pub fn discover_emulator_adb_paths(
    facts: &mut Vec<Fact>,
    processes: &Vec<ProcessInfo>,
) -> (paths: Vec<String>)
    ensures
        grows(old(facts)@, final(facts)@),
        forall|machine: Machine| #[trigger]
            fits(machine, final(facts)@) ==> questions(final(facts)@) == asking_for_adb(
                machine,
                questions(old(facts)@),
                processes@,
            ),
        forall|machine: Machine| #[trigger]
            fits(machine, final(facts)@) ==> views(paths@) == files_once(
                machine,
                adb_places(machine, processes@),
            ),
{
    let mut paths: Vec<String> = Vec::new();
    assert(views(paths@) =~= Seq::<Seq<char>>::empty());
    let mumu_roots = find_mumu_roots(facts, processes);
    let mumu_places = list_mumu_places(&mumu_roots);
    push_files(facts, &mut paths, &mumu_places);
    let ghost known = views(mumu_places@);
    assert forall|machine: Machine| #[trigger] fits(machine, facts@) implies views(paths@)
        == files_once(machine, known) by {
        assert(files_once(machine, Seq::empty()) =~= Seq::<Seq<char>>::empty());
        assert(Seq::<Seq<char>>::empty() + known =~= known);
    }
    let ldplayer_roots = find_ldplayer_roots(facts, processes);
    let ldplayer_places = list_ldplayer_places(&ldplayer_roots);
    push_files(facts, &mut paths, &ldplayer_places);
    paths
}

/// What is found are files, each of them once, and every place that holds a file is found.
pub proof fn law_bundled_programs_are_files_listed_once(machine: Machine, places: Seq<Seq<char>>)
    ensures
        forall|i: int|
            0 <= i < files_once(machine, places).len() ==> is_file(
                machine,
                #[trigger] files_once(machine, places)[i],
            ),
        forall|i: int, j: int|
            0 <= i < j < files_once(machine, places).len() ==> lowered(
                #[trigger] files_once(machine, places)[i],
            ) != lowered(#[trigger] files_once(machine, places)[j]),
        forall|k: int|
            0 <= k < places.len() && is_file(machine, #[trigger] places[k]) ==> path_known(
                files_once(machine, places),
                places[k],
            ),
    decreases places.len(),
{
    if places.len() > 0 {
        let front = places.drop_last();
        law_bundled_programs_are_files_listed_once(machine, front);
        let before = files_once(machine, front);
        let after = files_once(machine, places);
        assert forall|k: int|
            0 <= k < places.len() && is_file(machine, #[trigger] places[k]) implies path_known(
            after,
            places[k],
        ) by {
            if k < front.len() {
                assert(front[k] == places[k]);
                let m = choose|m: int|
                    0 <= m < before.len() && lowered(#[trigger] before[m]) == lowered(places[k]);
                assert(after[m] == before[m]);
            } else if path_known(before, places[k]) {
                let m = choose|m: int|
                    0 <= m < before.len() && lowered(#[trigger] before[m]) == lowered(places[k]);
                assert(after[m] == before[m]);
            } else {
                assert(after[before.len() as int] == places[k]);
            }
        }
    }
}

/// An installation is one that a running virtual machine of that name lies in, and every such
/// installation is among them.
pub proof fn law_installations_are_those_that_run(
    processes: Seq<ProcessInfo>,
    name: Seq<char>,
    root_of: spec_fn(Seq<char>) -> Option<Seq<char>>,
    k: int,
)
    requires
        0 <= k < processes.len(),
        same_but_case(processes[k].name@, name),
        processes[k].executable_path is Some,
        root_of(processes[k].executable_path->0@) is Some,
    ensures
        roots_of_machines(processes, name, root_of).contains(
            root_of(processes[k].executable_path->0@)->0,
        ),
    decreases processes.len(),
{
    let front = processes.drop_last();
    let before = roots_of_machines(front, name, root_of);
    let all = roots_of_machines(processes, name, root_of);
    let root = root_of(processes[k].executable_path->0@)->0;
    if k == processes.len() - 1 {
        assert(all.last() == root);
    } else {
        assert(front[k] == processes[k]);
        law_installations_are_those_that_run(front, name, root_of, k);
        let i = choose|i: int| 0 <= i < before.len() && before[i] == root;
        assert(all[i] == root);
    }
}

/// Nothing is taken for an installation but what a process of that name lies in.
pub proof fn law_only_running_installations_are_known(
    processes: Seq<ProcessInfo>,
    name: Seq<char>,
    root_of: spec_fn(Seq<char>) -> Option<Seq<char>>,
    i: int,
)
    requires
        0 <= i < roots_of_machines(processes, name, root_of).len(),
    ensures
        exists|k: int|
            0 <= k < processes.len() && same_but_case((#[trigger] processes[k]).name@, name)
                && processes[k].executable_path is Some && root_of(
                processes[k].executable_path->0@,
            ) == Some(roots_of_machines(processes, name, root_of)[i]),
    decreases processes.len(),
{
    let front = processes.drop_last();
    let before = roots_of_machines(front, name, root_of);
    let all = roots_of_machines(processes, name, root_of);
    if i < before.len() {
        law_only_running_installations_are_known(front, name, root_of, i);
        assert(all[i] == before[i]);
        let k = choose|k: int|
            0 <= k < front.len() && same_but_case((#[trigger] front[k]).name@, name)
                && front[k].executable_path is Some && root_of(front[k].executable_path->0@) == Some(
                before[i],
            );
        assert(processes[k] == front[k]);
    } else {
        assert(processes[processes.len() - 1] == processes.last());
    }
}

/// Each installation has its places: four below one of MuMu, with that of its shell first, and one
/// of LDPlayer.
pub proof fn law_each_installation_has_its_places(roots: Seq<Seq<char>>, i: int)
    requires
        0 <= i < roots.len(),
    ensures
        all_mumu_places(roots).len() == 4 * roots.len(),
        all_mumu_places(roots)[4 * i] == joined(roots[i], "shell\\adb.exe"@),
        all_mumu_places(roots)[4 * i + 1] == joined(roots[i], "nx_main\\adb.exe"@),
        all_mumu_places(roots)[4 * i + 2] == joined(roots[i], "nx_device\\12.0\\shell\\adb.exe"@),
        all_mumu_places(roots)[4 * i + 3] == joined(roots[i], "adb.exe"@),
        ldplayer_places(roots).len() == roots.len(),
        ldplayer_places(roots)[i] == joined(roots[i], "adb.exe"@),
    decreases roots.len(),
{
    let front = roots.drop_last();
    if front.len() > 0 {
        law_each_installation_has_its_places(
            front,
            if i < front.len() {
                i
            } else {
                0
            },
        );
    }
    let before = all_mumu_places(front);
    let all = all_mumu_places(roots);
    if front.len() == 0 {
        assert(before.len() == 0);
    }
    let places = mumu_adb_places(roots.last());
    assert(places.len() == 4);
    assert(all == before + places);
    assert(before.len() == 4 * front.len());
    if i < front.len() {
        assert(front[i] == roots[i]);
        assert(forall|k: int| 0 <= k < before.len() ==> all[k] == before[k]);
    } else {
        assert(forall|k: int| 0 <= k < 4 ==> all[before.len() + k] == #[trigger] places[k]);
        assert(all[4 * i] == places[0] && all[4 * i + 1] == places[1] && all[4 * i + 2] == places[2]
            && all[4 * i + 3] == places[3]);
    }
}

} // verus!
