//! The game's own window on the desktop.
use crate::config::RulerConfig;
use crate::target_discovery::process::ProcessInfo;
use crate::target_discovery::search::{
    all_fresh, found, new_candidate, opt_config, Found, Search, SearchView,
};
use crate::target_discovery::{stable_path, stable_path_text, Source, TargetKind};
use crate::text;
use crate::text::{
    contains_text, in_order, lemma_order_total, lemma_order_transitive, lowered, same_but_case,
    trimmed,
};
use vstd::prelude::*;

verus! {

/// The title of the game's window in Chinese.
pub const GAME_TITLE: &'static str = "\u{660e}\u{65e5}\u{65b9}\u{821f}";

/// A top-level window, with the process that owns it.
#[derive(Debug)]
pub struct WindowInfo {
    pub hwnd: isize,
    pub process_id: u32,
    pub is_visible: bool,
    pub title: String,
    pub class_name: String,
}

#[verifier::ext_equal]
pub struct WindowView {
    pub hwnd: isize,
    pub title: Seq<char>,
    pub class_name: Seq<char>,
}

impl View for WindowInfo {
    type V = WindowView;

    open spec fn view(&self) -> WindowView {
        WindowView { hwnd: self.hwnd, title: self.title@, class_name: self.class_name@ }
    }
}

/// The window can be offered for the process: it is visible, belongs to it and has a title.
pub open spec fn is_shown_by(window: WindowInfo, pid: u32) -> bool {
    window.is_visible && window.process_id == pid && trimmed(window.title@).len() > 0
}

/// How unlikely it is that the window shows the game.
pub open spec fn rank_of(window: WindowView) -> int {
    if window.title == GAME_TITLE@ {
        0
    } else if contains_text(window.title, GAME_TITLE@) {
        1
    } else if contains_text(lowered(window.title), "arknights"@) {
        2
    } else if lowered(window.class_name) == "unitywndclass"@ || lowered(window.class_name)
        == "unityhwndclass"@ {
        3
    } else {
        4
    }
}

/// `a` is offered before `b`, or at the same place.
pub open spec fn goes_first(a: WindowView, b: WindowView) -> bool {
    rank_of(a) < rank_of(b) || (rank_of(a) == rank_of(b) && in_order(a.title, b.title))
}

/// `windows` with `window` behind the last of those that go first.
pub open spec fn placed(windows: Seq<WindowView>, window: WindowView) -> Seq<WindowView>
    decreases windows.len(),
{
    if windows.len() == 0 || goes_first(windows.last(), window) {
        windows.push(window)
    } else {
        placed(windows.drop_last(), window).push(windows.last())
    }
}

/// The windows to offer for a process, the likeliest first.
pub open spec fn offered(windows: Seq<WindowInfo>, pid: u32) -> Seq<WindowView>
    decreases windows.len(),
{
    if windows.len() == 0 {
        Seq::empty()
    } else {
        let rest = offered(windows.drop_last(), pid);
        if is_shown_by(windows.last(), pid) {
            placed(rest, windows.last()@)
        } else {
            rest
        }
    }
}

fn window_priority(window: &WindowInfo) -> (rank: u8)
    ensures
        rank == rank_of(window@),
{
    if text::same(&window.title, GAME_TITLE) {
        0
    } else if text::contains(&window.title, GAME_TITLE) {
        1
    } else if text::contains(&text::to_lower(&window.title), "arknights") {
        2
    } else {
        let class_name = text::to_lower(&window.class_name);
        if text::same(&class_name, "unitywndclass") || text::same(&class_name, "unityhwndclass") {
            3
        } else {
            4
        }
    }
}

fn stays_first(a: &WindowInfo, b: &WindowInfo) -> (r: bool)
    ensures
        r == goes_first(a@, b@),
{
    let x: u8 = window_priority(a);
    let y: u8 = window_priority(b);
    x < y || (x == y && text::ordered(&a.title, &b.title))
}

proof fn lemma_placed(windows: Seq<WindowView>, window: WindowView, n: int)
    requires
        0 <= n <= windows.len(),
        n > 0 ==> goes_first(windows[n - 1], window),
        forall|k: int| n <= k < windows.len() ==> !goes_first(#[trigger] windows[k], window),
    ensures
        placed(windows, window) == windows.insert(n, window),
    decreases windows.len(),
{
    if n == windows.len() {
        assert(windows.insert(n, window) =~= windows.push(window));
    } else {
        assert(windows.last() == windows[windows.len() - 1]);
        assert forall|k: int| n <= k < windows.len() - 1 implies !goes_first(
            #[trigger] windows.drop_last()[k],
            window,
        ) by {
            assert(windows.drop_last()[k] == windows[k]);
        }
        lemma_placed(windows.drop_last(), window, n);
        assert(windows.insert(n, window) =~= windows.drop_last().insert(n, window).push(
            windows.last(),
        ));
    }
}

pub open spec fn views_of(windows: Seq<WindowInfo>) -> Seq<WindowView> {
    windows.map_values(|window: WindowInfo| window@)
}

/// The windows to offer for a process, the likeliest first.
pub fn windows_for_pid(windows: &Vec<WindowInfo>, pid: u32) -> (shown: Vec<WindowInfo>)
    ensures
        views_of(shown@) == offered(windows@, pid),
{
    let mut shown: Vec<WindowInfo> = Vec::new();
    let mut i: usize = 0;
    assert(windows@.take(0) =~= Seq::<WindowInfo>::empty());
    assert(views_of(shown@) =~= Seq::<WindowView>::empty());
    while i < windows.len()
        invariant
            i <= windows@.len(),
            views_of(shown@) == offered(windows@.take(i as int), pid),
        decreases windows@.len() - i,
    {
        let ghost before = views_of(shown@);
        let window = &windows[i];
        assert(windows@.take(i as int + 1).drop_last() =~= windows@.take(i as int));
        if window.is_visible && window.process_id == pid && !text::trim(
            &window.title,
        ).as_str().is_empty() {
            let copy = WindowInfo {
                hwnd: window.hwnd,
                process_id: window.process_id,
                is_visible: window.is_visible,
                title: window.title.clone(),
                class_name: window.class_name.clone(),
            };
            let mut n: usize = shown.len();
            while n > 0 && !stays_first(&shown[n - 1], &copy)
                invariant
                    n <= shown@.len(),
                    forall|k: int|
                        n <= k < shown@.len() ==> !goes_first(
                            #[trigger] views_of(shown@)[k],
                            copy@,
                        ),
                decreases n,
            {
                n -= 1;
            }
            proof {
                if n > 0 {
                    assert(before[n - 1] == shown@[n - 1]@);
                }
                lemma_placed(before, copy@, n as int);
                assert(views_of(shown@.insert(n as int, copy)) =~= before.insert(
                    n as int,
                    copy@,
                ));
            }
            shown.insert(n, copy);
        }
        i += 1;
    }
    assert(windows@.take(i as int) =~= windows@);
    shown
}

/// A window that was found.
pub open spec fn window_target(executable: Seq<char>, window: WindowView) -> Found {
    Found {
        kind: TargetKind::Windows,
        fingerprint: "window:"@ + stable_path_text(executable) + seq![':'] + window.title + seq![
            ':',
        ] + window.class_name,
        name: "Windows Arknights"@,
        detail: window.title + " ["@ + window.class_name + seq![']'],
        install_path: None,
        instance_index: None,
        device_id: None,
        window_handle: Some(window.hwnd),
        window_title: Some(window.title),
        window_class: Some(window.class_name),
    }
}

pub open spec fn executable_of(process: ProcessInfo) -> Seq<char> {
    match process.executable_path {
        Some(path) => path@,
        None => Seq::empty(),
    }
}

/// With the windows of a process.
pub open spec fn with_process_windows(
    search: SearchView,
    executable: Seq<char>,
    windows: Seq<WindowView>,
) -> SearchView
    decreases windows.len(),
{
    if windows.len() == 0 {
        search
    } else {
        with_process_windows(search, executable, windows.drop_last()).with_target(
            window_target(executable, windows.last()),
        )
    }
}

/// With the windows of the game.
pub open spec fn with_windows(
    search: SearchView,
    processes: Seq<ProcessInfo>,
    windows: Seq<WindowInfo>,
) -> SearchView
    decreases processes.len(),
{
    if processes.len() == 0 {
        search
    } else {
        let before = with_windows(search, processes.drop_last(), windows);
        let process = processes.last();
        if same_but_case(process.name@, "Arknights.exe"@) {
            with_process_windows(
                before,
                executable_of(process),
                offered(windows, process.process_id),
            )
        } else {
            before
        }
    }
}

fn push_window_candidate(
    search: &mut Search,
    executable: &str,
    window: &WindowInfo,
    previous: Option<&RulerConfig>,
)
    requires
        all_fresh(old(search).candidates@, opt_config(previous)),
    ensures
        final(search)@ == old(search)@.with_target(window_target(executable@, window@)),
        all_fresh(final(search).candidates@, opt_config(previous)),
{
    let mut fingerprint = "window:".to_owned();
    fingerprint.append(&stable_path(executable));
    fingerprint.push(':');
    fingerprint.append(&window.title);
    fingerprint.push(':');
    fingerprint.append(&window.class_name);
    let mut detail = window.title.clone();
    detail.append(" [");
    detail.append(&window.class_name);
    detail.push(']');
    let candidate = new_candidate(
        TargetKind::Windows,
        fingerprint,
        "Windows Arknights".to_owned(),
        detail,
        Source {
            install_path: None,
            instance_index: None,
            device_id: None,
            window_handle: Some(window.hwnd),
            window_title: Some(window.title.clone()),
            window_class: Some(window.class_name.clone()),
        },
        previous,
    );
    assert(found(candidate) =~= window_target(executable@, window@));
    search.add_target(candidate);
}

/// Adds the windows of the game.
pub fn discover_windows(
    processes: &Vec<ProcessInfo>,
    windows: &Vec<WindowInfo>,
    previous: Option<&RulerConfig>,
    search: &mut Search,
)
    requires
        all_fresh(old(search).candidates@, opt_config(previous)),
    ensures
        all_fresh(final(search).candidates@, opt_config(previous)),
        final(search)@ == with_windows(old(search)@, processes@, windows@),
{
    let ghost start = search@;
    let mut i: usize = 0;
    assert(processes@.take(0) =~= Seq::<ProcessInfo>::empty());
    while i < processes.len()
        invariant
            i <= processes@.len(),
            start == old(search)@,
            all_fresh(search.candidates@, opt_config(previous)),
            search@ == with_windows(start, processes@.take(i as int), windows@),
        decreases processes@.len() - i,
    {
        let process = &processes[i];
        assert(processes@.take(i as int + 1).drop_last() =~= processes@.take(i as int));
        if text::same_ignoring_case(&process.name, "Arknights.exe") {
            let shown = windows_for_pid(windows, process.process_id);
            let ghost all = views_of(shown@);
            let ghost before = search@;
            let executable = match &process.executable_path {
                Some(path) => path.clone(),
                None => String::new(),
            };
            assert(executable@ =~= executable_of(*process));
            let mut k: usize = 0;
            assert(all.take(0) =~= Seq::<WindowView>::empty());
            while k < shown.len()
                invariant
                    k <= shown@.len(),
                    all == views_of(shown@),
                    all_fresh(search.candidates@, opt_config(previous)),
                    search@ == with_process_windows(before, executable@, all.take(k as int)),
                decreases shown@.len() - k,
            {
                assert(all.take(k as int + 1).drop_last() =~= all.take(k as int));
                assert(all.take(k as int + 1).last() == shown@[k as int]@);
                push_window_candidate(search, &executable, &shown[k], previous);
                k += 1;
            }
            assert(all.take(k as int) =~= all);
        }
        i += 1;
    }
    assert(processes@.take(i as int) =~= processes@);
}

/// `windows` stand in the order in which they are offered.
pub open spec fn in_offer_order(windows: Seq<WindowView>) -> bool {
    forall|i: int, j: int|
        0 <= i <= j < windows.len() ==> goes_first(#[trigger] windows[i], #[trigger] windows[j])
}

proof fn lemma_goes_first_transitive(a: WindowView, b: WindowView, c: WindowView)
    requires
        goes_first(a, b),
        goes_first(b, c),
    ensures
        goes_first(a, c),
{
    if rank_of(a) == rank_of(b) && rank_of(b) == rank_of(c) {
        lemma_order_transitive(a.title, b.title, c.title);
    }
}

proof fn lemma_placed_in_order(windows: Seq<WindowView>, window: WindowView)
    requires
        in_offer_order(windows),
    ensures
        in_offer_order(placed(windows, window)),
        placed(windows, window).to_multiset() == windows.to_multiset().insert(window),
        forall|x: WindowView| #[trigger]
            placed(windows, window).contains(x) <==> windows.contains(x) || x == window,
    decreases windows.len(),
{
    broadcast use vstd::seq_lib::group_to_multiset_ensures;

    let result = placed(windows, window);
    lemma_order_total(window.title, window.title);
    if windows.len() == 0 || goes_first(windows.last(), window) {
        assert forall|i: int, j: int| 0 <= i <= j < result.len() implies goes_first(
            #[trigger] result[i],
            #[trigger] result[j],
        ) by {
            if j == windows.len() && i < j {
                assert(goes_first(windows[i], windows[windows.len() - 1]));
                lemma_goes_first_transitive(windows[i], windows.last(), window);
            }
        }
        assert forall|x: WindowView| #[trigger] result.contains(x) <==> windows.contains(x) || x
            == window by {
            if windows.contains(x) {
                let k = choose|k: int| 0 <= k < windows.len() && windows[k] == x;
                assert(result[k] == x);
            }
            if x == window {
                assert(result[windows.len() as int] == x);
            }
        }
    } else {
        let front = windows.drop_last();
        let rest = placed(front, window);
        let last = windows.last();
        assert forall|i: int, j: int| 0 <= i <= j < front.len() implies goes_first(
            #[trigger] front[i],
            #[trigger] front[j],
        ) by {
            assert(goes_first(windows[i], windows[j]));
        }
        lemma_placed_in_order(front, window);
        assert(windows =~= front.push(last));
        lemma_order_total(last.title, window.title);
        lemma_order_total(last.title, last.title);
        assert(goes_first(window, last));
        assert forall|i: int| 0 <= i < rest.len() implies goes_first(#[trigger] rest[i], last) by {
            assert(rest.contains(rest[i]));
            if rest[i] != window {
                let k = choose|k: int| 0 <= k < front.len() && front[k] == rest[i];
                assert(goes_first(windows[k], windows[windows.len() - 1]));
            }
        }
        assert forall|i: int, j: int| 0 <= i <= j < result.len() implies goes_first(
            #[trigger] result[i],
            #[trigger] result[j],
        ) by {
            if j < rest.len() {
                assert(goes_first(rest[i], rest[j]));
            }
        }
        assert(result.to_multiset() == windows.to_multiset().insert(window)) by {
            assert(result.to_multiset() == rest.to_multiset().insert(last));
            assert(windows.to_multiset() == front.to_multiset().insert(last));
            assert(front.to_multiset().insert(window).insert(last)
                =~= front.to_multiset().insert(last).insert(window));
        }
        assert forall|x: WindowView| #[trigger] result.contains(x) <==> windows.contains(x) || x
            == window by {
            if result.contains(x) {
                let k = choose|k: int| 0 <= k < result.len() && result[k] == x;
                if k < rest.len() {
                    assert(rest.contains(x));
                    if x != window {
                        let m = choose|m: int| 0 <= m < front.len() && front[m] == x;
                        assert(windows[m] == x);
                    }
                } else {
                    assert(windows[windows.len() - 1] == x);
                }
            }
            if windows.contains(x) || x == window {
                if x == last {
                    assert(result[rest.len() as int] == x);
                } else {
                    if windows.contains(x) {
                        let m = choose|m: int| 0 <= m < windows.len() && windows[m] == x;
                        assert(front[m] == x);
                    }
                    assert(rest.contains(x));
                    let m = choose|m: int| 0 <= m < rest.len() && rest[m] == x;
                    assert(result[m] == x);
                }
            }
        }
    }
}

/// The windows that a process shows and that have a title.
pub open spec fn shown_by(windows: Seq<WindowInfo>, pid: u32) -> Seq<WindowView> {
    views_of(windows.filter(|window: WindowInfo| is_shown_by(window, pid)))
}

/// What is offered are the windows that the process shows and that have a title, the likeliest
/// first.
pub proof fn law_windows_are_offered_in_order(windows: Seq<WindowInfo>, pid: u32)
    ensures
        in_offer_order(offered(windows, pid)),
        offered(windows, pid).to_multiset() == shown_by(windows, pid).to_multiset(),
    decreases windows.len(),
{
    broadcast use vstd::seq_lib::group_to_multiset_ensures;

    reveal(Seq::filter);
    let keep = |window: WindowInfo| is_shown_by(window, pid);
    if windows.len() == 0 {
        assert(offered(windows, pid) =~= shown_by(windows, pid));
    } else {
        let front = windows.drop_last();
        law_windows_are_offered_in_order(front, pid);
        if is_shown_by(windows.last(), pid) {
            lemma_placed_in_order(offered(front, pid), windows.last()@);
            assert(views_of(front.filter(keep).push(windows.last())) =~= views_of(
                front.filter(keep),
            ).push(windows.last()@));
        }
    }
}

/// A window with the title of the game goes before one whose title only holds it, that before one
/// with the English name, that before one of the engine of the game, and that before any other. With
/// the same claim the titles decide.
pub proof fn law_likelier_windows_go_first(a: WindowView, b: WindowView)
    ensures
        a.title == GAME_TITLE@ && b.title != GAME_TITLE@ ==> goes_first(a, b) && !goes_first(b, a),
        contains_text(a.title, GAME_TITLE@) && !contains_text(b.title, GAME_TITLE@) && b.title
            != GAME_TITLE@ ==> goes_first(a, b) && !goes_first(b, a),
        contains_text(lowered(a.title), "arknights"@) && b.title != GAME_TITLE@ && !contains_text(
            b.title,
            GAME_TITLE@,
        ) && !contains_text(lowered(b.title), "arknights"@) ==> goes_first(a, b) && !goes_first(b, a),
        lowered(a.class_name) == "unitywndclass"@ && b.title != GAME_TITLE@ && !contains_text(
            b.title,
            GAME_TITLE@,
        ) && !contains_text(lowered(b.title), "arknights"@) && lowered(b.class_name)
            != "unitywndclass"@ && lowered(b.class_name) != "unityhwndclass"@ ==> goes_first(a, b)
            && !goes_first(b, a),
        a.title == b.title && lowered(a.class_name) == lowered(b.class_name) ==> goes_first(a, b)
            && goes_first(b, a),
        goes_first(a, b) || goes_first(b, a),
{
    lemma_order_total(a.title, b.title);
    lemma_order_total(a.title, a.title);
}

/// Only windows that can be seen and have a title are offered, for their own process, as they are.
pub proof fn law_only_visible_windows_are_offered(window: WindowInfo, pid: u32)
    ensures
        is_shown_by(window, pid) ==> window.is_visible && window.process_id == pid && trimmed(
            window.title@,
        ).len() > 0,
        is_shown_by(window, window.process_id) <==> window.is_visible && trimmed(window.title@).len()
            > 0,
        window@.hwnd == window.hwnd,
        window@.title == window.title@,
        window@.class_name == window.class_name@,
{
}

/// What tells windows apart from one run to the next is their program, their title and their class;
/// the handle, which does not last, does not count.
pub proof fn law_handles_do_not_tell_windows_apart(
    executable: Seq<char>,
    window: WindowView,
    hwnd: isize,
)
    ensures
        window_target(executable, WindowView { hwnd, ..window }).fingerprint == window_target(
            executable,
            window,
        ).fingerprint,
        window_target(executable, window).window_handle == Some(window.hwnd),
        text::ends_with(
            window_target(executable, window).fingerprint,
            seq![':'] + window.title + seq![':'] + window.class_name,
        ),
{
    let whole = window_target(executable, window).fingerprint;
    let back = seq![':'] + window.title + seq![':'] + window.class_name;
    assert(whole.skip(whole.len() - back.len()) =~= back);
}

} // verus!
