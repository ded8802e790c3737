//! Running processes, the ports they listen on, and how they belong together.
use crate::paths;
use crate::paths::lies_under;
use crate::text;
use crate::text::{
    contains_text, decimal, digits_at_most, first_place, is_digit, is_white_space, last_place,
    lowered, same_but_case,
};
use vstd::prelude::*;

verus! {

/// A running process.
#[derive(Debug)]
pub struct ProcessInfo {
    pub name: String,
    pub process_id: u32,
    pub parent_process_id: Option<u32>,
    pub executable_path: Option<String>,
    pub command_line: Option<String>,
    /// In seconds since the epoch.
    pub creation_time: u64,
}

/// A port that a process listens on.
#[derive(Clone, Copy, Debug, PartialEq, Eq, Structural)]
pub struct TcpListener {
    pub port: u16,
    pub pid: u32,
}

/// The parent of the process `pid`: of the last one in the list that has this id.
pub open spec fn parent_pid(processes: Seq<ProcessInfo>, pid: u32) -> Option<u32>
    decreases processes.len(),
{
    if processes.len() == 0 {
        None
    } else if processes.last().process_id == pid {
        processes.last().parent_process_id
    } else {
        parent_pid(processes.drop_last(), pid)
    }
}

/// The chain of parents from `current` on, behind those already seen: it ends where there is no
/// parent, where one repeats, or after `steps` more.
pub open spec fn chain(
    processes: Seq<ProcessInfo>,
    current: Option<u32>,
    seen: Seq<u32>,
    steps: nat,
) -> Seq<u32>
    decreases steps,
{
    match current {
        Some(pid) => if steps == 0 || seen.contains(pid) {
            seen
        } else {
            chain(processes, parent_pid(processes, pid), seen.push(pid), (steps - 1) as nat)
        },
        None => seen,
    }
}

/// The parents of a process, their parents, and so on, eight at most.
pub open spec fn ancestors_of(process: ProcessInfo, processes: Seq<ProcessInfo>) -> Seq<u32> {
    chain(processes, process.parent_process_id, Seq::empty(), 8)
}

pub open spec fn share_ancestor(
    a: ProcessInfo,
    b: ProcessInfo,
    processes: Seq<ProcessInfo>,
) -> bool {
    exists|pid: u32| #[trigger]
        ancestors_of(a, processes).contains(pid) && ancestors_of(b, processes).contains(pid)
}

/// The process belongs to `root`: it is the same, a child of it, a relative, or lies in the same
/// installation.
pub open spec fn is_related(
    root: ProcessInfo,
    install_path: Option<Seq<char>>,
    process: ProcessInfo,
    processes: Seq<ProcessInfo>,
) -> bool {
    ||| process.process_id == root.process_id
    ||| process.parent_process_id == Some(root.process_id)
    ||| share_ancestor(root, process, processes)
    ||| install_path is Some && process.executable_path is Some && lies_under(
        process.executable_path->0@,
        install_path->0,
    )
}

/// Some process with this id belongs to `root`.
pub open spec fn is_related_pid(
    root: ProcessInfo,
    install_path: Option<Seq<char>>,
    processes: Seq<ProcessInfo>,
    pid: u32,
) -> bool {
    exists|i: int|
        0 <= i < processes.len() && (#[trigger] processes[i]).process_id == pid && is_related(
            root,
            install_path,
            processes[i],
            processes,
        )
}

/// `ports` in increasing order with `port` among them.
pub open spec fn with_port(ports: Seq<u16>, port: u16) -> Seq<u16>
    decreases ports.len(),
{
    if ports.len() == 0 || ports.last() < port {
        ports.push(port)
    } else if ports.last() == port {
        ports
    } else {
        with_port(ports.drop_last(), port).push(ports.last())
    }
}

/// The ports of the listeners to keep, in increasing order, each once.
pub open spec fn ports_where(
    listeners: Seq<TcpListener>,
    keep: spec_fn(TcpListener) -> bool,
) -> Seq<u16>
    decreases listeners.len(),
{
    if listeners.len() == 0 {
        Seq::empty()
    } else {
        let rest = ports_where(listeners.drop_last(), keep);
        if keep(listeners.last()) {
            with_port(rest, listeners.last().port)
        } else {
            rest
        }
    }
}

/// A port that an emulator may offer to `adb`: not the one of the `adb` server, nor a system port.
pub open spec fn is_offered(port: u16) -> bool {
    port != 5037 && port >= 1024
}

/// The ports that the processes around `root` offer.
pub open spec fn related_ports(
    root: ProcessInfo,
    install_path: Option<Seq<char>>,
    processes: Seq<ProcessInfo>,
    listeners: Seq<TcpListener>,
) -> Seq<u16> {
    ports_where(
        listeners,
        |listener: TcpListener|
            is_related_pid(root, install_path, processes, listener.pid) && is_offered(
                listener.port,
            ),
    )
}

pub open spec fn is_increasing(ports: Seq<u16>) -> bool {
    forall|i: int, j: int| 0 <= i < j < ports.len() ==> ports[i] < ports[j]
}

proof fn lemma_with_port(ports: Seq<u16>, port: u16)
    requires
        is_increasing(ports),
    ensures
        is_increasing(with_port(ports, port)),
        forall|p: u16| #[trigger] with_port(ports, port).contains(p) <==> ports.contains(p) || p == port,
    decreases ports.len(),
{
    let result = with_port(ports, port);
    if ports.len() == 0 || ports.last() < port {
        assert forall|p: u16| #[trigger] result.contains(p) <==> ports.contains(p) || p == port by {
            if ports.contains(p) {
                let k = choose|k: int| 0 <= k < ports.len() && ports[k] == p;
                assert(result[k] == p);
            }
            if p == port {
                assert(result[ports.len() as int] == p);
            }
        }
    } else if ports.last() == port {
        assert(ports[ports.len() - 1] == port);
    } else {
        let head = ports.drop_last();
        assert forall|i: int, j: int| 0 <= i < j < head.len() implies head[i] < head[j] by {
            assert(ports[i] < ports[j]);
        }
        lemma_with_port(head, port);
        let inner = with_port(head, port);
        let last = ports.last();
        assert forall|p: u16| #[trigger] result.contains(p) <==> ports.contains(p) || p == port by {
            if result.contains(p) {
                let k = choose|k: int| 0 <= k < result.len() && result[k] == p;
                if k < inner.len() {
                    assert(inner[k] == p);
                    assert(inner.contains(p));
                    if p != port {
                        let m = choose|m: int| 0 <= m < head.len() && head[m] == p;
                        assert(ports[m] == p);
                    }
                } else {
                    assert(ports[ports.len() - 1] == p);
                }
            }
            if ports.contains(p) {
                let m = choose|m: int| 0 <= m < ports.len() && ports[m] == p;
                if m < head.len() {
                    assert(head[m] == p);
                    assert(inner.contains(p));
                    let k = choose|k: int| 0 <= k < inner.len() && inner[k] == p;
                    assert(result[k] == p);
                } else {
                    assert(result[inner.len() as int] == p);
                }
            }
            if p == port {
                assert(inner.contains(p));
                let k = choose|k: int| 0 <= k < inner.len() && inner[k] == p;
                assert(result[k] == p);
            }
        }
        assert forall|i: int, j: int| 0 <= i < j < result.len() implies result[i] < result[j] by {
            if j == inner.len() {
                assert(inner.contains(inner[i]));
                if inner[i] != port {
                    assert(head.contains(inner[i]));
                    let m = choose|m: int| 0 <= m < head.len() && head[m] == inner[i];
                    assert(ports[m] < ports[ports.len() - 1]);
                }
            }
        }
    }
}

/// The kept ports come in increasing order, each once, and they are exactly those of the listeners
/// to keep.
pub proof fn law_ports_are_sorted_and_complete(
    listeners: Seq<TcpListener>,
    keep: spec_fn(TcpListener) -> bool,
)
    ensures
        is_increasing(ports_where(listeners, keep)),
        forall|p: u16| #[trigger] ports_where(listeners, keep).contains(p) <==> exists|i: int|
            0 <= i < listeners.len() && keep(#[trigger] listeners[i]) && listeners[i].port == p,
    decreases listeners.len(),
{
    if listeners.len() > 0 {
        let head = listeners.drop_last();
        law_ports_are_sorted_and_complete(head, keep);
        let rest = ports_where(head, keep);
        if keep(listeners.last()) {
            lemma_with_port(rest, listeners.last().port);
        }
        assert forall|p: u16| #[trigger] ports_where(listeners, keep).contains(p) <==> exists|i: int|
            0 <= i < listeners.len() && keep(#[trigger] listeners[i]) && listeners[i].port == p by {
            if ports_where(listeners, keep).contains(p) {
                if rest.contains(p) {
                    let i = choose|i: int|
                        0 <= i < head.len() && keep(#[trigger] head[i]) && head[i].port == p;
                    assert(listeners[i] == head[i]);
                } else {
                    assert(listeners[listeners.len() - 1] == listeners.last());
                }
            }
            if exists|i: int|
                0 <= i < listeners.len() && keep(#[trigger] listeners[i]) && listeners[i].port
                    == p {
                let i = choose|i: int|
                    0 <= i < listeners.len() && keep(#[trigger] listeners[i]) && listeners[i].port
                        == p;
                if i < head.len() {
                    assert(head[i] == listeners[i]);
                    assert(rest.contains(p));
                }
            }
        }
    }
}

fn find_parent(processes: &Vec<ProcessInfo>, pid: u32) -> (parent: Option<u32>)
    ensures
        parent == parent_pid(processes@, pid),
{
    let mut n: usize = processes.len();
    assert(processes@.take(n as int) =~= processes@);
    while n > 0
        invariant
            n <= processes@.len(),
            parent_pid(processes@, pid) == parent_pid(processes@.take(n as int), pid),
        decreases n,
    {
        assert(processes@.take(n as int).drop_last() =~= processes@.take(n as int - 1));
        if processes[n - 1].process_id == pid {
            return processes[n - 1].parent_process_id;
        }
        n -= 1;
    }
    None
}

fn pid_in(pids: &Vec<u32>, pid: u32) -> (b: bool)
    ensures
        b == pids@.contains(pid),
{
    let mut i: usize = 0;
    while i < pids.len()
        invariant
            i <= pids@.len(),
            forall|k: int| 0 <= k < i ==> pids@[k] != pid,
        decreases pids@.len() - i,
    {
        if pids[i] == pid {
            return true;
        }
        i += 1;
    }
    false
}

pub fn port_in(ports: &Vec<u16>, port: u16) -> (b: bool)
    ensures
        b == ports@.contains(port),
{
    let mut i: usize = 0;
    while i < ports.len()
        invariant
            i <= ports@.len(),
            forall|k: int| 0 <= k < i ==> ports@[k] != port,
        decreases ports@.len() - i,
    {
        if ports[i] == port {
            return true;
        }
        i += 1;
    }
    false
}

fn ancestors(process: &ProcessInfo, processes: &Vec<ProcessInfo>) -> (result: Vec<u32>)
    ensures
        result@ == ancestors_of(*process, processes@),
{
    let mut result: Vec<u32> = Vec::new();
    let mut current = process.parent_process_id;
    let mut steps: usize = 8;
    while steps > 0
        invariant
            steps <= 8,
            ancestors_of(*process, processes@) == chain(
                processes@,
                current,
                result@,
                steps as nat,
            ),
        decreases steps,
    {
        match current {
            Some(pid) => {
                if pid_in(&result, pid) {
                    return result;
                }
                result.push(pid);
                current = find_parent(processes, pid);
            },
            None => {
                return result;
            },
        }
        steps -= 1;
    }
    result
}

fn shares_ancestor(left: &ProcessInfo, right: &ProcessInfo, processes: &Vec<ProcessInfo>) -> (b:
    bool)
    ensures
        b == share_ancestor(*left, *right, processes@),
{
    let left_ancestors = ancestors(left, processes);
    let right_ancestors = ancestors(right, processes);
    let mut i: usize = 0;
    while i < left_ancestors.len()
        invariant
            i <= left_ancestors@.len(),
            left_ancestors@ == ancestors_of(*left, processes@),
            right_ancestors@ == ancestors_of(*right, processes@),
            forall|k: int| 0 <= k < i ==> !right_ancestors@.contains(#[trigger] left_ancestors@[k]),
        decreases left_ancestors@.len() - i,
    {
        if pid_in(&right_ancestors, left_ancestors[i]) {
            assert(ancestors_of(*left, processes@).contains(left_ancestors@[i as int]));
            return true;
        }
        i += 1;
    }
    assert forall|pid: u32| #[trigger] ancestors_of(*left, processes@).contains(
        pid,
    ) implies !ancestors_of(*right, processes@).contains(pid) by {
        let k = choose|k: int| 0 <= k < left_ancestors@.len() && left_ancestors@[k] == pid;
        assert(!right_ancestors@.contains(left_ancestors@[k]));
    }
    false
}

fn process_related(
    root: &ProcessInfo,
    install_path: Option<&str>,
    process: &ProcessInfo,
    processes: &Vec<ProcessInfo>,
) -> (b: bool)
    ensures
        b == is_related(
            *root,
            match install_path {
                Some(path) => Some(path@),
                None => None,
            },
            *process,
            processes@,
        ),
{
    if process.process_id == root.process_id {
        return true;
    }
    if let Some(parent) = process.parent_process_id {
        if parent == root.process_id {
            return true;
        }
    }
    if shares_ancestor(root, process, processes) {
        return true;
    }
    match (install_path, &process.executable_path) {
        (Some(dir), Some(path)) => paths::is_under(path, dir),
        _ => false,
    }
}

fn pid_related(
    root: &ProcessInfo,
    install_path: Option<&str>,
    processes: &Vec<ProcessInfo>,
    pid: u32,
) -> (b: bool)
    ensures
        b == is_related_pid(
            *root,
            match install_path {
                Some(path) => Some(path@),
                None => None,
            },
            processes@,
            pid,
        ),
{
    let ghost install = match install_path {
        Some(path) => Some(path@),
        None => None,
    };
    let mut i: usize = 0;
    while i < processes.len()
        invariant
            i <= processes@.len(),
            install == (match install_path {
                Some(path) => Some(path@),
                None => None,
            }),
            forall|k: int|
                0 <= k < i ==> !((#[trigger] processes@[k]).process_id == pid && is_related(
                    *root,
                    install,
                    processes@[k],
                    processes@,
                )),
        decreases processes@.len() - i,
    {
        if processes[i].process_id == pid && process_related(
            root,
            install_path,
            &processes[i],
            processes,
        ) {
            return true;
        }
        i += 1;
    }
    false
}

/// Puts `port` among `ports`, which are in increasing order.
pub fn insert_port(ports: &mut Vec<u16>, port: u16)
    ensures
        final(ports)@ == with_port(old(ports)@, port),
{
    let mut n: usize = ports.len();
    while n > 0 && ports[n - 1] > port
        invariant
            n <= ports@.len(),
            ports@ == old(ports)@,
            forall|k: int| n <= k < ports@.len() ==> ports@[k] > port,
        decreases n,
    {
        n -= 1;
    }
    proof {
        lemma_insert_at(ports@, port, n as int);
    }
    if n > 0 && ports[n - 1] == port {
        return;
    }
    ports.insert(n, port);
}

proof fn lemma_insert_at(ports: Seq<u16>, port: u16, n: int)
    requires
        0 <= n <= ports.len(),
        n > 0 ==> ports[n - 1] <= port,
        forall|k: int| n <= k < ports.len() ==> ports[k] > port,
    ensures
        n > 0 && ports[n - 1] == port ==> with_port(ports, port) == ports,
        !(n > 0 && ports[n - 1] == port) ==> with_port(ports, port) == ports.insert(n, port),
    decreases ports.len(),
{
    if n == ports.len() {
        assert(ports.insert(n, port) =~= ports.push(port));
    } else {
        assert(ports.last() == ports[ports.len() - 1]);
        lemma_insert_at(ports.drop_last(), port, n);
        assert(ports.drop_last().push(ports.last()) =~= ports);
        assert(ports.insert(n, port) =~= ports.drop_last().insert(n, port).push(ports.last()));
    }
}

/// The ports that the processes around `root` offer, in increasing order.
pub fn related_listener_ports(
    root: &ProcessInfo,
    install_path: Option<&str>,
    processes: &Vec<ProcessInfo>,
    listeners: &Vec<TcpListener>,
) -> (ports: Vec<u16>)
    ensures
        ports@ == related_ports(
            *root,
            match install_path {
                Some(path) => Some(path@),
                None => None,
            },
            processes@,
            listeners@,
        ),
{
    let ghost install = match install_path {
        Some(path) => Some(path@),
        None => None,
    };
    let ghost keep = |listener: TcpListener|
        is_related_pid(*root, install, processes@, listener.pid) && is_offered(listener.port);
    let mut ports: Vec<u16> = Vec::new();
    let mut i: usize = 0;
    assert(listeners@.take(0) =~= Seq::<TcpListener>::empty());
    while i < listeners.len()
        invariant
            i <= listeners@.len(),
            install == (match install_path {
                Some(path) => Some(path@),
                None => None,
            }),
            keep == (|listener: TcpListener|
                is_related_pid(*root, install, processes@, listener.pid) && is_offered(
                    listener.port,
                )),
            ports@ == ports_where(listeners@.take(i as int), keep),
        decreases listeners@.len() - i,
    {
        let listener = listeners[i];
        assert(listeners@.take(i as int + 1).drop_last() =~= listeners@.take(i as int));
        if listener.port != 5037 && listener.port >= 1024 && pid_related(
            root,
            install_path,
            processes,
            listener.pid,
        ) {
            insert_port(&mut ports, listener.port);
        }
        i += 1;
    }
    assert(listeners@.take(i as int) =~= listeners@);
    ports
}

/// The process carries the network of an LDPlayer instance: by its command line, by its relatives,
/// or by when it was started.
pub open spec fn is_network_of(
    ld_process: ProcessInfo,
    instance_index: u32,
    process: ProcessInfo,
    processes: Seq<ProcessInfo>,
) -> bool {
    &&& same_but_case(process.name@, "VBoxNetNAT.exe"@)
    &&& {
        ||| process.command_line is Some && contains_text(
            process.command_line->0@,
            decimal(instance_index as nat),
        )
        ||| share_ancestor(ld_process, process, processes)
        ||| -60 <= ld_process.creation_time - process.creation_time <= 60
    }
}

pub open spec fn is_network_pid(
    ld_process: ProcessInfo,
    instance_index: u32,
    processes: Seq<ProcessInfo>,
    pid: u32,
) -> bool {
    exists|i: int|
        0 <= i < processes.len() && (#[trigger] processes[i]).process_id == pid && is_network_of(
            ld_process,
            instance_index,
            processes[i],
            processes,
        )
}

fn near_creation_time(left: &ProcessInfo, right: &ProcessInfo) -> (b: bool)
    ensures
        b == (-60 <= left.creation_time - right.creation_time <= 60),
{
    if left.creation_time >= right.creation_time {
        left.creation_time - right.creation_time <= 60
    } else {
        right.creation_time - left.creation_time <= 60
    }
}

/// The processes that carry the network of an LDPlayer instance.
pub fn matching_vbox_pids(
    ld_process: &ProcessInfo,
    instance_index: u32,
    processes: &Vec<ProcessInfo>,
) -> (pids: Vec<u32>)
    ensures
        forall|pid: u32| #[trigger]
            pids@.contains(pid) <==> is_network_pid(
                *ld_process,
                instance_index,
                processes@,
                pid,
            ),
{
    let token = text::decimal_of(instance_index as u64);
    let mut pids: Vec<u32> = Vec::new();
    let mut i: usize = 0;
    while i < processes.len()
        invariant
            i <= processes@.len(),
            token@ == decimal(instance_index as nat),
            forall|pid: u32| #[trigger]
                pids@.contains(pid) <==> exists|k: int|
                    0 <= k < i && (#[trigger] processes@[k]).process_id == pid && is_network_of(
                        *ld_process,
                        instance_index,
                        processes@[k],
                        processes@,
                    ),
        decreases processes@.len() - i,
    {
        let process = &processes[i];
        let named = match &process.command_line {
            Some(line) => text::contains(line, &token),
            None => false,
        };
        let found = text::same_ignoring_case(&process.name, "VBoxNetNAT.exe") && (named
            || shares_ancestor(ld_process, process, processes) || near_creation_time(
            ld_process,
            process,
        ));
        let ghost before = pids@;
        if found {
            pids.push(process.process_id);
        }
        assert forall|pid: u32| #[trigger] pids@.contains(pid) <==> exists|k: int|
            0 <= k < i + 1 && (#[trigger] processes@[k]).process_id == pid && is_network_of(
                *ld_process,
                instance_index,
                processes@[k],
                processes@,
            ) by {
            if before.contains(pid) {
                let k = choose|k: int| 0 <= k < before.len() && before[k] == pid;
                assert(pids@[k] == pid);
            }
            if found && pid == process.process_id {
                assert(pids@[before.len() as int] == pid);
                assert(processes@[i as int].process_id == pid);
            }
            if pids@.contains(pid) && !before.contains(pid) {
                let k = choose|k: int| 0 <= k < pids@.len() && pids@[k] == pid;
                if k < before.len() {
                    assert(before[k] == pid);
                }
            }
        }
        i += 1;
    }
    pids
}

/// What separates a name from its number.
pub open spec fn is_number_separator(c: char) -> bool {
    c == '-' || c == '_' || c == '=' || c == ':' || is_white_space(c)
}

/// The digits that `s` starts with.
pub open spec fn leading_digits(s: Seq<char>) -> Seq<char>
    decreases s.len(),
{
    if s.len() > 0 && is_digit(s[0]) {
        seq![s[0]] + leading_digits(s.drop_first())
    } else {
        Seq::empty()
    }
}

/// The first digits in `s`. Behind a separator nothing but separators may stand before them.
pub open spec fn first_digits(s: Seq<char>, separated: bool) -> Option<Seq<char>>
    decreases s.len(),
{
    if s.len() == 0 {
        None
    } else if is_digit(s[0]) {
        Some(leading_digits(s))
    } else if is_number_separator(s[0]) {
        first_digits(s.drop_first(), true)
    } else if separated {
        None
    } else {
        first_digits(s.drop_first(), false)
    }
}

/// The first number in `s`, where it fits.
pub open spec fn number_after(s: Seq<char>) -> Option<int> {
    match first_digits(s, false) {
        Some(digits) => digits_at_most(digits, u32::MAX as int),
        None => None,
    }
}

proof fn lemma_leading_digits(s: Seq<char>, from: int, to: int)
    requires
        0 <= from <= to <= s.len(),
        forall|k: int| from <= k < to ==> is_digit(#[trigger] s[k]),
        to < s.len() ==> !is_digit(s[to]),
    ensures
        leading_digits(s.skip(from)) == s.subrange(from, to),
    decreases to - from,
{
    if from < to {
        lemma_leading_digits(s, from + 1, to);
        assert(s.skip(from).drop_first() =~= s.skip(from + 1));
        assert(is_digit(s.skip(from)[0]));
        assert(s.subrange(from, to) =~= seq![s[from]] + s.subrange(from + 1, to));
    } else {
        assert(s.subrange(from, to) =~= Seq::<char>::empty());
        if from < s.len() {
            assert(s.skip(from)[0] == s[to]);
        }
    }
}

fn first_number_after(chars: &Vec<char>, from: usize) -> (n: Option<u32>)
    requires
        from <= chars@.len(),
    ensures
        match n {
            Some(n) => number_after(chars@.skip(from as int)) == Some(n as int),
            None => number_after(chars@.skip(from as int)) is None,
        },
{
    let mut i: usize = from;
    let mut separated = false;
    while i < chars.len()
        invariant
            from <= i <= chars@.len(),
            first_digits(chars@.skip(from as int), false) == first_digits(
                chars@.skip(i as int),
                separated,
            ),
        decreases chars@.len() - i,
    {
        let c: char = chars[i];
        assert(chars@.skip(i as int)[0] == c);
        assert(chars@.skip(i as int).drop_first() =~= chars@.skip(i as int + 1));
        if '0' <= c && c <= '9' {
            let mut end: usize = i;
            while end < chars.len() && '0' <= chars[end] && chars[end] <= '9'
                invariant
                    i <= end <= chars@.len(),
                    forall|k: int| i <= k < end ==> is_digit(#[trigger] chars@[k]),
                decreases chars@.len() - end,
            {
                end += 1;
            }
            proof {
                lemma_leading_digits(chars@, i as int, end as int);
            }
            return match text::parse_digits(chars, i, end, 0xffff_ffff) {
                Some(n) => Some(n as u32),
                None => None,
            };
        }
        if c == '-' || c == '_' || c == '=' || c == ':' || text::white_space(c) {
            separated = true;
        } else if separated {
            return None;
        }
        i += 1;
    }
    assert(chars@.skip(i as int) =~= Seq::<char>::empty());
    None
}

/// The number behind the first of `names` that has one.
pub open spec fn named_number(text: Seq<char>, names: Seq<Seq<char>>) -> Option<int>
    decreases names.len(),
{
    if names.len() == 0 {
        None
    } else {
        let lower = lowered(text);
        let here = match first_place(lower, names[0]) {
            Some(i) => number_after(lower.skip(i + names[0].len())),
            None => None,
        };
        match here {
            Some(n) => Some(n),
            None => named_number(text, names.drop_first()),
        }
    }
}

pub fn parse_named_number(text: &str, names: &Vec<&'static str>) -> (n: Option<u32>)
    ensures
        match n {
            Some(n) => named_number(text@, names@.map_values(|s: &'static str| s@)) == Some(
                n as int,
            ),
            None => named_number(text@, names@.map_values(|s: &'static str| s@)) is None,
        },
{
    let ghost all = names@.map_values(|s: &'static str| s@);
    let lower = text::to_chars(&text::to_lower(text));
    let mut i: usize = 0;
    assert(all.skip(0) =~= all);
    while i < names.len()
        invariant
            i <= names@.len(),
            all == names@.map_values(|s: &'static str| s@),
            lower@ == lowered(text@),
            named_number(text@, all) == named_number(text@, all.skip(i as int)),
        decreases names@.len() - i,
    {
        let name = text::to_chars(names[i]);
        assert(all.skip(i as int)[0] == name@);
        assert(all.skip(i as int).drop_first() =~= all.skip(i as int + 1));
        if let Some(place) = text::find_first(&lower, &name) {
            if let Some(n) = first_number_after(&lower, place + name.len()) {
                return Some(n);
            }
        }
        i += 1;
    }
    assert(all.skip(i as int) =~= Seq::<Seq<char>>::empty());
    None
}

/// The number behind the last `marker`.
pub open spec fn trailing_number(text: Seq<char>, marker: Seq<char>) -> Option<int> {
    let lower = lowered(text);
    match last_place(lower, lowered(marker)) {
        Some(i) => number_after(lower.skip(i + marker.len())),
        None => None,
    }
}

pub fn parse_trailing_segment_number(text: &str, marker: &str) -> (n: Option<u32>)
    ensures
        match n {
            Some(n) => trailing_number(text@, marker@) == Some(n as int),
            None => trailing_number(text@, marker@) is None,
        },
{
    let lower = text::to_chars(&text::to_lower(text));
    let marker_chars = text::to_chars(&text::to_lower(marker));
    match text::find_last(&lower, &marker_chars) {
        Some(place) => first_number_after(&lower, place + marker_chars.len()),
        None => None,
    }
}

/// The text of an optional string; nothing where it is absent.
pub open spec fn or_nothing(s: Option<String>) -> Seq<char> {
    match s {
        Some(s) => s@,
        None => Seq::empty(),
    }
}

/// The command line and the path of a process, with a space between them.
pub open spec fn command_and_path(process: ProcessInfo) -> Seq<char> {
    or_nothing(process.command_line) + seq![' '] + or_nothing(process.executable_path)
}

pub fn describe_process(process: &ProcessInfo) -> (s: String)
    ensures
        s@ == command_and_path(*process),
{
    let mut s = String::new();
    if let Some(line) = &process.command_line {
        s.append(line);
    }
    s.push(' ');
    if let Some(path) = &process.executable_path {
        s.append(path);
    }
    assert(s@ =~= command_and_path(*process));
    s
}

proof fn lemma_chain_links(
    processes: Seq<ProcessInfo>,
    current: Option<u32>,
    seen: Seq<u32>,
    steps: nat,
    i: int,
)
    requires
        seen.len() > 0 ==> current == parent_pid(processes, seen.last()),
        forall|k: int|
            0 < k < seen.len() ==> parent_pid(processes, seen[k - 1]) == Some(#[trigger] seen[k]),
        0 < i < chain(processes, current, seen, steps).len(),
    ensures
        parent_pid(processes, chain(processes, current, seen, steps)[i - 1]) == Some(
            chain(processes, current, seen, steps)[i],
        ),
    decreases steps,
{
    if let Some(pid) = current {
        if steps > 0 && !seen.contains(pid) {
            let more = seen.push(pid);
            assert forall|k: int| 0 < k < more.len() implies parent_pid(processes, more[k - 1])
                == Some(#[trigger] more[k]) by {
                if k < seen.len() {
                    assert(more[k] == seen[k] && more[k - 1] == seen[k - 1]);
                }
            }
            lemma_chain_links(
                processes,
                parent_pid(processes, pid),
                more,
                (steps - 1) as nat,
                i,
            );
        }
    }
}

proof fn lemma_chain_begins(
    processes: Seq<ProcessInfo>,
    current: Option<u32>,
    seen: Seq<u32>,
    steps: nat,
)
    ensures
        seen.is_prefix_of(chain(processes, current, seen, steps)),
        chain(processes, current, seen, steps).len() <= seen.len() + steps,
    decreases steps,
{
    if let Some(pid) = current {
        if steps > 0 && !seen.contains(pid) {
            let more = seen.push(pid);
            let whole = chain(processes, parent_pid(processes, pid), more, (steps - 1) as nat);
            lemma_chain_begins(processes, parent_pid(processes, pid), more, (steps - 1) as nat);
            assert(seen =~= whole.take(seen.len() as int)) by {
                assert(more =~= whole.take(more.len() as int));
                assert(seen =~= more.take(seen.len() as int));
            }
        }
    }
}

/// The ancestors of a process begin with its parent, each is the parent of the one before, and there
/// are eight at most.
pub proof fn law_ancestors_are_parents_of_parents(
    process: ProcessInfo,
    processes: Seq<ProcessInfo>,
    i: int,
)
    ensures
        process.parent_process_id is None ==> ancestors_of(process, processes).len() == 0,
        process.parent_process_id matches Some(parent) ==> ancestors_of(process, processes).len() > 0
            && ancestors_of(process, processes)[0] == parent,
        0 < i < ancestors_of(process, processes).len() ==> parent_pid(
            processes,
            ancestors_of(process, processes)[i - 1],
        ) == Some(ancestors_of(process, processes)[i]),
        ancestors_of(process, processes).len() <= 8,
{
    let none = Seq::<u32>::empty();
    lemma_chain_begins(processes, process.parent_process_id, none, 8);
    if let Some(parent) = process.parent_process_id {
        assert(!none.contains(parent));
        lemma_chain_begins(processes, parent_pid(processes, parent), none.push(parent), 7);
        let all = ancestors_of(process, processes);
        assert(none.push(parent) =~= all.take(1));
        assert(all[0] == all.take(1)[0]);
    }
    if 0 < i < ancestors_of(process, processes).len() {
        lemma_chain_links(processes, process.parent_process_id, none, 8, i);
    }
}

/// A process belongs to itself, to its parent, to its siblings, and to an installation that it lies
/// in.
pub proof fn law_relatives_belong_together(
    root: ProcessInfo,
    process: ProcessInfo,
    processes: Seq<ProcessInfo>,
    install_path: Option<Seq<char>>,
)
    ensures
        is_related(root, install_path, root, processes),
        process.parent_process_id == Some(root.process_id) ==> is_related(
            root,
            install_path,
            process,
            processes,
        ),
        root.parent_process_id is Some && process.parent_process_id == root.parent_process_id
            ==> is_related(root, install_path, process, processes),
        share_ancestor(root, process, processes) == share_ancestor(process, root, processes),
        install_path matches Some(dir) ==> (process.executable_path matches Some(path) ==> (
        lies_under(path@, dir) ==> is_related(root, install_path, process, processes))),
{
    if root.parent_process_id is Some && process.parent_process_id == root.parent_process_id {
        let parent = root.parent_process_id->0;
        law_ancestors_are_parents_of_parents(root, processes, 0);
        law_ancestors_are_parents_of_parents(process, processes, 0);
        assert(ancestors_of(root, processes).contains(parent));
        assert(ancestors_of(process, processes).contains(parent));
    }
    if share_ancestor(root, process, processes) {
        let pid = choose|pid: u32| #[trigger]
            ancestors_of(root, processes).contains(pid) && ancestors_of(process, processes).contains(
                pid,
            );
        assert(ancestors_of(process, processes).contains(pid));
    }
    if share_ancestor(process, root, processes) {
        let pid = choose|pid: u32| #[trigger]
            ancestors_of(process, processes).contains(pid) && ancestors_of(root, processes).contains(
                pid,
            );
        assert(ancestors_of(root, processes).contains(pid));
    }
}

/// Emulators offer neither the port of the `adb` server nor one of the system.
pub proof fn law_system_ports_are_not_offered(port: u16)
    ensures
        port < 1024 ==> !is_offered(port),
        !is_offered(5037),
        port >= 1024 && port != 5037 ==> is_offered(port),
{
}

proof fn lemma_digits_lead(digits: Seq<char>, rest: Seq<char>)
    requires
        forall|i: int| 0 <= i < digits.len() ==> is_digit(#[trigger] digits[i]),
        rest.len() > 0 ==> !is_digit(rest[0]),
    ensures
        leading_digits(digits + rest) == digits,
    decreases digits.len(),
{
    let whole = digits + rest;
    if digits.len() > 0 {
        let tail = digits.drop_first();
        assert(whole[0] == digits[0]);
        assert forall|i: int| 0 <= i < tail.len() implies is_digit(#[trigger] tail[i]) by {
            assert(tail[i] == digits[i + 1]);
        }
        lemma_digits_lead(tail, rest);
        assert(whole.drop_first() =~= tail + rest);
        assert(digits =~= seq![digits[0]] + tail);
    } else {
        assert(whole =~= rest);
        assert(leading_digits(whole) =~= digits);
    }
}

/// A number is found behind what separates it from its name, however much of that there is, up to
/// the first that is no digit; behind a separator anything but a number ends the search.
pub proof fn law_numbers_follow_their_separators(
    between: Seq<char>,
    n: nat,
    rest: Seq<char>,
    separated: bool,
)
    requires
        n <= u32::MAX,
        forall|i: int|
            0 <= i < between.len() ==> is_number_separator(#[trigger] between[i]) && !is_digit(
                between[i],
            ),
        rest.len() > 0 ==> !is_digit(rest[0]),
    ensures
        first_digits(between + decimal(n) + rest, separated) == Some(decimal(n)),
        number_after(between + decimal(n) + rest) == Some(n as int),
        rest.len() > 0 && !is_number_separator(rest[0]) ==> first_digits(rest, true) is None,
    decreases between.len(),
{
    crate::text::law_written_numbers_read_back(n, u32::MAX as int);
    let digits = decimal(n);
    assert(digits.len() > 0 && is_digit(digits[0]));
    let whole = between + digits + rest;
    if between.len() > 0 {
        let tail = between.drop_first();
        assert(whole[0] == between[0]);
        assert(is_number_separator(between[0]) && !is_digit(between[0]));
        assert forall|i: int| 0 <= i < tail.len() implies is_number_separator(#[trigger] tail[i])
            && !is_digit(tail[i]) by {
            assert(tail[i] == between[i + 1]);
        }
        law_numbers_follow_their_separators(tail, n, rest, true);
        assert(whole.drop_first() =~= tail + digits + rest);
    } else {
        assert(whole =~= digits + rest);
        assert(whole[0] == digits[0]);
        lemma_digits_lead(digits, rest);
    }
}

} // verus!
