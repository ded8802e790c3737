//! What a search has found so far.
use crate::config::RulerConfig;
use crate::target_discovery::{
    base_config, is_base_config, LatencyClass, Source, TargetCandidate, TargetKind,
};
use crate::text;
use crate::text::{opt_view, views};
use vstd::prelude::*;

verus! {

/// What is known of a target when it is found.
#[verifier::ext_equal]
pub struct Found {
    pub kind: TargetKind,
    pub fingerprint: Seq<char>,
    pub name: Seq<char>,
    pub detail: Seq<char>,
    pub install_path: Option<Seq<char>>,
    pub instance_index: Option<u32>,
    pub device_id: Option<Seq<char>>,
    pub window_handle: Option<isize>,
    pub window_title: Option<Seq<char>>,
    pub window_class: Option<Seq<char>>,
}

pub open spec fn found(candidate: TargetCandidate) -> Found {
    Found {
        kind: candidate.kind,
        fingerprint: candidate.fingerprint@,
        name: candidate.name@,
        detail: candidate.detail@,
        install_path: opt_view(candidate.config.install_path),
        instance_index: candidate.config.instance_index,
        device_id: opt_view(candidate.config.device_id),
        window_handle: candidate.config.window_handle,
        window_title: opt_view(candidate.config.window_title),
        window_class: opt_view(candidate.config.window_class),
    }
}

pub open spec fn all_found(candidates: Seq<TargetCandidate>) -> Seq<Found> {
    candidates.map_values(|candidate: TargetCandidate| found(candidate))
}

pub open spec fn capture_name(kind: TargetKind) -> Seq<char> {
    match kind {
        TargetKind::MuMu => "mumu"@,
        TargetKind::LDPlayer => "ldplayer"@,
        TargetKind::Windows => "window"@,
        TargetKind::Adb => "adb"@,
    }
}

/// The candidate can be captured as it is, keeps from the configuration before what does not
/// depend on the target, and has not been tried yet.
pub open spec fn is_fresh(candidate: TargetCandidate, previous: Option<RulerConfig>) -> bool {
    let config = candidate.config;
    &&& is_base_config(
        config,
        capture_name(candidate.kind),
        Source {
            install_path: config.install_path,
            instance_index: config.instance_index,
            device_id: config.device_id,
            window_handle: config.window_handle,
            window_title: config.window_title,
            window_class: config.window_class,
        },
        candidate.fingerprint@,
        previous,
    )
    &&& candidate.latency is None
    &&& candidate.latency_class == LatencyClass::Unknown
    &&& candidate.preview is None
    &&& candidate.error is None
}

pub open spec fn all_fresh(
    candidates: Seq<TargetCandidate>,
    previous: Option<RulerConfig>,
) -> bool {
    forall|i: int| 0 <= i < candidates.len() ==> is_fresh(#[trigger] candidates[i], previous)
}

/// The targets found so far, and the ports and devices that are theirs.
#[derive(Debug)]
pub struct Search {
    pub candidates: Vec<TargetCandidate>,
    pub claimed_ports: Vec<u16>,
    pub claimed_serials: Vec<String>,
}

#[verifier::ext_equal]
pub struct SearchView {
    pub found: Seq<Found>,
    pub ports: Seq<u16>,
    pub serials: Seq<Seq<char>>,
}

impl View for Search {
    type V = SearchView;

    open spec fn view(&self) -> SearchView {
        SearchView {
            found: all_found(self.candidates@),
            ports: self.claimed_ports@,
            serials: views(self.claimed_serials@),
        }
    }
}

pub open spec fn nothing_found() -> SearchView {
    SearchView { found: Seq::empty(), ports: Seq::empty(), serials: Seq::empty() }
}

impl SearchView {
    /// With one more target, which the given port and device belong to.
    pub open spec fn with_device(self, target: Found, port: u16, serial: Seq<char>) -> SearchView {
        SearchView {
            found: self.found.push(target),
            ports: self.ports.push(port),
            serials: self.serials.push(serial),
        }
    }

    /// With one more target.
    pub open spec fn with_target(self, target: Found) -> SearchView {
        SearchView { found: self.found.push(target), ..self }
    }
}

pub open spec fn opt_config(previous: Option<&RulerConfig>) -> Option<RulerConfig> {
    match previous {
        Some(config) => Some(*config),
        None => None,
    }
}

/// A target that has just been found.
pub fn new_candidate(
    kind: TargetKind,
    fingerprint: String,
    name: String,
    detail: String,
    source: Source,
    previous: Option<&RulerConfig>,
) -> (candidate: TargetCandidate)
    ensures
        is_fresh(candidate, opt_config(previous)),
        found(candidate) == (Found {
            kind,
            fingerprint: fingerprint@,
            name: name@,
            detail: detail@,
            install_path: opt_view(source.install_path),
            instance_index: source.instance_index,
            device_id: opt_view(source.device_id),
            window_handle: source.window_handle,
            window_title: opt_view(source.window_title),
            window_class: opt_view(source.window_class),
        }),
{
    let capture_type = match kind {
        TargetKind::MuMu => "mumu",
        TargetKind::LDPlayer => "ldplayer",
        TargetKind::Windows => "window",
        TargetKind::Adb => "adb",
    };
    let config = base_config(capture_type, source, &fingerprint, previous);
    TargetCandidate {
        kind,
        fingerprint,
        name,
        detail,
        config,
        latency: None,
        latency_class: LatencyClass::Unknown,
        preview: None,
        error: None,
    }
}

impl Search {
    pub fn new() -> (search: Self)
        ensures
            search@ == nothing_found(),
            search.candidates@.len() == 0,
    {
        let search = Search {
            candidates: Vec::new(),
            claimed_ports: Vec::new(),
            claimed_serials: Vec::new(),
        };
        assert(search@ =~= nothing_found());
        search
    }

    /// Adds a target that the given port and device belong to.
    pub fn add_device(&mut self, candidate: TargetCandidate, port: u16, serial: String)
        ensures
            final(self)@ == old(self)@.with_device(found(candidate), port, serial@),
            final(self).candidates@ == old(self).candidates@.push(candidate),
    {
        let ghost before = self@;
        self.candidates.push(candidate);
        self.claimed_ports.push(port);
        self.claimed_serials.push(serial);
        assert(self@ =~= before.with_device(found(candidate), port, serial@));
    }

    /// Adds a target.
    pub fn add_target(&mut self, candidate: TargetCandidate)
        ensures
            final(self)@ == old(self)@.with_target(found(candidate)),
            final(self).candidates@ == old(self).candidates@.push(candidate),
    {
        let ghost before = self@;
        self.candidates.push(candidate);
        assert(self@ =~= before.with_target(found(candidate)));
    }
}

/// The targets, without those whose fingerprint came before.
pub open spec fn without_repeats(targets: Seq<Found>) -> Seq<Found>
    decreases targets.len(),
{
    if targets.len() == 0 {
        Seq::empty()
    } else {
        let rest = without_repeats(targets.drop_last());
        if has_fingerprint(rest, targets.last().fingerprint) {
            rest
        } else {
            rest.push(targets.last())
        }
    }
}

pub open spec fn has_fingerprint(targets: Seq<Found>, fingerprint: Seq<char>) -> bool {
    exists|i: int| 0 <= i < targets.len() && (#[trigger] targets[i]).fingerprint == fingerprint
}

fn fingerprint_in(candidates: &Vec<TargetCandidate>, fingerprint: &str) -> (b: bool)
    ensures
        b == has_fingerprint(all_found(candidates@), fingerprint@),
{
    let ghost all = all_found(candidates@);
    let mut i: usize = 0;
    while i < candidates.len()
        invariant
            i <= candidates@.len(),
            all == all_found(candidates@),
            forall|k: int| 0 <= k < i ==> (#[trigger] all[k]).fingerprint != fingerprint@,
        decreases candidates@.len() - i,
    {
        assert(all[i as int] == found(candidates@[i as int]));
        if text::same(&candidates[i].fingerprint, fingerprint) {
            return true;
        }
        i += 1;
    }
    false
}

/// Keeps of the targets with the same fingerprint the one that was found first.
pub fn keep_first(candidates: Vec<TargetCandidate>, previous: Option<&RulerConfig>) -> (kept: Vec<
    TargetCandidate,
>)
    requires
        all_fresh(candidates@, opt_config(previous)),
    ensures
        all_found(kept@) == without_repeats(all_found(candidates@)),
        all_fresh(kept@, opt_config(previous)),
{
    let ghost all = candidates@;
    let ghost targets = all_found(all);
    let mut queue = candidates;
    let mut reversed: Vec<TargetCandidate> = Vec::new();
    while queue.len() > 0
        invariant
            queue@ == all.take(queue@.len() as int),
            queue@.len() <= all.len(),
            reversed@.len() == all.len() - queue@.len(),
            forall|k: int| 0 <= k < reversed@.len() ==> #[trigger] reversed@[k] == all[all.len() - 1 - k],
        decreases queue@.len(),
    {
        let ghost before = reversed@;
        if let Some(candidate) = queue.pop() {
            assert(queue@ =~= all.take(queue@.len() as int));
            reversed.push(candidate);
        }
    }
    let mut kept: Vec<TargetCandidate> = Vec::new();
    let ghost mut n: int = 0;
    assert(targets.take(0) =~= Seq::<Found>::empty());
    assert(all_found(kept@) =~= Seq::<Found>::empty());
    while reversed.len() > 0
        invariant
            0 <= n <= all.len(),
            targets == all_found(all),
            all_fresh(all, opt_config(previous)),
            reversed@.len() == all.len() - n,
            forall|k: int| 0 <= k < reversed@.len() ==> #[trigger] reversed@[k] == all[all.len() - 1 - k],
            all_found(kept@) == without_repeats(targets.take(n)),
            all_fresh(kept@, opt_config(previous)),
        decreases reversed@.len(),
    {
        let ghost before = reversed@;
        let ghost kept_before = kept@;
        if let Some(candidate) = reversed.pop() {
            assert(candidate == before[before.len() - 1]);
            assert(candidate == all[n]);
            assert(targets.take(n + 1).drop_last() =~= targets.take(n));
            assert(targets.take(n + 1).last() == found(candidate));
            assert(is_fresh(all[n], opt_config(previous)));
            if !fingerprint_in(&kept, &candidate.fingerprint) {
                kept.push(candidate);
                assert(all_found(kept@) =~= all_found(kept_before).push(found(candidate)));
                assert forall|i: int| 0 <= i < kept@.len() implies is_fresh(
                    #[trigger] kept@[i],
                    opt_config(previous),
                ) by {
                    if i < kept_before.len() {
                        assert(kept@[i] == kept_before[i]);
                    }
                }
            }
            proof {
                n = n + 1;
            }
        }
    }
    assert(targets.take(n) =~= targets);
    kept
}

/// No two of the targets kept have the same fingerprint, and every fingerprint that was found is
/// kept.
pub proof fn law_fingerprints_are_unique(targets: Seq<Found>)
    ensures
        forall|i: int, j: int|
            0 <= i < j < without_repeats(targets).len() ==> (
            #[trigger] without_repeats(targets)[i]).fingerprint != (
            #[trigger] without_repeats(targets)[j]).fingerprint,
        forall|i: int|
            0 <= i < targets.len() ==> has_fingerprint(
                without_repeats(targets),
                (#[trigger] targets[i]).fingerprint,
            ),
    decreases targets.len(),
{
    if targets.len() > 0 {
        let head = targets.drop_last();
        law_fingerprints_are_unique(head);
        let rest = without_repeats(head);
        let kept = without_repeats(targets);
        assert forall|i: int| 0 <= i < targets.len() implies has_fingerprint(
            kept,
            (#[trigger] targets[i]).fingerprint,
        ) by {
            if i < head.len() {
                assert(head[i] == targets[i]);
                let k = choose|k: int|
                    0 <= k < rest.len() && (#[trigger] rest[k]).fingerprint
                        == targets[i].fingerprint;
                assert(kept[k].fingerprint == targets[i].fingerprint);
            } else if !has_fingerprint(rest, targets.last().fingerprint) {
                assert(kept[rest.len() as int].fingerprint == targets[i].fingerprint);
            }
        }
        assert forall|i: int, j: int| 0 <= i < j < kept.len() implies (
        #[trigger] kept[i]).fingerprint != (#[trigger] kept[j]).fingerprint by {
            if j < rest.len() {
                assert(rest[i].fingerprint != rest[j].fingerprint);
            } else {
                assert(kept[i] == rest[i]);
            }
        }
    }
}

} // verus!
