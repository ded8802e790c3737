//! Trial screenshots of the targets on offer: which targets are kept over a new search, and what
//! becomes of the results.
use crate::config_wizard::{ProbeMessage, WizardCore};
use crate::target_discovery;
use crate::target_discovery::{class_of, LatencyClass, PreviewFrame, TargetCandidate};
use crate::text;
use crate::text::opt_view;
use std::collections::VecDeque;
use vstd::prelude::*;

verus! {

/// The average of a target's latency is taken over this many screenshots.
pub const LATENCY_SAMPLE_WINDOW: usize = 12;

/// The longest time that can be measured, in nanoseconds.
pub const LONGEST_LATENCY: u128 = 18_446_744_073_709_551_615_999_999_999;

/// The latest latencies of a target, in nanoseconds.
#[derive(Debug)]
pub struct LatencySamples {
    pub fingerprint: String,
    pub nanos: VecDeque<u128>,
}

pub open spec fn total(samples: Seq<u128>) -> int
    decreases samples.len(),
{
    if samples.len() == 0 {
        0
    } else {
        total(samples.drop_last()) + samples.last()
    }
}

/// The average of the samples, as far as 64 bits hold it; zero where there are none.
pub open spec fn average_of(samples: Seq<u128>) -> int {
    if samples.len() == 0 {
        0
    } else if total(samples) / samples.len() as int > u64::MAX {
        u64::MAX as int
    } else {
        total(samples) / samples.len() as int
    }
}

proof fn lemma_total_bound(samples: Seq<u128>, n: int)
    requires
        0 <= n <= samples.len(),
    ensures
        0 <= total(samples.take(n)) <= total(samples),
    decreases samples.len(),
{
    if n < samples.len() {
        lemma_total_bound(samples.drop_last(), n);
        assert(samples.drop_last().take(n) =~= samples.take(n));
    } else {
        assert(samples.take(n) =~= samples);
        if samples.len() > 0 {
            lemma_total_bound(samples.drop_last(), samples.len() - 1);
            assert(samples.drop_last().take(samples.len() - 1) =~= samples.drop_last());
        }
    }
}

/// The average of the latencies.
pub fn average_duration(samples: &VecDeque<u128>) -> (average: u128)
    requires
        total(samples@) <= u128::MAX,
    ensures
        average == average_of(samples@),
{
    if samples.len() == 0 {
        return 0;
    }
    let mut sum: u128 = 0;
    let mut i: usize = 0;
    assert(samples@.take(0) =~= Seq::<u128>::empty());
    while i < samples.len()
        invariant
            i <= samples@.len(),
            sum == total(samples@.take(i as int)),
            total(samples@) <= u128::MAX,
        decreases samples@.len() - i,
    {
        proof {
            assert(samples@.take(i as int + 1).drop_last() =~= samples@.take(i as int));
            lemma_total_bound(samples@, i as int + 1);
        }
        sum = sum + samples[i];
        i += 1;
    }
    assert(samples@.take(i as int) =~= samples@);
    let average: u128 = sum / samples.len() as u128;
    if average > 0xffff_ffff_ffff_ffff {
        0xffff_ffff_ffff_ffff
    } else {
        average
    }
}

/// The last twelve of the samples.
pub open spec fn latest_samples(samples: Seq<u128>) -> Seq<u128> {
    if samples.len() > LATENCY_SAMPLE_WINDOW {
        samples.skip(samples.len() - LATENCY_SAMPLE_WINDOW)
    } else {
        samples
    }
}

/// The samples of the target with that fingerprint.
pub open spec fn samples_of(all: Seq<LatencySamples>, fingerprint: Seq<char>) -> Seq<u128>
    decreases all.len(),
{
    if all.len() == 0 {
        Seq::empty()
    } else if all[0].fingerprint@ == fingerprint {
        all[0].nanos@
    } else {
        samples_of(all.drop_first(), fingerprint)
    }
}

/// No target has more samples than are averaged over, and none of them is too long.
pub open spec fn samples_valid(all: Seq<LatencySamples>) -> bool {
    forall|i: int| 0 <= i < all.len() ==> within_limits((#[trigger] all[i]).nanos@)
}

proof fn lemma_total_limit(samples: Seq<u128>)
    requires
        forall|k: int| 0 <= k < samples.len() ==> #[trigger] samples[k] <= LONGEST_LATENCY,
    ensures
        0 <= total(samples) <= samples.len() * LONGEST_LATENCY,
    decreases samples.len(),
{
    if samples.len() > 0 {
        let front = samples.drop_last();
        assert forall|k: int| 0 <= k < front.len() implies #[trigger] front[k]
            <= LONGEST_LATENCY by {
            assert(front[k] == samples[k]);
        }
        lemma_total_limit(front);
        assert(samples.last() == samples[samples.len() - 1]);
        assert(samples.len() * LONGEST_LATENCY == (samples.len() - 1) * LONGEST_LATENCY
            + LONGEST_LATENCY) by (nonlinear_arith);
    }
}

proof fn lemma_samples_skip(all: Seq<LatencySamples>, fingerprint: Seq<char>, n: int)
    requires
        0 <= n <= all.len(),
        forall|i: int| 0 <= i < n ==> (#[trigger] all[i]).fingerprint@ != fingerprint,
    ensures
        samples_of(all, fingerprint) == samples_of(all.skip(n), fingerprint),
    decreases n,
{
    if n == 0 {
        assert(all.skip(0) =~= all);
    } else {
        let rest = all.drop_first();
        assert forall|i: int| 0 <= i < n - 1 implies (#[trigger] rest[i]).fingerprint@
            != fingerprint by {
            assert(rest[i] == all[i + 1]);
        }
        lemma_samples_skip(rest, fingerprint, n - 1);
        assert(rest.skip(n - 1) =~= all.skip(n));
        assert(all[0].fingerprint@ != fingerprint);
    }
}

proof fn lemma_samples_appended(all: Seq<LatencySamples>, added: LatencySamples, other: Seq<char>)
    requires
        forall|i: int| 0 <= i < all.len() ==> (#[trigger] all[i]).fingerprint@
            != added.fingerprint@,
    ensures
        samples_of(all.push(added), other) == (if other == added.fingerprint@ {
            added.nanos@
        } else {
            samples_of(all, other)
        }),
    decreases all.len(),
{
    let longer = all.push(added);
    if all.len() == 0 {
        assert(longer.drop_first() =~= all);
        assert(longer[0] == added);
    } else {
        assert(longer[0] == all[0]);
        let rest = all.drop_first();
        assert(longer.drop_first() =~= rest.push(added));
        assert forall|i: int| 0 <= i < rest.len() implies (#[trigger] rest[i]).fingerprint@
            != added.fingerprint@ by {
            assert(rest[i] == all[i + 1]);
        }
        lemma_samples_appended(rest, added, other);
        assert(all[0].fingerprint@ != added.fingerprint@);
    }
}

proof fn lemma_samples_updated(
    all: Seq<LatencySamples>,
    n: int,
    changed: LatencySamples,
    other: Seq<char>,
)
    requires
        0 <= n < all.len(),
        all[n].fingerprint@ == changed.fingerprint@,
        forall|i: int| 0 <= i < n ==> (#[trigger] all[i]).fingerprint@ != changed.fingerprint@,
    ensures
        samples_of(all.update(n, changed), other) == (if other == changed.fingerprint@ {
            changed.nanos@
        } else {
            samples_of(all, other)
        }),
    decreases all.len(),
{
    let after = all.update(n, changed);
    if n == 0 {
        assert(after.drop_first() =~= all.drop_first());
    } else {
        let rest = all.drop_first();
        assert(after.drop_first() =~= rest.update(n - 1, changed));
        assert forall|i: int| 0 <= i < n - 1 implies (#[trigger] rest[i]).fingerprint@
            != changed.fingerprint@ by {
            assert(rest[i] == all[i + 1]);
        }
        lemma_samples_updated(rest, n - 1, changed, other);
        assert(all[0].fingerprint@ != changed.fingerprint@);
    }
}

/// One target's samples are within their limits.
pub open spec fn within_limits(samples: Seq<u128>) -> bool {
    samples.len() <= LATENCY_SAMPLE_WINDOW && forall|k: int|
        0 <= k < samples.len() ==> #[trigger] samples[k] <= LONGEST_LATENCY
}

/// Adds a sample and gives the average of the latest ones.
fn push_sample(samples: &mut VecDeque<u128>, sample: u128) -> (average: u128)
    requires
        sample <= LONGEST_LATENCY,
        within_limits(old(samples)@),
    ensures
        within_limits(final(samples)@),
        final(samples)@ == latest_samples(old(samples)@.push(sample)),
        average == average_of(final(samples)@),
{
    let ghost own = samples@;
    let ghost longer = own.push(sample);
    samples.push_back(sample);
    if samples.len() > LATENCY_SAMPLE_WINDOW {
        let _ = samples.pop_front();
        assert(samples@ =~= longer.skip(1));
    }
    proof {
        assert(samples@ =~= latest_samples(longer));
        assert forall|k: int| 0 <= k < samples@.len() implies #[trigger] samples@[k]
            <= LONGEST_LATENCY by {
            let m = k + longer.len() - samples@.len();
            assert(samples@[k] == longer[m]);
            if m < own.len() {
                assert(own[m] <= LONGEST_LATENCY);
            }
        }
        lemma_total_limit(samples@);
        assert(samples@.len() * LONGEST_LATENCY <= 12 * LONGEST_LATENCY) by (nonlinear_arith)
            requires
                samples@.len() <= 12,
        ;
    }
    average_duration(samples)
}

/// Adds a sample to those of a target, and gives their average.
pub fn record_latency_sample(all: &mut Vec<LatencySamples>, fingerprint: &str, sample: u128) -> (
average: u128)
    requires
        sample <= LONGEST_LATENCY,
        samples_valid(old(all)@),
    ensures
        samples_valid(final(all)@),
        samples_of(final(all)@, fingerprint@) == latest_samples(
            samples_of(old(all)@, fingerprint@).push(sample),
        ),
        forall|other: Seq<char>|
            other != fingerprint@ ==> #[trigger] samples_of(final(all)@, other) == samples_of(
                old(all)@,
                other,
            ),
        average == average_of(samples_of(final(all)@, fingerprint@)),
{
    let ghost before = all@;
    let mut i: usize = 0;
    while i < all.len() && !text::same(&all[i].fingerprint, fingerprint)
        invariant
            i <= all@.len(),
            all@ == before,
            forall|k: int| 0 <= k < i ==> (#[trigger] before[k]).fingerprint@ != fingerprint@,
        decreases all@.len() - i,
    {
        i += 1;
    }
    proof {
        lemma_samples_skip(before, fingerprint@, i as int);
    }
    if i == all.len() {
        assert(before.skip(i as int) =~= Seq::<LatencySamples>::empty());
        let mut nanos: VecDeque<u128> = VecDeque::new();
        let average: u128 = push_sample(&mut nanos, sample);
        let added = LatencySamples { fingerprint: fingerprint.to_owned(), nanos };
        all.push(added);
        proof {
            assert forall|other: Seq<char>| #[trigger]
                samples_of(all@, other) == (if other == fingerprint@ {
                added.nanos@
            } else {
                samples_of(before, other)
            }) by {
                lemma_samples_appended(before, added, other);
            }
        }
        average
    } else {
        let mut changed = all.remove(i);
        proof {
            assert(before.skip(i as int)[0] == before[i as int]);
            assert(within_limits(before[i as int].nanos@));
        }
        let average: u128 = push_sample(&mut changed.nanos, sample);
        all.insert(i, changed);
        proof {
            assert(all@ =~= before.update(i as int, changed));
            assert forall|other: Seq<char>| #[trigger]
                samples_of(all@, other) == (if other == fingerprint@ {
                changed.nanos@
            } else {
                samples_of(before, other)
            }) by {
                lemma_samples_updated(before, i as int, changed, other);
            }
        }
        average
    }
}

pub open spec fn is_named(candidates: Seq<TargetCandidate>, fingerprint: Seq<char>) -> bool {
    exists|i: int| 0 <= i < candidates.len() && (#[trigger] candidates[i]).fingerprint@ == fingerprint
}

/// The place of the first candidate with that fingerprint.
pub open spec fn first_named(candidates: Seq<TargetCandidate>, fingerprint: Seq<char>) -> Option<int>
    decreases candidates.len(),
{
    if candidates.len() == 0 {
        None
    } else if candidates[0].fingerprint@ == fingerprint {
        Some(0)
    } else {
        match first_named(candidates.drop_first(), fingerprint) {
            Some(i) => Some(i + 1),
            None => None,
        }
    }
}

/// The place of the first candidate without an error.
pub open spec fn first_usable(candidates: Seq<TargetCandidate>) -> Option<int>
    decreases candidates.len(),
{
    if candidates.len() == 0 {
        None
    } else if candidates[0].error is None {
        Some(0)
    } else {
        match first_usable(candidates.drop_first()) {
            Some(i) => Some(i + 1),
            None => None,
        }
    }
}

proof fn lemma_first_named(candidates: Seq<TargetCandidate>, fingerprint: Seq<char>, n: int)
    requires
        0 <= n <= candidates.len(),
        forall|i: int| 0 <= i < n ==> (#[trigger] candidates[i]).fingerprint@ != fingerprint,
        n < candidates.len() ==> candidates[n].fingerprint@ == fingerprint,
    ensures
        first_named(candidates, fingerprint) == (if n < candidates.len() {
            Some(n)
        } else {
            None
        }),
    decreases candidates.len(),
{
    if n > 0 {
        let rest = candidates.drop_first();
        assert forall|i: int| 0 <= i < n - 1 implies (#[trigger] rest[i]).fingerprint@
            != fingerprint by {
            assert(rest[i] == candidates[i + 1]);
        }
        lemma_first_named(rest, fingerprint, n - 1);
        assert(candidates[0].fingerprint@ != fingerprint);
    }
}

proof fn lemma_first_usable(candidates: Seq<TargetCandidate>, n: int)
    requires
        0 <= n <= candidates.len(),
        forall|i: int| 0 <= i < n ==> (#[trigger] candidates[i]).error is Some,
        n < candidates.len() ==> candidates[n].error is None,
    ensures
        first_usable(candidates) == (if n < candidates.len() {
            Some(n)
        } else {
            None
        }),
    decreases candidates.len(),
{
    if n > 0 {
        let rest = candidates.drop_first();
        assert forall|i: int| 0 <= i < n - 1 implies (#[trigger] rest[i]).error is Some by {
            assert(rest[i] == candidates[i + 1]);
        }
        lemma_first_usable(rest, n - 1);
        assert(candidates[0].error is Some);
    }
}

pub open spec fn opt_place(place: Option<usize>) -> Option<int> {
    match place {
        Some(i) => Some(i as int),
        None => None,
    }
}

fn find_named(candidates: &Vec<TargetCandidate>, fingerprint: &str) -> (place: Option<usize>)
    ensures
        opt_place(place) == first_named(candidates@, fingerprint@),
        place matches Some(i) ==> i < candidates@.len() && candidates@[i as int].fingerprint@
            == fingerprint@,
{
    let mut i: usize = 0;
    while i < candidates.len() && !text::same(&candidates[i].fingerprint, fingerprint)
        invariant
            i <= candidates@.len(),
            forall|k: int| 0 <= k < i ==> (#[trigger] candidates@[k]).fingerprint@ != fingerprint@,
        decreases candidates@.len() - i,
    {
        i += 1;
    }
    proof {
        lemma_first_named(candidates@, fingerprint@, i as int);
    }
    if i < candidates.len() {
        Some(i)
    } else {
        None
    }
}

fn find_usable(candidates: &Vec<TargetCandidate>) -> (place: Option<usize>)
    ensures
        opt_place(place) == first_usable(candidates@),
        place matches Some(i) ==> i < candidates@.len(),
{
    let mut i: usize = 0;
    while i < candidates.len() && candidates[i].error.is_some()
        invariant
            i <= candidates@.len(),
            forall|k: int| 0 <= k < i ==> (#[trigger] candidates@[k]).error is Some,
        decreases candidates@.len() - i,
    {
        i += 1;
    }
    proof {
        lemma_first_usable(candidates@, i as int);
    }
    if i < candidates.len() {
        Some(i)
    } else {
        None
    }
}

/// The candidate to select: the preferred one, or else the first without an error, or else the
/// first.
pub open spec fn preferred_place(
    candidates: Seq<TargetCandidate>,
    preferred: Option<Seq<char>>,
) -> Option<int> {
    let named = match preferred {
        Some(fingerprint) => first_named(candidates, fingerprint),
        None => None,
    };
    match named {
        Some(i) => Some(i),
        None => match first_usable(candidates) {
            Some(i) => Some(i),
            None => if candidates.len() > 0 {
                Some(0)
            } else {
                None
            },
        },
    }
}

pub fn preferred_selection_index(
    candidates: &Vec<TargetCandidate>,
    preferred_fingerprint: Option<&str>,
) -> (place: Option<usize>)
    ensures
        opt_place(place) == preferred_place(
            candidates@,
            match preferred_fingerprint {
                Some(fingerprint) => Some(fingerprint@),
                None => None,
            },
        ),
        place matches Some(i) ==> i < candidates@.len(),
{
    if let Some(fingerprint) = preferred_fingerprint {
        if let Some(i) = find_named(candidates, fingerprint) {
            return Some(i);
        }
    }
    match find_usable(candidates) {
        Some(i) => Some(i),
        None => if candidates.len() > 0 {
            Some(0)
        } else {
            None
        },
    }
}

/// The last candidate with that fingerprint.
pub open spec fn last_named(candidates: Seq<TargetCandidate>, fingerprint: Seq<char>) -> Option<
    TargetCandidate,
>
    decreases candidates.len(),
{
    if candidates.len() == 0 {
        None
    } else if candidates.last().fingerprint@ == fingerprint {
        Some(candidates.last())
    } else {
        last_named(candidates.drop_last(), fingerprint)
    }
}

/// What a preview holds.
#[verifier::ext_equal]
pub struct PreviewView {
    pub data: Seq<u8>,
    pub width: u32,
    pub height: u32,
    pub format: crate::analyzer_consumer::PixelFormat,
}

pub open spec fn preview_view(preview: Option<PreviewFrame>) -> Option<PreviewView> {
    match preview {
        Some(frame) => Some(
            PreviewView {
                data: frame.data@,
                width: frame.width,
                height: frame.height,
                format: frame.format,
            },
        ),
        None => None,
    }
}

fn copy_preview(preview: &Option<PreviewFrame>) -> (copy: Option<PreviewFrame>)
    ensures
        preview_view(copy) == preview_view(*preview),
{
    match preview {
        Some(frame) => {
            let data = frame.data.clone();
            assert(data@ =~= frame.data@);
            Some(
                PreviewFrame {
                    data,
                    width: frame.width,
                    height: frame.height,
                    format: frame.format,
                },
            )
        },
        None => None,
    }
}

/// `kept` is the candidate `found` with what trial screenshots have brought so far: what was known
/// of the target with its fingerprint.
pub open spec fn keeps_results(
    kept: TargetCandidate,
    found: TargetCandidate,
    known: Seq<TargetCandidate>,
) -> bool {
    match last_named(known, found.fingerprint@) {
        Some(before) => {
            &&& kept.kind == found.kind
            &&& kept.fingerprint == found.fingerprint
            &&& kept.name == found.name
            &&& kept.detail == found.detail
            &&& kept.config == found.config
            &&& kept.latency == before.latency
            &&& kept.latency_class == before.latency_class
            &&& preview_view(kept.preview) == preview_view(before.preview)
            &&& opt_view(kept.error) == opt_view(before.error)
        },
        None => kept == found,
    }
}

fn carry_over(found: TargetCandidate, known: &Vec<TargetCandidate>) -> (kept: TargetCandidate)
    ensures
        keeps_results(kept, found, known@),
        kept.fingerprint == found.fingerprint,
{
    let mut i: usize = known.len();
    assert(known@.take(i as int) =~= known@);
    while i > 0
        invariant
            i <= known@.len(),
            last_named(known@, found.fingerprint@) == last_named(
                known@.take(i as int),
                found.fingerprint@,
            ),
        decreases i,
    {
        let before = &known[i - 1];
        assert(known@.take(i as int).last() == *before);
        assert(known@.take(i as int).drop_last() =~= known@.take(i as int - 1));
        if text::same(&before.fingerprint, &found.fingerprint) {
            return TargetCandidate {
                kind: found.kind,
                fingerprint: found.fingerprint,
                name: found.name,
                detail: found.detail,
                config: found.config,
                latency: before.latency,
                latency_class: before.latency_class,
                preview: copy_preview(&before.preview),
                error: text::copy_opt(&before.error),
            };
        }
        i -= 1;
    }
    assert(known@.take(0) =~= Seq::<TargetCandidate>::empty());
    found
}

fn carry_all_over(found: Vec<TargetCandidate>, known: &Vec<TargetCandidate>) -> (kept: Vec<
    TargetCandidate,
>)
    ensures
        kept@.len() == found@.len(),
        forall|i: int| 0 <= i < kept@.len() ==> keeps_results(#[trigger] kept@[i], found@[i], known@),
        forall|i: int|
            0 <= i < kept@.len() ==> (#[trigger] kept@[i]).fingerprint == found@[i].fingerprint,
{
    let ghost all = found@;
    let mut queue = found;
    let mut reversed: Vec<TargetCandidate> = Vec::new();
    while queue.len() > 0
        invariant
            queue@ == all.take(queue@.len() as int),
            queue@.len() <= all.len(),
            reversed@.len() == all.len() - queue@.len(),
            forall|k: int|
                0 <= k < reversed@.len() ==> #[trigger] reversed@[k] == all[all.len() - 1 - k],
        decreases queue@.len(),
    {
        if let Some(candidate) = queue.pop() {
            assert(queue@ =~= all.take(queue@.len() as int));
            reversed.push(candidate);
        }
    }
    let mut kept: Vec<TargetCandidate> = Vec::new();
    while reversed.len() > 0
        invariant
            kept@.len() + reversed@.len() == all.len(),
            forall|k: int|
                0 <= k < reversed@.len() ==> #[trigger] reversed@[k] == all[all.len() - 1 - k],
            forall|i: int| 0 <= i < kept@.len() ==> keeps_results(#[trigger] kept@[i], all[i], known@),
            forall|i: int|
                0 <= i < kept@.len() ==> (#[trigger] kept@[i]).fingerprint == all[i].fingerprint,
        decreases reversed@.len(),
    {
        let ghost before = reversed@;
        if let Some(candidate) = reversed.pop() {
            assert(candidate == before[before.len() - 1]);
            assert(candidate == all[kept@.len() as int]);
            kept.push(carry_over(candidate, known));
        }
    }
    kept
}

/// The samples of the targets that are still there.
pub open spec fn retained(
    before: Seq<LatencySamples>,
    candidates: Seq<TargetCandidate>,
) -> Seq<LatencySamples> {
    before.filter(|samples: LatencySamples| is_named(candidates, samples.fingerprint@))
}

fn retain_samples(all: Vec<LatencySamples>, candidates: &Vec<TargetCandidate>) -> (kept: Vec<
    LatencySamples,
>)
    requires
        samples_valid(all@),
    ensures
        kept@ == retained(all@, candidates@),
        samples_valid(kept@),
{
    let ghost before = all@;
    let ghost keep = |samples: LatencySamples| is_named(candidates@, samples.fingerprint@);
    let mut queue = all;
    let mut kept: Vec<LatencySamples> = Vec::new();
    let ghost mut n: int = 0;
    proof {
        assert(before.skip(0) =~= before);
        assert(before.take(0).filter(keep) =~= Seq::<LatencySamples>::empty()) by {
            reveal(Seq::filter);
        }
    }
    while queue.len() > 0
        invariant
            0 <= n <= before.len(),
            keep == (|samples: LatencySamples| is_named(candidates@, samples.fingerprint@)),
            queue@ == before.skip(n),
            kept@ == before.take(n).filter(keep),
            samples_valid(before),
            samples_valid(kept@),
        decreases queue@.len(),
    {
        let samples = queue.remove(0);
        let ghost so_far = kept@;
        proof {
            assert(samples == before[n]);
            assert(before.skip(n).remove(0) =~= before.skip(n + 1));
            assert(before.take(n + 1).drop_last() =~= before.take(n));
            assert(before.take(n + 1).last() == before[n]);
            reveal(Seq::filter);
        }
        if find_named(candidates, &samples.fingerprint).is_some() {
            proof {
                lemma_named(candidates@, samples.fingerprint@);
            }
            kept.push(samples);
        } else {
            proof {
                lemma_named(candidates@, samples.fingerprint@);
            }
        }
        proof {
            n = n + 1;
        }
    }
    proof {
        assert(before.take(n) =~= before);
    }
    kept
}

proof fn lemma_named(candidates: Seq<TargetCandidate>, fingerprint: Seq<char>)
    ensures
        first_named(candidates, fingerprint) is Some <==> is_named(candidates, fingerprint),
    decreases candidates.len(),
{
    if candidates.len() > 0 {
        let rest = candidates.drop_first();
        lemma_named(rest, fingerprint);
        if is_named(candidates, fingerprint) && candidates[0].fingerprint@ != fingerprint {
            let k = choose|k: int|
                0 <= k < candidates.len() && (#[trigger] candidates[k]).fingerprint@ == fingerprint;
            assert(rest[k - 1] == candidates[k]);
        }
        if is_named(rest, fingerprint) {
            let k = choose|k: int|
                0 <= k < rest.len() && (#[trigger] rest[k]).fingerprint@ == fingerprint;
            assert(candidates[k + 1] == rest[k]);
        }
        if candidates[0].fingerprint@ == fingerprint {
            assert(is_named(candidates, fingerprint));
        }
    }
}

/// The fingerprint that the selection should stay with: that of the selected candidate, or else
/// that of the configuration so far.
pub open spec fn wanted_fingerprint(core: WizardCore) -> Option<Seq<char>> {
    match core.selected() {
        Some(candidate) => Some(candidate.fingerprint@),
        None => match core.previous_config {
            Some(config) => opt_view(config.target_fingerprint),
            None => None,
        },
    }
}

/// Takes in the targets of a new search. Targets that were there before keep what trial screenshots
/// have brought; the selection stays with its target, or goes to a usable one. The results of
/// earlier trial screenshots are void. The result says whether new ones are to be started.
pub fn refresh_candidates(core: &mut WizardCore, found: Vec<TargetCandidate>) -> (start: bool)
    requires
        old(core).valid(),
    ensures
        final(core).valid(),
        start == (found@.len() > 0),
        is_refreshed(*old(core), found@, *final(core)),
{
    let preferred = match core.selected_fingerprint() {
        Some(fingerprint) => Some(fingerprint),
        None => match &core.previous_config {
            Some(config) => text::copy_opt(&config.target_fingerprint),
            None => None,
        },
    };
    assert(opt_view(preferred) == wanted_fingerprint(*core));
    core.probe_generation = core.probe_generation.wrapping_add(1);
    core.preview_token = None;
    core.rows_content_sig = None;
    let kept = carry_all_over(found, &core.candidates);
    let mut samples: Vec<LatencySamples> = Vec::new();
    std::mem::swap(&mut samples, &mut core.latency_samples);
    core.latency_samples = retain_samples(samples, &kept);
    core.candidates = kept;
    if core.candidates.len() == 0 {
        core.selected_index = None;
        return false;
    }
    let place = match &preferred {
        Some(fingerprint) => preferred_selection_index(
            &core.candidates,
            Some(fingerprint.as_str()),
        ),
        None => preferred_selection_index(&core.candidates, None),
    };
    core.selected_index = if core.manual_mode {
        None
    } else {
        place
    };
    true
}

/// The candidate after a trial screenshot of it.
pub open spec fn after_probe(
    before: TargetCandidate,
    after: TargetCandidate,
    result: Result<PreviewFrame, String>,
    average: int,
) -> bool {
    &&& after.kind == before.kind
    &&& after.fingerprint == before.fingerprint
    &&& after.name == before.name
    &&& after.detail == before.detail
    &&& after.config == before.config
    &&& match result {
        Ok(preview) => {
            &&& after.latency == Some(average as u128)
            &&& after.latency_class == class_of(average)
            &&& after.preview == Some(preview)
            &&& after.error is None
        },
        Err(error) => {
            &&& after.latency == before.latency
            &&& after.latency_class == LatencyClass::Unknown
            &&& after.preview == before.preview
            &&& after.error == Some(error)
        },
    }
}

/// The result is meant for a candidate that is still there.
pub open spec fn is_expected(core: WizardCore, generation: u64, fingerprint: Seq<char>) -> bool {
    generation == core.probe_generation && first_named(core.candidates@, fingerprint) is Some
}

/// Takes in the result of a trial screenshot: with its latency, the average over the last ones.
/// A result from before the last search, or of a target that is no more, is dropped.
pub fn take_probe_message(core: &mut WizardCore, message: ProbeMessage)
    requires
        old(core).valid(),
        message.result is Ok ==> message.latency <= LONGEST_LATENCY,
    ensures
        final(core).valid(),
        is_taken_in(*old(core), message, *final(core)),
{
    if message.generation != core.probe_generation {
        return;
    }
    let ghost before = core.candidates@;
    if let Some(index) = find_named(&core.candidates, &message.fingerprint) {
        match message.result {
            Ok(preview) => {
                let average: u128 = record_latency_sample(
                    &mut core.latency_samples,
                    &message.fingerprint,
                    message.latency,
                );
                let candidate = core.candidates.remove(index);
                core.candidates.insert(
                    index,
                    TargetCandidate {
                        kind: candidate.kind,
                        fingerprint: candidate.fingerprint,
                        name: candidate.name,
                        detail: candidate.detail,
                        config: candidate.config,
                        latency: Some(average),
                        latency_class: target_discovery::latency_class(average),
                        preview: Some(preview),
                        error: None,
                    },
                );
            },
            Err(error) => {
                let candidate = core.candidates.remove(index);
                core.candidates.insert(
                    index,
                    TargetCandidate {
                        kind: candidate.kind,
                        fingerprint: candidate.fingerprint,
                        name: candidate.name,
                        detail: candidate.detail,
                        config: candidate.config,
                        latency: candidate.latency,
                        latency_class: LatencyClass::Unknown,
                        preview: candidate.preview,
                        error: Some(error),
                    },
                );
            },
        }
        assert(core.candidates@ =~= before.update(index as int, core.candidates@[index as int]));
    }
}

/// A search that finds the selected target again leaves the selection on it.
pub proof fn law_selection_stays_with_its_target(
    candidates: Seq<TargetCandidate>,
    fingerprint: Seq<char>,
)
    requires
        is_named(candidates, fingerprint),
    ensures
        ({
            let place = preferred_place(candidates, Some(fingerprint));
            place matches Some(k) && 0 <= k < candidates.len() && candidates[k].fingerprint@
                == fingerprint
        }),
    decreases candidates.len(),
{
    lemma_named(candidates, fingerprint);
    lemma_first_place(candidates, fingerprint);
}

proof fn lemma_first_place(candidates: Seq<TargetCandidate>, fingerprint: Seq<char>)
    ensures
        first_named(candidates, fingerprint) matches Some(k) ==> 0 <= k < candidates.len()
            && candidates[k].fingerprint@ == fingerprint,
    decreases candidates.len(),
{
    if candidates.len() > 0 && candidates[0].fingerprint@ != fingerprint {
        lemma_first_place(candidates.drop_first(), fingerprint);
    }
}

/// The average of equal samples is what they are.
pub proof fn law_average_of_equal_samples(sample: u128, n: nat)
    requires
        n > 0,
        sample <= u64::MAX,
    ensures
        average_of(Seq::new(n, |i: int| sample)) == sample,
{
    lemma_equal_total(sample, n);
    vstd::arithmetic::div_mod::lemma_div_multiples_vanish(sample as int, n as int);
    assert(n as int * sample as int == sample as int * n as int) by (nonlinear_arith);
}

proof fn lemma_equal_total(sample: u128, n: nat)
    ensures
        total(Seq::new(n, |i: int| sample)) == sample * n,
    decreases n,
{
    let all = Seq::new(n, |i: int| sample);
    if n > 0 {
        lemma_equal_total(sample, (n - 1) as nat);
        assert(all.drop_last() =~= Seq::new((n - 1) as nat, |i: int| sample));
        assert(sample * n == sample * (n - 1) + sample) by (nonlinear_arith);
    } else {
        assert(sample * n == 0) by (nonlinear_arith)
            requires
                n == 0,
        ;
    }
}

/// The samples that are averaged over are the latest ones: the newest is among them, there are twelve
/// at most, and none is dropped before there are more.
pub proof fn law_the_latest_samples_are_averaged(samples: Seq<u128>, sample: u128)
    ensures
        ({
            let longer = samples.push(sample);
            let kept = latest_samples(longer);
            &&& 0 < kept.len() <= 12
            &&& kept.last() == sample
            &&& samples.len() < 12 ==> kept == longer
            &&& samples.len() >= 12 ==> kept.len() == 12
            &&& forall|i: int|
                0 <= i < kept.len() ==> #[trigger] kept[i] == longer[longer.len() - kept.len() + i]
        }),
{
}

/// An average lies between the least and the greatest of its samples.
pub proof fn law_average_lies_between(samples: Seq<u128>, low: u128, high: u128)
    requires
        samples.len() > 0,
        high <= u64::MAX,
        forall|i: int| 0 <= i < samples.len() ==> low <= #[trigger] samples[i] <= high,
    ensures
        low <= average_of(samples) <= high,
{
    let n = samples.len() as int;
    lemma_total_between(samples, low, high);
    let sum = total(samples);
    assert(low <= sum / n <= high) by (nonlinear_arith)
        requires
            n > 0,
            low * n <= sum <= high * n,
    ;
}

proof fn lemma_total_between(samples: Seq<u128>, low: u128, high: u128)
    requires
        forall|i: int| 0 <= i < samples.len() ==> low <= #[trigger] samples[i] <= high,
    ensures
        low * samples.len() <= total(samples) <= high * samples.len(),
    decreases samples.len(),
{
    let n = samples.len() as int;
    if n > 0 {
        let head = samples.drop_last();
        assert forall|i: int| 0 <= i < head.len() implies low <= #[trigger] head[i] <= high by {
            assert(head[i] == samples[i]);
        }
        lemma_total_between(head, low, high);
        assert(low <= samples[n - 1] <= high);
        assert(low * n == low * (n - 1) + low) by (nonlinear_arith);
        assert(high * n == high * (n - 1) + high) by (nonlinear_arith);
    } else {
        assert(low * n == 0 && high * n == 0) by (nonlinear_arith)
            requires
                n == 0,
        ;
    }
}

/// Without a preferred target, or where it is gone, the first one that works is selected; where none
/// works, the first; where there is none, none.
pub proof fn law_a_usable_target_is_selected(
    candidates: Seq<TargetCandidate>,
    preferred: Option<Seq<char>>,
)
    requires
        preferred is Some ==> !is_named(candidates, preferred->0),
    ensures
        match preferred_place(candidates, preferred) {
            Some(k) => {
                &&& 0 <= k < candidates.len()
                &&& candidates[k].error is None ==> forall|i: int|
                    0 <= i < k ==> (#[trigger] candidates[i]).error is Some
                &&& candidates[k].error is Some ==> k == 0 && forall|i: int|
                    0 <= i < candidates.len() ==> (#[trigger] candidates[i]).error is Some
            },
            None => candidates.len() == 0,
        },
{
    if preferred is Some {
        lemma_named(candidates, preferred->0);
    }
    lemma_usable(candidates);
}

proof fn lemma_usable(candidates: Seq<TargetCandidate>)
    ensures
        match first_usable(candidates) {
            Some(k) => 0 <= k < candidates.len() && candidates[k].error is None && forall|i: int|
                0 <= i < k ==> (#[trigger] candidates[i]).error is Some,
            None => forall|i: int|
                0 <= i < candidates.len() ==> (#[trigger] candidates[i]).error is Some,
        },
    decreases candidates.len(),
{
    if candidates.len() > 0 && candidates[0].error is Some {
        let rest = candidates.drop_first();
        lemma_usable(rest);
        match first_usable(rest) {
            Some(k) => {
                assert(rest[k] == candidates[k + 1]);
                assert forall|i: int| 0 <= i < k + 1 implies (#[trigger] candidates[i]).error
                    is Some by {
                    if i > 0 {
                        assert(rest[i - 1] == candidates[i]);
                    }
                }
            },
            None => {
                assert forall|i: int| 0 <= i < candidates.len() implies (
                #[trigger] candidates[i]).error is Some by {
                    if i > 0 {
                        assert(rest[i - 1] == candidates[i]);
                    }
                }
            },
        }
    }
}

/// A target that is found again keeps what its trial screenshots brought, while everything about the
/// target itself is as it was found now. A target that is new has none.
pub proof fn law_known_targets_keep_their_results(
    kept: TargetCandidate,
    found: TargetCandidate,
    known: Seq<TargetCandidate>,
)
    requires
        keeps_results(kept, found, known),
    ensures
        kept.kind == found.kind,
        kept.fingerprint == found.fingerprint,
        kept.name == found.name,
        kept.detail == found.detail,
        kept.config == found.config,
        !is_named(known, found.fingerprint@) ==> kept == found,
        is_named(known, found.fingerprint@) ==> exists|i: int|
            {
                &&& 0 <= i < known.len()
                &&& (#[trigger] known[i]).fingerprint@ == found.fingerprint@
                &&& kept.latency == known[i].latency
                &&& kept.latency_class == known[i].latency_class
                &&& kept.preview is Some == known[i].preview is Some
                &&& kept.error is Some == known[i].error is Some
            },
{
    lemma_last_named(known, found.fingerprint@);
    match last_named(known, found.fingerprint@) {
        Some(before) => {
            let i = choose|i: int| 0 <= i < known.len() && #[trigger] known[i] == before;
            assert(preview_view(kept.preview) is Some == kept.preview is Some);
            assert(preview_view(before.preview) is Some == before.preview is Some);
            assert(opt_view(kept.error) is Some == kept.error is Some);
            assert(opt_view(before.error) is Some == before.error is Some);
            assert(known[i].fingerprint@ == found.fingerprint@);
        },
        None => {},
    }
}

proof fn lemma_last_named(candidates: Seq<TargetCandidate>, fingerprint: Seq<char>)
    ensures
        match last_named(candidates, fingerprint) {
            Some(candidate) => candidate.fingerprint@ == fingerprint && exists|i: int|
                0 <= i < candidates.len() && #[trigger] candidates[i] == candidate,
            None => !is_named(candidates, fingerprint),
        },
    decreases candidates.len(),
{
    if candidates.len() > 0 {
        let head = candidates.drop_last();
        lemma_last_named(head, fingerprint);
        if candidates.last().fingerprint@ == fingerprint {
            assert(candidates[candidates.len() - 1] == candidates.last());
        } else {
            match last_named(head, fingerprint) {
                Some(candidate) => {
                    let i = choose|i: int| 0 <= i < head.len() && #[trigger] head[i] == candidate;
                    assert(candidates[i] == candidate);
                },
                None => {
                    if is_named(candidates, fingerprint) {
                        let i = choose|i: int|
                            0 <= i < candidates.len() && (#[trigger] candidates[i]).fingerprint@
                                == fingerprint;
                        if i < head.len() {
                            assert(head[i] == candidates[i]);
                        }
                    }
                },
            }
        }
    }
}

/// A trial screenshot that worked gives its target the average latency, the class that goes with it
/// and the picture, and takes an earlier error away; one that failed gives it the error, leaves the
/// picture, and no class. What the target is stays.
pub proof fn law_trial_screenshots_show_on_their_target(
    before: TargetCandidate,
    after: TargetCandidate,
    result: Result<PreviewFrame, String>,
    average: int,
)
    requires
        0 <= average <= u64::MAX,
        after_probe(before, after, result, average),
    ensures
        after.kind == before.kind,
        after.fingerprint == before.fingerprint,
        after.name == before.name,
        after.config == before.config,
        result matches Ok(preview) ==> {
            &&& after.latency is Some
            &&& after.latency->0 == average
            &&& after.preview == Some(preview)
            &&& after.error is None
            &&& after.latency_class != LatencyClass::Unknown
            &&& average < 8_000_000 <==> after.latency_class == LatencyClass::PaleGreen
            &&& average > 166_000_000 <==> after.latency_class == LatencyClass::Red
        },
        result matches Err(error) ==> {
            &&& after.error == Some(error)
            &&& after.latency == before.latency
            &&& after.preview == before.preview
            &&& after.latency_class == LatencyClass::Unknown
        },
{
}

/// A result counts only while its search does: any search makes the results of earlier ones void.
pub proof fn law_earlier_results_are_void(core: WizardCore, later: WizardCore, fingerprint: Seq<char>)
    requires
        later.probe_generation == core.probe_generation.wrapping_add(1),
    ensures
        !is_expected(later, core.probe_generation, fingerprint),
        is_expected(core, core.probe_generation, fingerprint) <==> is_named(
            core.candidates@,
            fingerprint,
        ),
{
    lemma_named(core.candidates@, fingerprint);
}

/// The wizard once the targets of a new search were taken in.
pub open spec fn is_refreshed(
    before: WizardCore,
    found: Seq<TargetCandidate>,
    after: WizardCore,
) -> bool {
    &&& after.candidates@.len() == found.len()
    &&& forall|i: int|
        0 <= i < found.len() ==> keeps_results(
            #[trigger] after.candidates@[i],
            found[i],
            before.candidates@,
        )
    &&& after.latency_samples@ == retained(before.latency_samples@, after.candidates@)
    &&& opt_place(after.selected_index) == (if found.len() == 0 || before.manual_mode {
        None
    } else {
        preferred_place(after.candidates@, wanted_fingerprint(before))
    })
    &&& after.probe_generation == before.probe_generation.wrapping_add(1)
    &&& after.preview_token is None
    &&& after.rows_content_sig is None
    &&& after.rows_struct_sig == before.rows_struct_sig
    &&& after.previous_config == before.previous_config
    &&& after.manual_mode == before.manual_mode
    &&& after.manual_error == before.manual_error
}

/// The wizard once the result of a trial screenshot was taken in.
pub open spec fn is_taken_in(before: WizardCore, message: ProbeMessage, after: WizardCore) -> bool {
    &&& !is_expected(before, message.generation, message.fingerprint@) ==> after == before
    &&& is_expected(before, message.generation, message.fingerprint@) ==> {
        let k = first_named(before.candidates@, message.fingerprint@)->0;
        &&& 0 <= k < before.candidates@.len()
        &&& after.candidates@ == before.candidates@.update(k, after.candidates@[k])
        &&& after_probe(
            before.candidates@[k],
            after.candidates@[k],
            message.result,
            average_of(samples_of(after.latency_samples@, message.fingerprint@)),
        )
        &&& message.result is Ok ==> samples_of(after.latency_samples@, message.fingerprint@)
            == latest_samples(
            samples_of(before.latency_samples@, message.fingerprint@).push(message.latency),
        )
        &&& message.result is Err ==> after.latency_samples@ == before.latency_samples@
        &&& forall|other: Seq<char>|
            other != message.fingerprint@ ==> #[trigger] samples_of(after.latency_samples@, other)
                == samples_of(before.latency_samples@, other)
        &&& after == (WizardCore {
            candidates: after.candidates,
            latency_samples: after.latency_samples,
            ..before
        })
    }
}

/// After a search the list shows what was found, in its order and as it was found; whoever describes
/// a target goes on doing so, and has no line picked; and what earlier trials report no longer counts.
pub proof fn law_list_shows_what_was_found(
    before: WizardCore,
    found: Seq<TargetCandidate>,
    after: WizardCore,
    message: ProbeMessage,
    later: WizardCore,
)
    requires
        is_refreshed(before, found, after),
        message.generation == before.probe_generation,
        is_taken_in(after, message, later),
    ensures
        after.candidates@.len() == found.len(),
        forall|i: int|
            0 <= i < found.len() ==> (#[trigger] after.candidates@[i]).fingerprint
                == found[i].fingerprint && after.candidates@[i].config == found[i].config
                && after.candidates@[i].name == found[i].name,
        before.manual_mode ==> after.manual_mode && after.selected_index is None,
        found.len() == 0 ==> after.selected_index is None,
        later == after,
        after.previous_config == before.previous_config,
{
    law_earlier_results_are_void(before, after, message.fingerprint@);
    assert forall|i: int| 0 <= i < found.len() implies (#[trigger] after.candidates@[i]).fingerprint
        == found[i].fingerprint && after.candidates@[i].config == found[i].config
        && after.candidates@[i].name == found[i].name by {
        law_known_targets_keep_their_results(after.candidates@[i], found[i], before.candidates@);
    }
}

/// A result is shown on the target it is of and on no other, and neither the choice of the user nor
/// the number of the search changes with it.
pub proof fn law_results_belong_to_one_target(
    before: WizardCore,
    message: ProbeMessage,
    after: WizardCore,
    i: int,
)
    requires
        is_taken_in(before, message, after),
        0 <= i < before.candidates@.len(),
        before.candidates@[i].fingerprint@ != message.fingerprint@,
    ensures
        after.candidates@.len() == before.candidates@.len(),
        after.candidates@[i] == before.candidates@[i],
        after.selected_index == before.selected_index,
        after.manual_mode == before.manual_mode,
        after.probe_generation == before.probe_generation,
        message.generation != before.probe_generation ==> after == before,
{
    lemma_named_place(before.candidates@, message.fingerprint@);
}

proof fn lemma_named_place(candidates: Seq<TargetCandidate>, fingerprint: Seq<char>)
    ensures
        first_named(candidates, fingerprint) matches Some(k) ==> 0 <= k < candidates.len()
            && candidates[k].fingerprint@ == fingerprint,
    decreases candidates.len(),
{
    if candidates.len() > 0 {
        let rest = candidates.drop_first();
        lemma_named_place(rest, fingerprint);
        if let Some(k) = first_named(rest, fingerprint) {
            assert(rest[k] == candidates[k + 1]);
        }
    }
}

} // verus!
