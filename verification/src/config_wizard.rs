//! The window in which the user chooses what to capture.
use crate::config::RulerConfig;
use crate::config_wizard::probe::{samples_valid, LatencySamples};
use crate::target_discovery::{PreviewFrame, TargetCandidate};
use crate::text::opt_view;
use vstd::prelude::*;

pub mod choices;
pub mod manual;
pub mod preview;
pub mod probe;
pub mod sync;
pub mod worker;

verus! {

/// Which preview is shown: of which candidate, and which of its pictures.
#[derive(Clone, Copy, Debug, PartialEq, Eq, Structural)]
pub struct PreviewToken {
    pub index: usize,
    pub address: usize,
    pub size: usize,
}

/// The result of a trial screenshot: its latency in nanoseconds and the picture, or the error.
#[derive(Debug)]
pub struct ProbeMessage {
    pub generation: u64,
    pub fingerprint: String,
    pub latency: u128,
    pub result: Result<PreviewFrame, String>,
}

/// What the wizard knows.
#[derive(Debug)]
pub struct WizardCore {
    pub previous_config: Option<RulerConfig>,
    pub candidates: Vec<TargetCandidate>,
    pub selected_index: Option<usize>,
    /// The user describes the target by hand.
    pub manual_mode: bool,
    /// What is wrong with that description.
    pub manual_error: Option<String>,
    /// Counts the searches; results of trial screenshots belong to one of them.
    pub probe_generation: u64,
    pub latency_samples: Vec<LatencySamples>,
    pub rows_content_sig: Option<String>,
    pub rows_struct_sig: String,
    pub preview_token: Option<PreviewToken>,
}

impl WizardCore {
    /// The samples are within their limits.
    pub open spec fn valid(self) -> bool {
        samples_valid(self.latency_samples@)
    }

    /// The candidate that is selected.
    pub open spec fn selected(self) -> Option<TargetCandidate> {
        match self.selected_index {
            Some(index) => if index < self.candidates@.len() {
                Some(self.candidates@[index as int])
            } else {
                None
            },
            None => None,
        }
    }

    pub fn new(previous_config: Option<RulerConfig>) -> (core: Self)
        ensures
            core.valid(),
            core.previous_config == previous_config,
            core.candidates@.len() == 0,
            core.selected_index is None,
            !core.manual_mode,
            core.manual_error is None,
            core.probe_generation == 0,
            core.latency_samples@.len() == 0,
            core.rows_content_sig is None,
            core.rows_struct_sig@.len() == 0,
            core.preview_token is None,
    {
        WizardCore {
            previous_config,
            candidates: Vec::new(),
            selected_index: None,
            manual_mode: false,
            manual_error: None,
            probe_generation: 0,
            latency_samples: Vec::new(),
            rows_content_sig: None,
            rows_struct_sig: String::new(),
            preview_token: None,
        }
    }

    pub fn selected_candidate(&self) -> (candidate: Option<&TargetCandidate>)
        ensures
            match candidate {
                Some(candidate) => self.selected() == Some(*candidate),
                None => self.selected() is None,
            },
    {
        match self.selected_index {
            Some(index) => if index < self.candidates.len() {
                Some(&self.candidates[index])
            } else {
                None
            },
            None => None,
        }
    }

    pub fn selected_fingerprint(&self) -> (fingerprint: Option<String>)
        ensures
            opt_view(fingerprint) == (match self.selected() {
                Some(candidate) => Some(candidate.fingerprint@),
                None => None,
            }),
    {
        match self.selected_candidate() {
            Some(candidate) => Some(candidate.fingerprint.clone()),
            None => None,
        }
    }
}

} // verus!
