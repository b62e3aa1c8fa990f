//! Synthetic probe: a probe that reports a configured outcome after a
//! configured latency, for exercising the pipeline.
use std::time::Duration;
use vstd::prelude::*;

use crate::duration::duration_nanos;
use crate::ids::CheckId;
use crate::kinds::{SampleClassification, SampleOutcome};
use crate::probe::{ProbeRound, SampleResult};

verus! {

/// The settings of the synthetic probe.
#[derive(Debug, Clone, Copy)]
pub struct SyntheticProbeConfig {
    pub outcome: SampleOutcome,
    pub latency: Duration,
    pub classification: SampleClassification,
}

impl SyntheticProbeConfig {
    /// Success after 10 ms, classified healthy.
    pub fn default() -> (r: Self)
        ensures
            r.outcome == SampleOutcome::Success,
            duration_nanos(r.latency) == 10_000_000,
            r.classification == SampleClassification::HealthyResponse,
    {
        SyntheticProbeConfig {
            outcome: SampleOutcome::Success,
            latency: Duration::from_millis(10),
            classification: SampleClassification::HealthyResponse,
        }
    }
}

/// The synthetic probe and its settings.
pub struct SyntheticProbe {
    config: SyntheticProbeConfig,
}

impl SyntheticProbe {
    /// The probe with the given settings.
    pub fn new(config: SyntheticProbeConfig) -> (r: Self)
        ensures
            r.spec_config() == config,
    {
        Self { config }
    }

    /// A probe that succeeds after `latency`, classified healthy.
    pub fn success(latency: Duration) -> (r: Self)
        ensures
            r.spec_config().outcome == SampleOutcome::Success,
            r.spec_config().latency == latency,
            r.spec_config().classification == SampleClassification::HealthyResponse,
    {
        Self {
            config: SyntheticProbeConfig {
                outcome: SampleOutcome::Success,
                latency,
                classification: SampleClassification::HealthyResponse,
            },
        }
    }

    /// A probe that times out after five seconds, classified as
    /// measurement loss.
    pub fn timeout() -> (r: Self)
        ensures
            r.spec_config().outcome == SampleOutcome::Timeout,
            duration_nanos(r.spec_config().latency) == 5_000_000_000,
            r.spec_config().classification == SampleClassification::MeasurementLoss,
    {
        Self {
            config: SyntheticProbeConfig {
                outcome: SampleOutcome::Timeout,
                latency: Duration::from_secs(5),
                classification: SampleClassification::MeasurementLoss,
            },
        }
    }

    /// The probe's settings.
    pub closed spec fn spec_config(&self) -> SyntheticProbeConfig {
        self.config
    }

    /// The probe's settings.
    pub fn config(&self) -> (r: SyntheticProbeConfig)
        ensures
            r == self.spec_config(),
    {
        self.config
    }

    /// How long a round waits before it reports: the configured latency,
    /// cut to the check's timeout.
    pub fn wait_time(&self, timeout: Duration) -> (r: Duration)
        ensures
            r == (if duration_nanos(self.spec_config().latency) <= duration_nanos(timeout) {
                self.spec_config().latency
            } else {
                timeout
            }),
    {
        if self.config.latency.as_nanos() <= timeout.as_nanos() {
            self.config.latency
        } else {
            timeout
        }
    }

    /// The round that the probe reports for `check_id`: one sample with the
    /// configured outcome and latency.
    pub fn round(&self, check_id: CheckId) -> (r: ProbeRound)
        ensures
            r.check_id == check_id,
            r.results@.len() == 1,
            r.results@[0].outcome == self.spec_config().outcome,
            r.results@[0].latency == Some(self.spec_config().latency),
            r.results@[0].detail is None,
            r.results@[0].metadata is None,
    {
        let mut results: Vec<SampleResult> = Vec::new();
        results.push(
            SampleResult {
                outcome: self.config.outcome,
                latency: Some(self.config.latency),
                detail: None,
                metadata: None,
            },
        );
        ProbeRound { check_id, results }
    }
}

impl crate::probe::Probe for SyntheticProbe {
    open spec fn spec_kind(&self) -> crate::kinds::ProbeKind {
        crate::kinds::ProbeKind::Http
    }

    fn kind(&self) -> (r: crate::kinds::ProbeKind) {
        crate::kinds::ProbeKind::Http
    }
}

} // verus!
