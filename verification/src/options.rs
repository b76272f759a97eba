//! Decorator, pack and scrub options, the read-only marker, the telemetry
//! configuration, and the builder that assembles them.

use vstd::prelude::*;
use crate::chaos::ChaosOptions;
use crate::types::PutBehaviour;
use crate::types::DEFAULT_PUT_BEHAVIOUR;

verus! {

/// Bounds on concurrent reads and writes, in queries per second. The
/// throttle suspends callers until tokens are available; it never drops
/// requests, so it has no effect on any operation's outcome.
#[derive(Clone, Copy, Debug, PartialEq, Eq, Structural)]
pub struct ThrottleOptions {
    pub read_qps: Option<u64>,
    pub write_qps: Option<u64>,
}

impl ThrottleOptions {
    pub open spec fn spec_has_throttle(&self) -> bool {
        self.read_qps is Some || self.write_qps is Some
    }

    pub fn has_throttle(&self) -> (r: bool)
        ensures
            r == self.spec_has_throttle(),
    {
        self.read_qps.is_some() || self.write_qps.is_some()
    }
}

/// Mean artificial latencies, in microseconds, added before an operation
/// returns, to exercise tail-latency paths. No effect on outcomes.
#[derive(Clone, Copy, Debug, PartialEq, Eq, Structural)]
pub struct DelayOptions {
    pub get_mean_micros: Option<u64>,
    pub put_mean_micros: Option<u64>,
}

impl DelayOptions {
    pub open spec fn spec_has_delay(&self) -> bool {
        self.get_mean_micros is Some || self.put_mean_micros is Some
    }

    pub fn has_delay(&self) -> (r: bool)
        ensures
            r == self.spec_has_delay(),
    {
        self.get_mean_micros.is_some() || self.put_mean_micros.is_some()
    }
}

/// How a pack wrapper stores values. The codec is an opaque pass-through
/// from the multiplexer's perspective.
#[derive(Clone, Copy, Debug, PartialEq, Eq, Structural)]
pub enum PutFormat {
    Raw,
    Compressed,
}

/// Configuration a pack wrapper is built from.
#[derive(Clone, Copy, Debug, PartialEq, Eq, Structural)]
pub struct PackConfig {
    pub put_format: PutFormat,
}

/// Caller-side overrides for pack wrappers.
#[derive(Clone, Copy, Debug, PartialEq, Eq, Structural)]
pub struct PackOptions {
    pub override_put_format: Option<PutFormat>,
}

/// Whether scrubbed reads only report discrepancies or also repair them.
#[derive(Clone, Copy, Debug, PartialEq, Eq, Structural)]
pub enum ScrubAction {
    /// Return the majority value and log the discrepancy.
    ReportOnly,
    /// Additionally write the majority value back to lagging backends.
    Repair,
}

/// Whether absence of a key on a write-only backend counts as a
/// discrepancy during scrubbed reads.
#[derive(Clone, Copy, Debug, PartialEq, Eq, Structural)]
pub enum ScrubWriteOnly {
    /// Write-only backends are expected to lag; ignore them.
    SkipMissing,
    /// Treat a missing key on a write-only backend like a lagging replica.
    TreatMissingAsDiscrepancy,
}

/// Options for the scrubbing read path used by the healer.
#[derive(Clone, Copy, Debug, PartialEq, Eq, Structural)]
pub struct ScrubOptions {
    pub scrub_action: ScrubAction,
    /// Do not repair writes younger than this many timestamp ticks, to
    /// avoid racing the normal quorum protocol.
    pub scrub_grace: Option<u64>,
    pub scrub_action_on_missing_write_only: ScrubWriteOnly,
    /// How far back the scrub looks in the write-ahead log, in ticks.
    pub queue_peek_bound: u64,
}

impl ScrubOptions {
    /// The options used when scrubbing is requested with no further choice.
    pub fn basic() -> (r: ScrubOptions)
        ensures
            r.scrub_action == ScrubAction::ReportOnly,
            r.scrub_grace is None,
            r.scrub_action_on_missing_write_only == ScrubWriteOnly::SkipMissing,
            r.queue_peek_bound == 7200u64,
    {
        ScrubOptions {
            scrub_action: ScrubAction::ReportOnly,
            scrub_grace: None,
            scrub_action_on_missing_write_only: ScrubWriteOnly::SkipMissing,
            queue_peek_bound: 7200,
        }
    }
}

/// Whether the whole process runs against read-only storage.
#[derive(Clone, Copy, Debug, PartialEq, Eq, Structural)]
pub struct ReadOnlyStorage(pub bool);

/// Telemetry configuration for a multiplex: one table for per-backend
/// rows, one for caller-visible rows, and the per-operation sample rate
/// (one row is emitted out of every `sample_rate`). The sinks themselves
/// live outside this crate.
pub struct Scuba {
    pub inner_blobstores_table: Option<String>,
    pub multiplex_table: Option<String>,
    pub sample_rate: u64,
    /// Whether sampling has been applied to this handle.
    pub sampled: bool,
    /// The caller's request correlator, attached to every row once known.
    pub client_request_info: Option<String>,
}

/// Mathematical view of `Scuba`.
pub struct ScubaView {
    pub inner_blobstores_table: Option<Seq<char>>,
    pub multiplex_table: Option<Seq<char>>,
    pub sample_rate: u64,
    pub sampled: bool,
    pub client_request_info: Option<Seq<char>>,
}

pub open spec fn option_string_view(s: Option<String>) -> Option<Seq<char>> {
    match s {
        Some(t) => Some(t@),
        None => None,
    }
}

impl View for Scuba {
    type V = ScubaView;

    open spec fn view(&self) -> ScubaView {
        ScubaView {
            inner_blobstores_table: option_string_view(self.inner_blobstores_table),
            multiplex_table: option_string_view(self.multiplex_table),
            sample_rate: self.sample_rate,
            sampled: self.sampled,
            client_request_info: option_string_view(self.client_request_info),
        }
    }
}

/// Why telemetry configuration was rejected.
#[derive(Clone, Copy, Debug, PartialEq, Eq, Structural)]
pub enum ScubaError {
    /// A sample rate of zero would divide by zero when sampling.
    ZeroSampleRate,
}

impl Scuba {
    /// Build the telemetry configuration from raw table names. A missing
    /// table name discards that side's rows.
    pub fn new_from_raw(
        inner_blobstores_scuba_table: Option<String>,
        multiplex_scuba_table: Option<String>,
        sample_rate: u64,
    ) -> (r: Result<Scuba, ScubaError>)
        ensures
            match r {
                Ok(s) => {
                    &&& s@.inner_blobstores_table == option_string_view(
                        inner_blobstores_scuba_table,
                    )
                    &&& s@.multiplex_table == option_string_view(multiplex_scuba_table)
                    &&& s@.sample_rate == sample_rate
                    &&& !s@.sampled
                    &&& s@.client_request_info is None
                    &&& sample_rate > 0
                },
                Err(ScubaError::ZeroSampleRate) => sample_rate == 0,
            },
    {
        Scuba::new(inner_blobstores_scuba_table, multiplex_scuba_table, sample_rate)
    }

    /// Build the telemetry configuration from already-opened table handles.
    pub fn new(
        inner_blobstores_scuba: Option<String>,
        multiplex_scuba: Option<String>,
        sample_rate: u64,
    ) -> (r: Result<Scuba, ScubaError>)
        ensures
            match r {
                Ok(s) => {
                    &&& s@.inner_blobstores_table == option_string_view(inner_blobstores_scuba)
                    &&& s@.multiplex_table == option_string_view(multiplex_scuba)
                    &&& s@.sample_rate == sample_rate
                    &&& !s@.sampled
                    &&& s@.client_request_info is None
                    &&& sample_rate > 0
                },
                Err(ScubaError::ZeroSampleRate) => sample_rate == 0,
            },
    {
        if sample_rate == 0 {
            return Err(ScubaError::ZeroSampleRate);
        }
        Ok(
            Scuba {
                inner_blobstores_table: inner_blobstores_scuba,
                multiplex_table: multiplex_scuba,
                sample_rate,
                sampled: false,
                client_request_info: None,
            },
        )
    }

    /// Apply the configured sample rate to this handle.
    pub fn sampled(&mut self)
        ensures
            final(self)@ == (ScubaView { sampled: true, ..old(self)@ }),
    {
        self.sampled = true;
    }

    /// Attach the caller's request correlator, when the caller carries
    /// one, so rows on both tables can be joined to the request.
    pub fn add_client_request_info(&mut self, client_info: Option<String>)
        ensures
            final(self)@ == (ScubaView {
                client_request_info: match client_info {
                    Some(ci) => Some(ci@),
                    None => old(self)@.client_request_info,
                },
                ..old(self)@
            }),
    {
        if let Some(ci) = client_info {
            self.client_request_info = Some(ci);
        }
    }
}

/// The options the factory consults when it builds each backend.
#[derive(Clone, Copy, Debug, PartialEq, Eq, Structural)]
pub struct BlobstoreOptions {
    pub chaos_options: ChaosOptions,
    pub delay_options: DelayOptions,
    pub throttle_options: ThrottleOptions,
    pub pack_options: PackOptions,
    pub put_behaviour: PutBehaviour,
    pub scrub_options: Option<ScrubOptions>,
}

impl BlobstoreOptions {
    pub fn new(
        chaos_options: ChaosOptions,
        delay_options: DelayOptions,
        throttle_options: ThrottleOptions,
        pack_options: PackOptions,
        put_behaviour: Option<PutBehaviour>,
    ) -> (r: BlobstoreOptions)
        ensures
            r.chaos_options == chaos_options,
            r.delay_options == delay_options,
            r.throttle_options == throttle_options,
            r.pack_options == pack_options,
            r.put_behaviour == match put_behaviour {
                Some(b) => b,
                None => DEFAULT_PUT_BEHAVIOUR,
            },
            r.scrub_options is None,
    {
        BlobstoreOptions {
            chaos_options,
            delay_options,
            throttle_options,
            pack_options,
            put_behaviour: match put_behaviour {
                Some(b) => b,
                None => DEFAULT_PUT_BEHAVIOUR,
            },
            scrub_options: None,
        }
    }

    pub fn set_scrub_options(&mut self, scrub_options: ScrubOptions)
        ensures
            *final(self) == (BlobstoreOptions { scrub_options: Some(scrub_options), ..*old(self) }),
    {
        self.scrub_options = Some(scrub_options);
    }

    /// Select the scrub action, turning scrubbing on if it was off.
    /// Asking for no action leaves the options untouched.
    pub fn with_scrub_action(self, scrub_action: Option<ScrubAction>) -> (r: BlobstoreOptions)
        ensures
            match scrub_action {
                None => r == self,
                Some(action) => {
                    &&& r.scrub_options matches Some(so)
                    &&& so.scrub_action == action
                    &&& match self.scrub_options {
                        Some(prev) => so == (ScrubOptions { scrub_action: action, ..prev }),
                        None => so == (ScrubOptions {
                            scrub_action: action,
                            ..spec_basic_scrub_options()
                        }),
                    }
                    &&& r == (BlobstoreOptions { scrub_options: Some(so), ..self })
                },
            },
    {
        if let Some(scrub_action) = scrub_action {
            let mut scrub_options = match self.scrub_options {
                Some(so) => so,
                None => ScrubOptions::basic(),
            };
            scrub_options.scrub_action = scrub_action;
            BlobstoreOptions { scrub_options: Some(scrub_options), ..self }
        } else {
            self
        }
    }

    /// Set the repair grace period, in ticks. A no-op unless scrubbing
    /// is already configured.
    pub fn with_scrub_grace(self, scrub_grace: Option<u64>) -> (r: BlobstoreOptions)
        ensures
            match self.scrub_options {
                None => r == self,
                Some(prev) => r == (BlobstoreOptions {
                    scrub_options: Some(ScrubOptions { scrub_grace, ..prev }),
                    ..self
                }),
            },
    {
        if let Some(mut scrub_options) = self.scrub_options {
            scrub_options.scrub_grace = scrub_grace;
            BlobstoreOptions { scrub_options: Some(scrub_options), ..self }
        } else {
            self
        }
    }

    /// Choose how scrubbed reads treat keys missing from write-only
    /// backends. A no-op unless scrubbing is already configured.
    pub fn with_scrub_action_on_missing_write_only(self, scrub_missing: ScrubWriteOnly) -> (r:
        BlobstoreOptions)
        ensures
            match self.scrub_options {
                None => r == self,
                Some(prev) => r == (BlobstoreOptions {
                    scrub_options: Some(
                        ScrubOptions { scrub_action_on_missing_write_only: scrub_missing, ..prev },
                    ),
                    ..self
                }),
            },
    {
        if let Some(mut scrub_options) = self.scrub_options {
            scrub_options.scrub_action_on_missing_write_only = scrub_missing;
            BlobstoreOptions { scrub_options: Some(scrub_options), ..self }
        } else {
            self
        }
    }

    /// Bound how far back scrubbed reads look in the write-ahead log.
    /// A no-op unless scrubbing is already configured.
    pub fn with_scrub_queue_peek_bound(self, queue_peek_bound: u64) -> (r: BlobstoreOptions)
        ensures
            match self.scrub_options {
                None => r == self,
                Some(prev) => r == (BlobstoreOptions {
                    scrub_options: Some(ScrubOptions { queue_peek_bound, ..prev }),
                    ..self
                }),
            },
    {
        if let Some(mut scrub_options) = self.scrub_options {
            scrub_options.queue_peek_bound = queue_peek_bound;
            BlobstoreOptions { scrub_options: Some(scrub_options), ..self }
        } else {
            self
        }
    }
}

/// The scrub options `ScrubOptions::basic` builds.
pub open spec fn spec_basic_scrub_options() -> ScrubOptions {
    ScrubOptions {
        scrub_action: ScrubAction::ReportOnly,
        scrub_grace: None,
        scrub_action_on_missing_write_only: ScrubWriteOnly::SkipMissing,
        queue_peek_bound: 7200u64,
    }
}

} // verus!
