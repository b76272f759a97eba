//! A quorum-replicated blobstore multiplexer with a write-ahead log.
//!
//! The crate models the core of a multi-backend content-addressed blob
//! storage layer: a multiplexer fronting several blob backends,
//! coordinating reads, writes, presence checks and deletions across them
//! while tolerating partial backend failure. A put records its intent in
//! the write-ahead log, replicates to every backend, and commits at a
//! write quorum; a get takes the first value found and decides absence
//! by a negative quorum; the healer scrubs replicas back into agreement.
//!
//! * `types` — the blob contract and the error taxonomy callers see.
//! * `kv` — the key/value state a single backend holds.
//! * `chaos` — the failure-injection decorator's decision logic.
//! * `wal` — write-ahead-log entries, their binary layout, the queue.
//! * `quorum` — the write/read quorum pair and its intersection bound.
//! * `options` — decorator, pack, scrub and telemetry options.
//! * `leaf` — a single backend with its decorator stack.
//! * `multiplex` — the quorum multiplexer itself.
//! * `semantics` — the mathematical model of every operation.
//! * `scrub` — the healer's read-repair path.
//! * `factory` — recursive construction from a configuration tree.
//! * `laws` — proved system-level properties.

pub mod types;
pub mod kv;
pub mod chaos;
pub mod quorum;
pub mod options;
pub mod wal;
pub mod leaf;
pub mod multiplex;
pub mod semantics;
pub mod scrub;
pub mod factory;
pub mod laws;
