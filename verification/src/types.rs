//! The blob contract shared by every backend and by the multiplexer:
//! put behaviours, overwrite statuses, the presence tri-state, and the
//! error taxonomy surfaced to callers.

use vstd::prelude::*;

verus! {

/// How a `put` treats a key that is already present.
#[derive(Clone, Copy, Debug, PartialEq, Eq, Structural)]
pub enum PutBehaviour {
    /// Write unconditionally; do not check for an existing value.
    Overwrite,
    /// Write only when the key is absent.
    IfAbsent,
    /// Write unconditionally, but observe whether a value was replaced.
    OverwriteAndLog,
}

/// The behaviour used when a caller does not ask for one explicitly.
pub const DEFAULT_PUT_BEHAVIOUR: PutBehaviour = PutBehaviour::Overwrite;

/// Tri-state outcome of a `put`. At the multiplex layer the returned
/// status is always `NotChecked`, because individual backends may disagree.
#[derive(Clone, Copy, Debug, PartialEq, Eq, Structural)]
pub enum OverwriteStatus {
    NotChecked,
    Overwrote,
    PreventedOverwrite,
}

/// The error a single backend operation can fail with.
#[derive(Debug)]
pub enum StoreError {
    /// The backend is a sentinel disabled by configuration.
    DisabledByConfig,
    /// The read-only decorator rejected a put or an unlink.
    ReadOnlyRejected,
    /// The chaos decorator injected a synthetic read failure.
    ChaosInjectedRead,
    /// The chaos decorator injected a synthetic write failure.
    ChaosInjectedWrite,
    /// The timed envelope around the backend gave up on the operation.
    DeadlineExceeded,
    /// The backend was asked to unlink a key it does not hold.
    UnlinkMissingKey,
    /// A backend that is itself a multiplexer failed.
    Inner(Box<MultiplexError>),
}

/// The per-operation error kinds the multiplexer distinguishes, each
/// carrying a backend id to underlying error map.
#[derive(Debug)]
pub enum ErrorKind {
    /// Every backend errored on the operation.
    AllFailed(Vec<(u64, StoreError)>),
    /// Fewer than the write quorum of backends acknowledged a put.
    SomePutsFailed(Vec<(u64, StoreError)>),
    /// At least one backend may still hold the key after unlink attempts.
    SomeUnlinksFailed(Vec<(u64, StoreError)>),
    /// A read quorum could not decide between a value and absence.
    SomeGetsFailed(Vec<(u64, StoreError)>),
    /// A presence check could not reach a decision; advisory only.
    SomeIsPresentsFailed(Vec<(u64, StoreError)>),
}

/// A failure of a multiplexer operation: either the write-ahead log
/// refused the intent record, or replication itself failed.
#[derive(Debug)]
pub enum MultiplexError {
    /// The write-ahead log did not acknowledge the intent entry; no
    /// backend write was attempted.
    WalAppendFailed,
    /// The operation ran but could not reach its quorum.
    Op(ErrorKind),
}

/// Tri-state presence answer.
#[derive(Debug)]
pub enum BlobstoreIsPresent {
    Present,
    Absent,
    /// The check is undecided; the payload explains why. A caller that
    /// wants to avoid a needless put may still opportunistically write.
    ProbablyNotPresent(Box<ErrorKind>),
}

/// Mathematical view of `StoreError`.
pub enum StoreErrorView {
    DisabledByConfig,
    ReadOnlyRejected,
    ChaosInjectedRead,
    ChaosInjectedWrite,
    DeadlineExceeded,
    UnlinkMissingKey,
    Inner(MultiplexErrorView),
}

/// Mathematical view of `ErrorKind`.
pub enum ErrorKindView {
    AllFailed(Seq<(u64, StoreErrorView)>),
    SomePutsFailed(Seq<(u64, StoreErrorView)>),
    SomeUnlinksFailed(Seq<(u64, StoreErrorView)>),
    SomeGetsFailed(Seq<(u64, StoreErrorView)>),
    SomeIsPresentsFailed(Seq<(u64, StoreErrorView)>),
}

/// Mathematical view of `MultiplexError`.
pub enum MultiplexErrorView {
    WalAppendFailed,
    Op(ErrorKindView),
}

/// Mathematical view of `BlobstoreIsPresent`.
pub enum IsPresentView {
    Present,
    Absent,
    ProbablyNotPresent(ErrorKindView),
}

pub open spec fn store_error_view(e: StoreError) -> StoreErrorView
    decreases e,
{
    match e {
        StoreError::DisabledByConfig => StoreErrorView::DisabledByConfig,
        StoreError::ReadOnlyRejected => StoreErrorView::ReadOnlyRejected,
        StoreError::ChaosInjectedRead => StoreErrorView::ChaosInjectedRead,
        StoreError::ChaosInjectedWrite => StoreErrorView::ChaosInjectedWrite,
        StoreError::DeadlineExceeded => StoreErrorView::DeadlineExceeded,
        StoreError::UnlinkMissingKey => StoreErrorView::UnlinkMissingKey,
        StoreError::Inner(b) => StoreErrorView::Inner(multiplex_error_view(*b)),
    }
}

pub open spec fn error_list_view(l: Seq<(u64, StoreError)>) -> Seq<(u64, StoreErrorView)>
    decreases l,
{
    if l.len() == 0 {
        Seq::empty()
    } else {
        error_list_view(l.drop_last()).push((l.last().0, store_error_view(l.last().1)))
    }
}

pub open spec fn error_kind_view(k: ErrorKind) -> ErrorKindView
    decreases k,
{
    match k {
        ErrorKind::AllFailed(l) => ErrorKindView::AllFailed(error_list_view(l@)),
        ErrorKind::SomePutsFailed(l) => ErrorKindView::SomePutsFailed(error_list_view(l@)),
        ErrorKind::SomeUnlinksFailed(l) => ErrorKindView::SomeUnlinksFailed(error_list_view(l@)),
        ErrorKind::SomeGetsFailed(l) => ErrorKindView::SomeGetsFailed(error_list_view(l@)),
        ErrorKind::SomeIsPresentsFailed(l) => ErrorKindView::SomeIsPresentsFailed(
            error_list_view(l@),
        ),
    }
}

pub open spec fn multiplex_error_view(e: MultiplexError) -> MultiplexErrorView
    decreases e,
{
    match e {
        MultiplexError::WalAppendFailed => MultiplexErrorView::WalAppendFailed,
        MultiplexError::Op(k) => MultiplexErrorView::Op(error_kind_view(k)),
    }
}

pub open spec fn is_present_view(p: BlobstoreIsPresent) -> IsPresentView {
    match p {
        BlobstoreIsPresent::Present => IsPresentView::Present,
        BlobstoreIsPresent::Absent => IsPresentView::Absent,
        BlobstoreIsPresent::ProbablyNotPresent(k) => IsPresentView::ProbablyNotPresent(
            error_kind_view(*k),
        ),
    }
}

impl View for StoreError {
    type V = StoreErrorView;

    open spec fn view(&self) -> StoreErrorView {
        store_error_view(*self)
    }
}

impl View for ErrorKind {
    type V = ErrorKindView;

    open spec fn view(&self) -> ErrorKindView {
        error_kind_view(*self)
    }
}

impl View for MultiplexError {
    type V = MultiplexErrorView;

    open spec fn view(&self) -> MultiplexErrorView {
        multiplex_error_view(*self)
    }
}

impl View for BlobstoreIsPresent {
    type V = IsPresentView;

    open spec fn view(&self) -> IsPresentView {
        is_present_view(*self)
    }
}

/// View of a backend put result.
pub open spec fn put_res_view(r: Result<OverwriteStatus, StoreError>) -> Result<
    OverwriteStatus,
    StoreErrorView,
> {
    match r {
        Ok(s) => Ok(s),
        Err(e) => Err(store_error_view(e)),
    }
}

/// View of a backend get result.
pub open spec fn get_res_view(r: Result<Option<Vec<u8>>, StoreError>) -> Result<
    Option<Seq<u8>>,
    StoreErrorView,
> {
    match r {
        Ok(Some(v)) => Ok(Some(v@)),
        Ok(None) => Ok(None),
        Err(e) => Err(store_error_view(e)),
    }
}

/// View of a backend presence result.
pub open spec fn pres_res_view(r: Result<BlobstoreIsPresent, StoreError>) -> Result<
    IsPresentView,
    StoreErrorView,
> {
    match r {
        Ok(p) => Ok(is_present_view(p)),
        Err(e) => Err(store_error_view(e)),
    }
}

/// View of a backend unlink result.
pub open spec fn unlink_res_view(r: Result<(), StoreError>) -> Result<(), StoreErrorView> {
    match r {
        Ok(()) => Ok(()),
        Err(e) => Err(store_error_view(e)),
    }
}

/// View of a multiplexer put result.
pub open spec fn mux_put_res_view(r: Result<OverwriteStatus, MultiplexError>) -> Result<
    OverwriteStatus,
    MultiplexErrorView,
> {
    match r {
        Ok(s) => Ok(s),
        Err(e) => Err(multiplex_error_view(e)),
    }
}

/// View of a multiplexer get result.
pub open spec fn mux_get_res_view(r: Result<Option<(u64, Vec<u8>)>, ErrorKind>) -> Result<
    Option<(u64, Seq<u8>)>,
    ErrorKindView,
> {
    match r {
        Ok(Some((id, v))) => Ok(Some((id, v@))),
        Ok(None) => Ok(None),
        Err(k) => Err(error_kind_view(k)),
    }
}

/// View of a caller-facing multiplexer get result.
pub open spec fn mux_data_res_view(r: Result<Option<Vec<u8>>, ErrorKind>) -> Result<
    Option<Seq<u8>>,
    ErrorKindView,
> {
    match r {
        Ok(Some(v)) => Ok(Some(v@)),
        Ok(None) => Ok(None),
        Err(k) => Err(error_kind_view(k)),
    }
}

/// View of a multiplexer presence result.
pub open spec fn mux_pres_res_view(r: Result<BlobstoreIsPresent, ErrorKind>) -> Result<
    IsPresentView,
    ErrorKindView,
> {
    match r {
        Ok(p) => Ok(is_present_view(p)),
        Err(k) => Err(error_kind_view(k)),
    }
}

/// View of a multiplexer unlink result.
pub open spec fn mux_unlink_res_view(r: Result<(), ErrorKind>) -> Result<(), ErrorKindView> {
    match r {
        Ok(()) => Ok(()),
        Err(k) => Err(error_kind_view(k)),
    }
}

/// The view of an error list is element-wise.
pub proof fn lemma_error_list_view_index(l: Seq<(u64, StoreError)>)
    ensures
        error_list_view(l).len() == l.len(),
        forall|i: int|
            0 <= i < l.len() ==> #[trigger] error_list_view(l)[i] == (
            l[i].0,
            store_error_view(l[i].1),
            ),
    decreases l,
{
    if l.len() > 0 {
        lemma_error_list_view_index(l.drop_last());
    }
}

} // verus!
