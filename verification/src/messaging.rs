//! The actor's channel primitives, taken from tokio on trust.
//!
//! The registry actor receives requests over a bounded multi-producer
//! channel and answers each read request over a single-use reply channel
//! embedded in the request. What arrives on a channel, and whether a reply
//! is still wanted when it is sent, depend on the peers, so nothing is
//! claimed of the received value beyond its type, and of a send beyond what
//! tokio's source shows of its return value.

use vstd::prelude::*;

verus! {

#[verifier::external_type_specification]
#[verifier::external_body]
#[verifier::reject_recursive_types(T)]
pub struct ExReceiver<T>(tokio::sync::mpsc::Receiver<T>);

#[verifier::external_type_specification]
#[verifier::external_body]
#[verifier::reject_recursive_types(T)]
pub struct ExOneshotSender<T>(tokio::sync::oneshot::Sender<T>);

/// Relies on tokio::sync::mpsc::Receiver::blocking_recv: it blocks until a
/// message arrives (Some) or the channel is closed and drained (None). The
/// result depends on the peers, so nothing is promised of it. It panics
/// when called from within an asynchronous execution context; the actor
/// loop runs on a dedicated plain thread.
pub assume_specification<T>[ tokio::sync::mpsc::Receiver::<T>::blocking_recv ](
    rx: &mut tokio::sync::mpsc::Receiver<T>,
) -> Option<T>;

/// Relies on tokio::sync::oneshot::Sender::send: it never blocks, and when
/// the receiving half is already gone it returns the value back as Err.
pub assume_specification<T>[ tokio::sync::oneshot::Sender::<T>::send ](
    tx: tokio::sync::oneshot::Sender<T>,
    value: T,
) -> (r: Result<(), T>)
    ensures
        r is Err ==> r->Err_0 == value,
;

} // verus!
