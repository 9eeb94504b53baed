//! The handles that stop the background tasks of a pool. (A task spawned on
//! async-std can only be cancelled by waiting for it to stop; its handle is
//! left to the code that spawns it.)

use vstd::prelude::*;

use std::sync::mpsc::SyncSender;

use super::Handle;

verus! {

/// `std::sync::mpsc::SyncSender`, the sending end of a bounded channel.
#[verifier::external_type_specification]
#[verifier::external_body]
#[verifier::reject_recursive_types(T)]
pub struct ExSyncSender<T>(SyncSender<T>);

/// `tokio::task::JoinHandle`, the handle of a task spawned on tokio.
#[verifier::external_type_specification]
#[verifier::external_body]
#[verifier::reject_recursive_types(T)]
pub struct ExTokioJoinHandle<T>(tokio::task::JoinHandle<T>);

/// `tokio::task::JoinError`, what awaiting a failed tokio task gives. Verus
/// needs it declared because the output of tokio's `JoinHandle`, as a
/// future, names it.
#[verifier::external_type_specification]
#[verifier::external_body]
pub struct ExTokioJoinError(tokio::task::JoinError);

/// `smol::Task`, a task spawned on smol.
#[verifier::external_type_specification]
#[verifier::external_body]
#[verifier::reject_recursive_types(T)]
#[verifier::reject_recursive_types(M)]
pub struct ExSmolTask<T, M>(smol::Task<T, M>);

/// `SyncSender::try_send` of the close signal: it never waits, and whether
/// the signal was taken is not looked at. Nothing is claimed of it.
#[verifier::external_body]
fn send_close(tx: SyncSender<()>) {
    let _ = tx.try_send(());
}

/// `tokio::task::JoinHandle::abort`: asks tokio to cancel the task. Nothing
/// is claimed of it.
#[verifier::external_body]
fn abort_tokio_task(h: tokio::task::JoinHandle<()>) {
    h.abort();
}

/// Drops a `smol::Task`, which cancels it. Nothing is claimed of it.
#[verifier::external_body]
fn cancel_smol_task(t: smol::Task<()>) {
    drop(t);
}

impl Handle for SyncSender<()> {
    fn abort(self) {
        send_close(self)
    }
}

impl Handle for tokio::task::JoinHandle<()> {
    fn abort(self) {
        abort_tokio_task(self)
    }
}

impl Handle for smol::Task<()> {
    fn abort(self) {
        cancel_smol_task(self)
    }
}

} // verus!
