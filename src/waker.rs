use vstd::prelude::*;
use std::sync::mpsc::{Receiver, SyncSender};

verus! {

#[verifier::external_type_specification]
#[verifier::external_body]
#[verifier::reject_recursive_types(T)]
pub struct ExSyncSender<T>(SyncSender<T>);

#[verifier::external_type_specification]
#[verifier::external_body]
#[verifier::reject_recursive_types(T)]
pub struct ExReceiver<T>(Receiver<T>);

/// Relies on std::sync::mpsc::sync_channel: a channel that buffers at most
/// one message.
#[verifier::external_body]
fn one_slot_channel() -> (SyncSender<()>, Receiver<()>) {
    std::sync::mpsc::sync_channel(1)
}

/// Relies on SyncSender::try_send: it never blocks; when the slot is already
/// full, or the receiving side is gone, the message is dropped.
#[verifier::external_body]
fn offer_token(tx: &SyncSender<()>) {
    let _ = tx.try_send(());
}

/// Relies on SyncSender::clone: another sender for the same channel.
#[verifier::external_body]
fn clone_sender(tx: &SyncSender<()>) -> SyncSender<()> {
    tx.clone()
}

/// Relies on Receiver::recv: blocks until a message is there, or until every
/// sender is gone (`false`).
#[verifier::external_body]
fn receive_token(rx: &Receiver<()>) -> bool {
    rx.recv().is_ok()
}

/// Relies on Receiver::try_recv: takes a message if one is there, without
/// blocking.
#[verifier::external_body]
fn try_receive_token(rx: &Receiver<()>) -> bool {
    rx.try_recv().is_ok()
}

/// A thread-safe, clonable handle that asks a scheduler to advance its root
/// computation again.
///
/// Invoking it never blocks and never fails: the notification slot holds at
/// most one pending signal, so repeated wakes collapse into one, and once the
/// scheduler that owns the slot is gone a wake does nothing at all.
pub struct WakeHandle {
    tx: SyncSender<()>,
}

/// The scheduler's side of a wake handle: a one-slot notification.
pub struct Notifier {
    rx: Receiver<()>,
}

impl WakeHandle {
    /// Signals the scheduler that progress may be possible.
    pub fn wake(&self) {
        offer_token(&self.tx);
    }
}

impl Clone for WakeHandle {
    fn clone(&self) -> (r: Self) {
        WakeHandle { tx: clone_sender(&self.tx) }
    }
}

impl Notifier {
    /// A fresh notification slot together with a wake handle that signals it.
    pub fn new() -> (r: (Notifier, WakeHandle)) {
        let (tx, rx) = one_slot_channel();
        (Notifier { rx }, WakeHandle { tx })
    }

    /// Blocks until a wake handle of this slot has been invoked, consuming the
    /// signal. Returns `false` when no wake handle can signal it any more.
    pub fn wait(&self) -> (r: bool) {
        receive_token(&self.rx)
    }

    /// Consumes a pending signal, if there is one, without blocking.
    pub fn take(&self) -> (r: bool) {
        try_receive_token(&self.rx)
    }
}

} // verus!
