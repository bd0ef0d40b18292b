//! The worker of the bounded-channel pipeline.
//!
//! Producers merge the sensor feeds into one bounded inbound channel; the
//! worker below owns the fusion cache, drains that channel strictly in
//! arrival order, and forwards each output message to its consumer's
//! bounded outbound channel. A consumer that disconnects only stops its
//! own deliveries; when every consumer is gone, or the inbound channel
//! closes, the worker stops.

use vstd::prelude::*;
use crate::fuse::FusionCache;
use crate::message::{InputMessage, OutputMessage, SceneMessage, CameraViewMessage};

verus! {

#[verifier::external_type_specification]
#[verifier::external_body]
#[verifier::reject_recursive_types(T)]
pub struct ExFlumeSender<T>(flume::Sender<T>);

#[verifier::external_type_specification]
#[verifier::external_body]
#[verifier::reject_recursive_types(T)]
pub struct ExFlumeReceiver<T>(flume::Receiver<T>);

#[verifier::external_type_specification]
#[verifier::reject_recursive_types(T)]
pub struct ExFlumeSendError<T>(flume::SendError<T>);

#[verifier::external_type_specification]
#[verifier::external_body]
pub struct ExFlumeRecvError(flume::RecvError);

/// Relies on flume's `Sender::send`: it blocks while the bounded channel
/// is full, delivers in arrival order, and returns the message back
/// exactly when every receiver has disconnected.
pub assume_specification<T>[ flume::Sender::<T>::send ](s: &flume::Sender<T>, msg: T) -> (r:
    Result<(), flume::SendError<T>>)
    ensures
        r matches Err(e) ==> e.0 == msg,
;

/// Relies on flume's `Receiver::recv`: it blocks until a message arrives,
/// handing messages out in arrival order, and fails exactly when the
/// channel is empty with every sender disconnected. Which message arrives
/// depends on the producers, so nothing is promised about the value.
pub assume_specification<T>[ flume::Receiver::<T>::recv ](rx: &flume::Receiver<T>) -> (r: Result<
    T,
    flume::RecvError,
>);

/// The fusion worker: it owns the cache, the inbound channel, and one
/// outbound channel per consumer — the scene sink plus one sink per
/// camera.
///
/// Each `step` call handles one input message; the caller drives `step`
/// until it reports that the worker is done. Messages are handled
/// strictly in the order received; one that fails to decode is dropped
/// and the cache keeps its state. Each scene message goes to the scene
/// sink and each camera-view message to its camera's sink, in the order
/// the update produced them; a send blocks while a sink's bounded channel
/// is full, so no output is dropped or reordered. A sink whose consumer
/// disconnected is abandoned; the worker is done when all are, or when
/// the inbound channel closes.
pub struct Worker {
    cache: FusionCache,
    rx: flume::Receiver<InputMessage>,
    scene_tx: flume::Sender<SceneMessage>,
    view_txs: Vec<flume::Sender<CameraViewMessage>>,
    scene_alive: bool,
    view_alive: Vec<bool>,
}

impl Worker {
    /// The sink list matches the cache's cameras and the cache is
    /// consistent.
    pub closed spec fn wf(self) -> bool {
        &&& self.cache.wf()
        &&& self.view_txs@.len() == self.cache.cameras@.len()
        &&& self.view_alive@.len() == self.view_txs@.len()
    }

    /// Builds a worker over a cache and its channels.
    pub fn new(
        cache: FusionCache,
        rx: flume::Receiver<InputMessage>,
        scene_tx: flume::Sender<SceneMessage>,
        view_txs: Vec<flume::Sender<CameraViewMessage>>,
    ) -> (w: Worker)
        requires
            cache.wf(),
            view_txs@.len() == cache.cameras@.len(),
        ensures
            w.wf(),
    {
        let n_views = view_txs.len();
        let mut view_alive: Vec<bool> = Vec::new();
        let mut i: usize = 0;
        while i < n_views
            invariant
                view_alive@.len() == i,
                i <= n_views,
            decreases n_views - i,
        {
            view_alive.push(true);
            i = i + 1;
        }
        Worker { cache, rx, scene_tx, view_txs, scene_alive: true, view_alive }
    }

    /// Handles one input message: receives it (blocking while the inbound
    /// channel is empty), updates the cache, and forwards the outputs.
    /// Reports whether the worker should keep running.
    pub fn step(&mut self) -> (more: bool)
        requires
            old(self).wf(),
        ensures
            final(self).wf(),
    {
        let msg = match self.rx.recv() {
            Ok(m) => m,
            Err(_) => {
                return false;
            },
        };
        let mut outs = match self.cache.update(&msg) {
            Ok(outs) => outs,
            Err(_) => {
                return true;
            },
        };
        let n_outs = outs.len();
        let mut k: usize = 0;
        while k < n_outs
            invariant
                outs@.len() == n_outs - k,
                k <= n_outs,
                self.view_alive@.len() == self.view_txs@.len(),
                self.cache.wf(),
                self.view_txs@.len() == self.cache.cameras@.len(),
            decreases n_outs - k,
        {
            let out = outs.remove(0);
            match out {
                OutputMessage::Scene(s) => {
                    if self.scene_alive {
                        if self.scene_tx.send(s).is_err() {
                            self.scene_alive = false;
                        }
                    }
                },
                OutputMessage::CameraView(v) => {
                    let cam = v.camera;
                    if cam < self.view_txs.len() {
                        if self.view_alive[cam] {
                            if self.view_txs[cam].send(v).is_err() {
                                self.view_alive[cam] = false;
                            }
                        }
                    }
                },
            }
            k = k + 1;
        }
        let mut any_alive = self.scene_alive;
        let mut a: usize = 0;
        while a < self.view_alive.len()
            invariant
                a <= self.view_alive@.len(),
            decreases self.view_alive@.len() - a,
        {
            if self.view_alive[a] {
                any_alive = true;
            }
            a = a + 1;
        }
        any_alive
    }
}

} // verus!
