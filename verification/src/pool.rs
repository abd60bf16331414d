use crate::app::{RenderRequest, RenderResult};
use crate::bitmap::Bitmap;
use vstd::prelude::*;

verus! {

/// The most workers a pool has.
pub const MAX_WORKERS: usize = 4;

/// How many workers a pool has where the machine does not tell how many
/// threads it can run side by side.
pub const FALLBACK_WORKERS: usize = 2;

/// How many workers a pool has on a machine that can run `parallelism`
/// threads side by side: as many, but no more than `MAX_WORKERS` and no fewer
/// than one.
pub open spec fn pool_size(parallelism: Option<usize>) -> usize {
    match parallelism {
        Some(n) => if n > MAX_WORKERS {
            MAX_WORKERS
        } else if n < 1 {
            1
        } else {
            n
        },
        None => FALLBACK_WORKERS,
    }
}

/// Picks the number of workers.
pub fn worker_count(parallelism: Option<usize>) -> (r: usize)
    ensures
        r == pool_size(parallelism),
        1 <= r <= MAX_WORKERS,
{
    match parallelism {
        Some(n) => if n > MAX_WORKERS {
            MAX_WORKERS
        } else if n < 1 {
            1
        } else {
            n
        },
        None => FALLBACK_WORKERS,
    }
}

/// What a worker has just seen.
pub enum WorkerEvent {
    /// The worker has opened the document, or has finished with a request.
    Ready,
    /// The worker has pulled a request from the queue.
    Pulled(RenderRequest),
    /// The queue is closed: no request will come any more.
    QueueClosed,
    /// The page of the request was rasterized.
    Rasterized(RenderRequest, Bitmap),
    /// The page of the request could not be rasterized.
    RasterFailed(RenderRequest),
    /// The result was handed to the coordinator.
    Sent,
    /// Nobody takes results any more.
    ReceiverGone,
}

/// What a worker does next.
pub enum WorkerAction {
    /// Take the queue for itself, pull one request, and let the queue go.
    Pull,
    /// Rasterize the page of the request, without holding the queue.
    Rasterize(RenderRequest),
    /// Hand the result to the coordinator.
    Send(RenderResult),
    /// End.
    Exit,
}

/// What a worker does after an event. It pulls a request whenever it has
/// none; a request that it pulled it rasterizes; a rasterized page it sends
/// on, with the page and scale of the request; a page that failed it drops
/// without a word and pulls the next; and it ends when the queue is closed
/// or nobody takes results any more.
pub open spec fn worker_next(event: WorkerEvent) -> WorkerAction {
    match event {
        WorkerEvent::Ready => WorkerAction::Pull,
        WorkerEvent::Pulled(request) => WorkerAction::Rasterize(request),
        WorkerEvent::QueueClosed => WorkerAction::Exit,
        WorkerEvent::Rasterized(request, img) => WorkerAction::Send(
            RenderResult { idx: request.idx, scale: request.scale, img },
        ),
        WorkerEvent::RasterFailed(_) => WorkerAction::Pull,
        WorkerEvent::Sent => WorkerAction::Pull,
        WorkerEvent::ReceiverGone => WorkerAction::Exit,
    }
}

/// Decides what a worker does after an event.
pub fn worker_step(event: WorkerEvent) -> (r: WorkerAction)
    ensures
        r == worker_next(event),
{
    match event {
        WorkerEvent::Ready => WorkerAction::Pull,
        WorkerEvent::Pulled(request) => WorkerAction::Rasterize(request),
        WorkerEvent::QueueClosed => WorkerAction::Exit,
        WorkerEvent::Rasterized(request, img) => WorkerAction::Send(
            RenderResult { idx: request.idx, scale: request.scale, img },
        ),
        WorkerEvent::RasterFailed(_) => WorkerAction::Pull,
        WorkerEvent::Sent => WorkerAction::Pull,
        WorkerEvent::ReceiverGone => WorkerAction::Exit,
    }
}

/// A worker sends a result only for a page that was rasterized, and then
/// under the page and scale that were asked for; it ends only when the queue
/// is closed or nobody takes results.
pub proof fn lemma_worker_sends_what_was_asked(event: WorkerEvent)
    ensures
        worker_next(event) is Send <==> event is Rasterized,
        event matches WorkerEvent::Rasterized(request, img) ==> worker_next(event)
            == WorkerAction::Send(RenderResult { idx: request.idx, scale: request.scale, img }),
        worker_next(event) is Exit <==> event is QueueClosed || event is ReceiverGone,
{
}

} // verus!
