//! The dispatcher's plan: which workers to launch, each with its buffer.

use vstd::prelude::*;
use crate::column::{plan_column, planned_column};
use crate::encode::{column_buffer, encode_column};
use crate::raster::Image;
use crate::worker::{FloodWorker, WorkerState};

verus! {

/// Number of columns when none is asked for.
pub const DEFAULT_THREAD_COUNT: u32 = 16;

/// Number of instances when none is asked for.
pub const DEFAULT_INSTANCE_COUNT: u32 = 1;

/// What to flood, and how widely.
#[derive(Debug)]
pub struct Job {
    /// Target in the form `host:port`.
    pub server_address: String,
    /// Added to every x coordinate sent.
    pub xoff: u32,
    /// Added to every y coordinate sent.
    pub yoff: u32,
    /// Number of columns the image is cut into.
    pub thread_count: u32,
    /// Number of full sets of column workers.
    pub instance_count: u32,
}

impl Job {
    /// Fills in what was not given: 16 columns, one instance, no offset.
    pub fn resolve(
        server_address: String,
        thread_count: Option<u32>,
        instance_count: Option<u32>,
        xoff: Option<u32>,
        yoff: Option<u32>,
    ) -> (job: Job)
        ensures
            job.server_address@ == server_address@,
            job.thread_count == thread_count.unwrap_or(DEFAULT_THREAD_COUNT),
            job.instance_count == instance_count.unwrap_or(DEFAULT_INSTANCE_COUNT),
            job.xoff == xoff.unwrap_or(0),
            job.yoff == yoff.unwrap_or(0),
    {
        Job {
            server_address,
            xoff: match xoff {
                Some(v) => v,
                None => 0,
            },
            yoff: match yoff {
                Some(v) => v,
                None => 0,
            },
            thread_count: match thread_count {
                Some(v) => v,
                None => DEFAULT_THREAD_COUNT,
            },
            instance_count: match instance_count {
                Some(v) => v,
                None => DEFAULT_INSTANCE_COUNT,
            },
        }
    }

    /// Number of workers that `dispatch` launches for this job.
    pub open spec fn worker_count(&self) -> nat {
        self.instance_count as nat * self.thread_count as nat
    }
}

/// The dimensions to draw at: those asked for, and the source's own where
/// none is given.
pub fn target_dimensions(
    source_width: u32,
    source_height: u32,
    width: Option<u32>,
    height: Option<u32>,
) -> (target: (u32, u32))
    ensures
        target.0 == width.unwrap_or(source_width),
        target.1 == height.unwrap_or(source_height),
{
    (
        match width {
            Some(w) => w,
            None => source_width,
        },
        match height {
            Some(h) => h,
            None => source_height,
        },
    )
}

/// Position, in launch order, of the worker for column `thread_index` of
/// instance `instance`.
pub open spec fn worker_slot(thread_count: nat, instance: int, thread_index: int) -> int {
    instance * thread_count + thread_index
}

/// Slots are laid out instance by instance: those of earlier instances come
/// before, and each slot belongs to one pair only.
pub proof fn lemma_worker_slot(thread_count: nat, instance: int, thread_index: int, other: int)
    requires
        0 <= instance,
        0 <= thread_index < thread_count,
    ensures
        instance * thread_count <= worker_slot(thread_count, instance, thread_index) < (instance
            + 1) * thread_count,
        instance < other ==> worker_slot(thread_count, instance, thread_index) < other
            * thread_count,
        worker_slot(thread_count, instance, thread_index) / thread_count as int == instance,
        worker_slot(thread_count, instance, thread_index) % thread_count as int == thread_index,
{
    let t = thread_count as int;
    assert((instance + 1) * t == instance * t + t) by (nonlinear_arith);
    assert(instance < other ==> (instance + 1) * t <= other * t) by (nonlinear_arith)
        requires
            t >= 0,
    ;
    vstd::arithmetic::div_mod::lemma_fundamental_div_mod_converse(
        worker_slot(thread_count, instance, thread_index),
        t,
        instance,
        thread_index,
    );
}

/// Builds every worker of the job: for each instance, for each column from
/// the left, one worker with that column's encoded buffer and the job's
/// address, yet to connect.
pub fn dispatch(job: &Job, image: &Image) -> (workers: Vec<FloodWorker>)
    requires
        job.thread_count >= 1,
    ensures
        workers@.len() == job.worker_count(),
        forall|instance: int, thread_index: int|
            0 <= instance < job.instance_count && 0 <= thread_index < job.thread_count ==> {
                let worker = #[trigger] workers@[worker_slot(
                    job.thread_count as nat,
                    instance,
                    thread_index,
                )];
                &&& worker.spec_state() == WorkerState::Connecting
                &&& worker.spec_address() == job.server_address@
                &&& worker.spec_buffer() == column_buffer(
                    image@,
                    planned_column(
                        image@.width,
                        image@.height,
                        job.thread_count as nat,
                        thread_index as nat,
                    ),
                    job.xoff as nat,
                    job.yoff as nat,
                )
            },
{
    let width = image.width();
    let height = image.height();
    let mut workers: Vec<FloodWorker> = Vec::new();
    let mut instance: u32 = 0;
    assert(0 * job.thread_count as nat == 0);
    while instance < job.instance_count
        invariant
            job.thread_count >= 1,
            instance <= job.instance_count,
            width == image@.width,
            height == image@.height,
            workers@.len() == instance as nat * job.thread_count as nat,
            forall|a: int, b: int|
                0 <= a < instance && 0 <= b < job.thread_count ==> {
                    let worker = #[trigger] workers@[worker_slot(job.thread_count as nat, a, b)];
                    &&& worker.spec_state() == WorkerState::Connecting
                    &&& worker.spec_address() == job.server_address@
                    &&& worker.spec_buffer() == column_buffer(
                        image@,
                        planned_column(
                            image@.width,
                            image@.height,
                            job.thread_count as nat,
                            b as nat,
                        ),
                        job.xoff as nat,
                        job.yoff as nat,
                    )
                },
        decreases job.instance_count - instance,
    {
        let mut thread_index: u32 = 0;
        while thread_index < job.thread_count
            invariant
                job.thread_count >= 1,
                instance < job.instance_count,
                thread_index <= job.thread_count,
                width == image@.width,
                height == image@.height,
                workers@.len() == instance as nat * job.thread_count as nat + thread_index,
                forall|a: int, b: int|
                    (0 <= a < instance && 0 <= b < job.thread_count) || (a == instance && 0 <= b
                        < thread_index) ==> {
                        let worker = #[trigger] workers@[worker_slot(
                            job.thread_count as nat,
                            a,
                            b,
                        )];
                        &&& worker.spec_state() == WorkerState::Connecting
                        &&& worker.spec_address() == job.server_address@
                        &&& worker.spec_buffer() == column_buffer(
                            image@,
                            planned_column(
                                image@.width,
                                image@.height,
                                job.thread_count as nat,
                                b as nat,
                            ),
                            job.xoff as nat,
                            job.yoff as nat,
                        )
                    },
            decreases job.thread_count - thread_index,
        {
            let column = plan_column(width, height, job.thread_count, thread_index);
            let buffer = encode_column(image, &column, job.xoff, job.yoff);
            let worker = FloodWorker::new(job.server_address.clone(), buffer);
            let ghost before = workers@;
            workers.push(worker);
            proof {
                assert forall|a: int, b: int|
                    (0 <= a < instance && 0 <= b < job.thread_count) || (a == instance && 0 <= b
                        < thread_index + 1) implies {
                    let w = #[trigger] workers@[worker_slot(job.thread_count as nat, a, b)];
                    &&& w.spec_state() == WorkerState::Connecting
                    &&& w.spec_address() == job.server_address@
                    &&& w.spec_buffer() == column_buffer(
                        image@,
                        planned_column(
                            image@.width,
                            image@.height,
                            job.thread_count as nat,
                            b as nat,
                        ),
                        job.xoff as nat,
                        job.yoff as nat,
                    )
                } by {
                    lemma_worker_slot(job.thread_count as nat, a, b, instance as int);
                    if a == instance && b == thread_index {
                        assert(worker_slot(job.thread_count as nat, a, b) == before.len());
                    } else {
                        assert(worker_slot(job.thread_count as nat, a, b) < before.len());
                        assert(workers@[worker_slot(job.thread_count as nat, a, b)]
                            == before[worker_slot(job.thread_count as nat, a, b)]);
                    }
                }
            }
            thread_index = thread_index + 1;
        }
        proof {
            assert((instance + 1) as nat * job.thread_count as nat == instance as nat
                * job.thread_count as nat + job.thread_count) by (nonlinear_arith);
        }
        instance = instance + 1;
    }
    workers
}

} // verus!
