//! The task queue that turns a start request into one task per device and hands
//! the tasks to workers in order, and the decisions taken while a task runs.

pub mod poll;
pub mod submission;

use std::collections::VecDeque;
use vstd::prelude::*;
use vstd::string::*;
use crate::text::{opt_view, clone_opt, eq_str, concat};

verus! {

/// The part of a device to export: `length` bytes from offset `start`.
#[derive(Debug, Clone, Copy)]
pub struct ExportRange {
    pub start: u64,
    pub length: u64,
}

/// A request to flash an image to, or export an image from, some devices.
#[derive(Debug, Clone)]
pub struct FlashStartRequest {
    pub mode: String,
    pub image_path: Option<String>,
    pub device_paths: Vec<String>,
    pub export_range: Option<ExportRange>,
    pub concurrency: Option<u32>,
}

/// One device's part of a request, waiting for a worker.
#[derive(Debug, Clone)]
pub struct QueuedTask {
    pub id: u64,
    pub mode: String,
    pub image_path: Option<String>,
    pub device_path: String,
    pub export_range: Option<ExportRange>,
}

/// How a task ended, when it did not fail.
#[derive(Debug, Clone, Copy, PartialEq, Eq, Structural)]
pub enum PollOutcome {
    Done,
    Cancelled,
}

pub struct QueuedTaskView {
    pub id: u64,
    pub mode: Seq<char>,
    pub image_path: Option<Seq<char>>,
    pub device_path: Seq<char>,
    pub export_range: Option<ExportRange>,
}

impl View for QueuedTask {
    type V = QueuedTaskView;

    open spec fn view(&self) -> QueuedTaskView {
        QueuedTaskView {
            id: self.id,
            mode: self.mode@,
            image_path: opt_view(self.image_path),
            device_path: self.device_path@,
            export_range: self.export_range,
        }
    }
}

/// The tasks waiting for workers, the last id given out, and the workers started.
pub struct TaskQueue {
    queue: VecDeque<QueuedTask>,
    next_id: u64,
    workers_started: bool,
    worker_count: usize,
}

pub struct TaskQueueView {
    pub queue: Seq<QueuedTaskView>,
    pub next_id: u64,
    pub workers_started: bool,
    pub worker_count: usize,
}

impl View for TaskQueue {
    type V = TaskQueueView;

    closed spec fn view(&self) -> TaskQueueView {
        TaskQueueView {
            queue: self.queue@.map_values(|t: QueuedTask| t@),
            next_id: self.next_id,
            workers_started: self.workers_started,
            worker_count: self.worker_count,
        }
    }
}

impl TaskQueueView {
    /// Waiting tasks have increasing ids, none above the last id given out, and
    /// workers are counted only once started.
    pub open spec fn wf(self) -> bool {
        &&& forall|i: int, j: int|
            0 <= i < j < self.queue.len() ==> self.queue[i].id < self.queue[j].id
        &&& forall|i: int| 0 <= i < self.queue.len() ==> 0 < #[trigger] self.queue[i].id <= self.next_id
        &&& !self.workers_started ==> self.worker_count == 0
    }
}

/// The outcome of a request the queue accepted: the ids of its tasks, one per
/// device in order, the concurrency it asked for, and how many workers to start.
#[derive(Debug, Clone)]
pub struct Enqueued {
    pub ids: Vec<u64>,
    pub concurrency: usize,
    pub spawn_workers: usize,
}

/// Why a request is refused, if it is: no device, an unknown mode, or flashing
/// without an image.
pub open spec fn request_error(req: FlashStartRequest) -> Option<Seq<char>> {
    if req.device_paths@.len() == 0 {
        Some("未选择任何目标设备"@)
    } else if req.mode@ != "flash"@ && req.mode@ != "export"@ {
        Some("未知模式: "@ + req.mode@)
    } else if req.mode@ == "flash"@ && req.image_path is None {
        Some("未选择镜像文件"@)
    } else {
        None
    }
}

/// The number of concurrent tasks asked for: 3 by default, kept within 1 to 8.
pub open spec fn requested_concurrency(c: Option<u32>) -> usize {
    let n = match c {
        Some(n) => n,
        None => 3,
    };
    if n < 1 {
        1
    } else if n > 8 {
        8
    } else {
        n as usize
    }
}

/// The tasks a request makes, ids counted from `first_id`.
pub open spec fn request_tasks(req: FlashStartRequest, first_id: int) -> Seq<QueuedTaskView> {
    Seq::new(
        req.device_paths@.len(),
        |i: int|
            QueuedTaskView {
                id: (first_id + i) as u64,
                mode: req.mode@,
                image_path: opt_view(req.image_path),
                device_path: req.device_paths@[i]@,
                export_range: req.export_range,
            },
    )
}

/// The workers running once a request asking for `c` is accepted: never fewer than before.
pub open spec fn workers_after(q: TaskQueueView, c: usize) -> usize {
    if q.workers_started && q.worker_count >= c {
        q.worker_count
    } else {
        c
    }
}

/// The queue once a valid request is accepted.
pub open spec fn queue_after(q: TaskQueueView, req: FlashStartRequest) -> TaskQueueView {
    TaskQueueView {
        queue: q.queue + request_tasks(req, q.next_id + 1),
        next_id: (q.next_id + req.device_paths@.len()) as u64,
        workers_started: true,
        worker_count: workers_after(q, requested_concurrency(req.concurrency)),
    }
}

/// The workers to start when a valid request is accepted.
pub open spec fn spawn_count(q: TaskQueueView, req: FlashStartRequest) -> usize {
    let c = requested_concurrency(req.concurrency);
    if !q.workers_started {
        c
    } else if q.worker_count < c {
        (c - q.worker_count) as usize
    } else {
        0
    }
}

/// The checks a request must pass before any task is queued: `Err` with the
/// message of the first check it fails.
pub fn check_request(req: &FlashStartRequest) -> (r: Result<(), String>)
    ensures
        match request_error(*req) {
            Some(msg) => r matches Err(e) && e@ == msg,
            None => r is Ok,
        },
{
    if req.device_paths.len() == 0 {
        return Err(String::from_str("未选择任何目标设备"));
    }
    let is_flash = eq_str(req.mode.as_str(), "flash");
    let is_export = eq_str(req.mode.as_str(), "export");
    if !is_flash && !is_export {
        return Err(concat("未知模式: ", req.mode.as_str()));
    }
    if is_flash && req.image_path.is_none() {
        return Err(String::from_str("未选择镜像文件"));
    }
    Ok(())
}

/// The ids a request is given when `last` is the last id given out: the next
/// ones, one per device, or none when the request is refused.
pub open spec fn request_ids(last: int, req: FlashStartRequest) -> Seq<u64> {
    if request_error(req) is Some {
        seq![]
    } else {
        Seq::new(req.device_paths@.len(), |i: int| (last + 1 + i) as u64)
    }
}

/// The queue after a request: unchanged when it is refused.
pub open spec fn apply_request(q: TaskQueueView, req: FlashStartRequest) -> TaskQueueView {
    if request_error(req) is Some {
        q
    } else {
        queue_after(q, req)
    }
}

/// The queue after a sequence of requests, in order.
pub open spec fn run_requests(q: TaskQueueView, reqs: Seq<FlashStartRequest>) -> TaskQueueView
    decreases reqs.len(),
{
    if reqs.len() == 0 {
        q
    } else {
        apply_request(run_requests(q, reqs.drop_last()), reqs.last())
    }
}

/// The ids a sequence of requests is given, request after request.
pub open spec fn issued_ids(q: TaskQueueView, reqs: Seq<FlashStartRequest>) -> Seq<u64>
    decreases reqs.len(),
{
    if reqs.len() == 0 {
        seq![]
    } else {
        issued_ids(q, reqs.drop_last()) + request_ids(
            run_requests(q, reqs.drop_last()).next_id as int,
            reqs.last(),
        )
    }
}

/// The number of devices in the accepted requests of a sequence.
pub open spec fn accepted_devices(reqs: Seq<FlashStartRequest>) -> nat
    decreases reqs.len(),
{
    if reqs.len() == 0 {
        0
    } else {
        accepted_devices(reqs.drop_last()) + if request_error(reqs.last()) is Some {
            0
        } else {
            reqs.last().device_paths@.len()
        }
    }
}

/// Ids count up without gaps: over any sequence of requests, the ids given out
/// are the next ones after the last id, each once, in order, and refused requests
/// take none; from a new queue they are exactly 1, 2, 3, ...
pub proof fn law_ids_count_up(q: TaskQueueView, reqs: Seq<FlashStartRequest>)
    requires
        q.next_id + accepted_devices(reqs) <= u64::MAX,
    ensures
        issued_ids(q, reqs) == Seq::new(accepted_devices(reqs), |i: int| (q.next_id + 1 + i) as u64),
        run_requests(q, reqs).next_id == q.next_id + accepted_devices(reqs),
        q.next_id == 0 ==> issued_ids(q, reqs) == Seq::new(
            accepted_devices(reqs),
            |i: int| (i + 1) as u64,
        ),
    decreases reqs.len(),
{
    if reqs.len() > 0 {
        let prev = reqs.drop_last();
        law_ids_count_up(q, prev);
        let n = accepted_devices(prev);
        let r = reqs.last();
        let mid = run_requests(q, prev);
        if request_error(r) is Some {
            assert(issued_ids(q, reqs) =~= issued_ids(q, prev));
        } else {
            assert(issued_ids(q, reqs) =~= Seq::new(
                accepted_devices(reqs),
                |i: int| (q.next_id + 1 + i) as u64,
            ));
        }
    }
}

impl TaskQueue {
    /// An empty queue with no workers.
    pub fn new() -> (q: TaskQueue)
        ensures
            q@.queue == Seq::<QueuedTaskView>::empty(),
            q@.next_id == 0,
            !q@.workers_started,
            q@.worker_count == 0,
            q@.wf(),
    {
        let q = TaskQueue {
            queue: VecDeque::new(),
            next_id: 0,
            workers_started: false,
            worker_count: 0,
        };
        assert(q@.queue =~= Seq::<QueuedTaskView>::empty());
        q
    }

    /// The last id given out.
    pub fn last_id(&self) -> (r: u64)
        ensures
            r == self@.next_id,
    {
        self.next_id
    }

    /// The number of workers started so far.
    pub fn worker_count(&self) -> (r: usize)
        ensures
            r == self@.worker_count,
    {
        self.worker_count
    }

    /// The number of waiting tasks.
    pub fn pending(&self) -> (r: usize)
        ensures
            r == self@.queue.len(),
    {
        self.queue.len()
    }

    /// Checks a request and, when it is valid, queues one task per device with
    /// the next ids, and says how many workers to start so that as many run as
    /// the request asks for (workers are never stopped).
    pub fn enqueue(&mut self, req: &FlashStartRequest) -> (r: Result<Enqueued, String>)
        requires
            request_error(*req) is None ==> old(self)@.next_id + req.device_paths@.len()
                <= u64::MAX,
        ensures
            final(self)@ == apply_request(old(self)@, *req),
            r matches Ok(out) ==> out.ids@ == request_ids(old(self)@.next_id as int, *req),
            match request_error(*req) {
                Some(msg) => r matches Err(e) && e@ == msg && final(self)@ == old(self)@,
                None => r matches Ok(out) && final(self)@ == queue_after(old(self)@, *req)
                    && out.ids@ == Seq::new(
                    req.device_paths@.len(),
                    |i: int| (old(self)@.next_id + 1 + i) as u64,
                ) && out.concurrency == requested_concurrency(req.concurrency)
                    && out.spawn_workers == spawn_count(old(self)@, *req),
            },
    {
        match check_request(req) {
            Err(e) => {
                return Err(e);
            },
            Ok(()) => {},
        }
        let asked: u32 = match req.concurrency {
            Some(n) => n,
            None => 3,
        };
        let concurrency: usize = if asked < 1 {
            1
        } else if asked > 8 {
            8
        } else {
            asked as usize
        };
        let ghost q0 = self@;
        let ghost old_queue = self.queue@;
        let mut ids: Vec<u64> = Vec::new();
        let mut i: usize = 0;
        while i < req.device_paths.len()
            invariant
                i <= req.device_paths@.len(),
                q0.next_id + req.device_paths@.len() <= u64::MAX,
                self.next_id == q0.next_id + i,
                self.workers_started == q0.workers_started,
                self.worker_count == q0.worker_count,
                self@.queue =~= q0.queue + request_tasks(*req, q0.next_id + 1).take(i as int),
                ids@ =~= Seq::new(i as nat, |k: int| (q0.next_id + 1 + k) as u64),
            decreases req.device_paths@.len() - i,
        {
            self.next_id = self.next_id + 1;
            let id = self.next_id;
            let task = QueuedTask {
                id,
                mode: req.mode.clone(),
                image_path: clone_opt(&req.image_path),
                device_path: req.device_paths[i].clone(),
                export_range: req.export_range,
            };
            let ghost before = self.queue@;
            let ghost before_view = self@.queue;
            assert(task@ == request_tasks(*req, q0.next_id + 1)[i as int]);
            self.queue.push_back(task);
            ids.push(id);
            proof {
                assert(self.queue@ == before.push(task));
                assert(self@.queue =~= before_view.push(task@));
                assert(self@.queue =~= q0.queue + request_tasks(*req, q0.next_id + 1).take(
                    i + 1,
                ));
            }
            i = i + 1;
        }
        assert(request_tasks(*req, q0.next_id + 1).take(i as int) =~= request_tasks(
            *req,
            q0.next_id + 1,
        ));
        let spawn_workers: usize;
        if !self.workers_started {
            self.workers_started = true;
            self.worker_count = concurrency;
            spawn_workers = concurrency;
        } else if self.worker_count < concurrency {
            spawn_workers = concurrency - self.worker_count;
            self.worker_count = concurrency;
        } else {
            spawn_workers = 0;
        }
        Ok(Enqueued { ids, concurrency, spawn_workers })
    }

    /// The task that has waited longest, taken off the queue.
    pub fn next_task(&mut self) -> (r: Option<QueuedTask>)
        ensures
            old(self)@.queue.len() == 0 ==> r is None && final(self)@ == old(self)@,
            old(self)@.queue.len() > 0 ==> (r matches Some(t) && t@ == old(self)@.queue[0]
                && final(self)@ == queue_after_take(old(self)@)),
    {
        let ghost before = self.queue@;
        let r = self.queue.pop_front();
        proof {
            if before.len() > 0 {
                assert(self@.queue =~= old(self)@.queue.drop_first());
            } else {
                assert(self@.queue =~= old(self)@.queue);
            }
        }
        r
    }
}

/// The queue once its oldest task is handed to a worker.
pub open spec fn queue_after_take(q: TaskQueueView) -> TaskQueueView {
    TaskQueueView { queue: q.queue.drop_first(), ..q }
}

/// Accepting a request keeps the queue well formed: ids stay increasing and
/// within the ids given out.
pub proof fn law_enqueue_keeps_wf(q: TaskQueueView, req: FlashStartRequest)
    requires
        q.wf(),
        request_error(req) is None,
        q.next_id + req.device_paths@.len() <= u64::MAX,
    ensures
        queue_after(q, req).wf(),
{
    let a = queue_after(q, req);
    let n = q.queue.len();
    assert forall|i: int, j: int| 0 <= i < j < a.queue.len() implies a.queue[i].id
        < a.queue[j].id by {
        if j >= n {
            assert(a.queue[j] == request_tasks(req, q.next_id + 1)[j - n]);
            if i >= n {
                assert(a.queue[i] == request_tasks(req, q.next_id + 1)[i - n]);
            } else {
                assert(a.queue[i] == q.queue[i]);
            }
        }
    }
    assert forall|i: int| 0 <= i < a.queue.len() implies 0 < #[trigger] a.queue[i].id
        <= a.next_id by {
        if i >= n {
            assert(a.queue[i] == request_tasks(req, q.next_id + 1)[i - n]);
        } else {
            assert(a.queue[i] == q.queue[i]);
        }
    }
}

/// Handing out the oldest task keeps the queue well formed.
pub proof fn law_take_keeps_wf(q: TaskQueueView)
    requires
        q.wf(),
        q.queue.len() > 0,
    ensures
        queue_after_take(q).wf(),
{
    let a = queue_after_take(q);
    assert forall|i: int, j: int| 0 <= i < j < a.queue.len() implies a.queue[i].id
        < a.queue[j].id by {
        assert(a.queue[i] == q.queue[i + 1]);
        assert(a.queue[j] == q.queue[j + 1]);
    }
    assert forall|i: int| 0 <= i < a.queue.len() implies 0 < #[trigger] a.queue[i].id
        <= a.next_id by {
        assert(a.queue[i] == q.queue[i + 1]);
    }
}

/// The tasks of an accepted request get ids that no waiting task has: each is
/// larger than every waiting task's id and than every id given out before.
pub proof fn law_new_ids_are_fresh(q: TaskQueueView, req: FlashStartRequest)
    requires
        q.wf(),
        request_error(req) is None,
        q.next_id + req.device_paths@.len() <= u64::MAX,
    ensures
        forall|i: int, j: int|
            0 <= i < q.queue.len() && 0 <= j < req.device_paths@.len() ==> #[trigger] q.queue[i].id
                < #[trigger] request_tasks(req, q.next_id + 1)[j].id,
        forall|j: int|
            0 <= j < req.device_paths@.len() ==> q.next_id < #[trigger] request_tasks(
                req,
                q.next_id + 1,
            )[j].id,
{
    assert forall|i: int, j: int|
        0 <= i < q.queue.len() && 0 <= j < req.device_paths@.len() implies #[trigger] q.queue[i].id
        < #[trigger] request_tasks(req, q.next_id + 1)[j].id by {
        assert(0 < q.queue[i].id <= q.next_id);
    }
}

/// Ids increase across requests: every task of a later accepted request has a
/// larger id than every task of an earlier one.
pub proof fn law_ids_increase_across_requests(
    q: TaskQueueView,
    first: FlashStartRequest,
    second: FlashStartRequest,
)
    requires
        request_error(first) is None,
        request_error(second) is None,
        q.next_id + first.device_paths@.len() + second.device_paths@.len() <= u64::MAX,
    ensures
        forall|i: int, j: int|
            0 <= i < first.device_paths@.len() && 0 <= j < second.device_paths@.len()
                ==> #[trigger] request_tasks(first, q.next_id + 1)[i].id < #[trigger] request_tasks(
                second,
                queue_after(q, first).next_id + 1,
            )[j].id,
{
}

/// Tasks are handed out first in, first out: after a request is accepted, the
/// tasks already waiting come first, in their order, then the request's tasks in
/// the order of its devices.
pub proof fn law_fifo(q: TaskQueueView, req: FlashStartRequest)
    requires
        request_error(req) is None,
    ensures
        queue_after(q, req).queue.take(q.queue.len() as int) == q.queue,
        queue_after(q, req).queue.skip(q.queue.len() as int) == request_tasks(
            req,
            q.next_id + 1,
        ),
        forall|k: int|
            0 <= k < req.device_paths@.len() ==> (#[trigger] queue_after(q, req).queue[q.queue.len()
                + k]).device_path == req.device_paths@[k]@,
{
    assert(queue_after(q, req).queue.take(q.queue.len() as int) =~= q.queue);
    assert(queue_after(q, req).queue.skip(q.queue.len() as int) =~= request_tasks(
        req,
        q.next_id + 1,
    ));
}

/// Workers are only ever added: after a request is accepted at least as many run
/// as before and as the request asks for, and the workers to start make up the
/// difference.
pub proof fn law_workers_only_grow(q: TaskQueueView, req: FlashStartRequest)
    requires
        q.wf(),
        request_error(req) is None,
    ensures
        queue_after(q, req).worker_count >= q.worker_count,
        queue_after(q, req).worker_count >= requested_concurrency(req.concurrency),
        1 <= requested_concurrency(req.concurrency) <= 8,
        queue_after(q, req).worker_count == q.worker_count + spawn_count(q, req),
{
}

/// What a worker does with a task, by its mode.
#[derive(Debug, Clone, Copy, PartialEq, Eq, Structural)]
pub enum TaskKind {
    Flash,
    Export,
    Unknown,
}

/// The kind of work a task's mode names.
pub fn task_kind(task: &QueuedTask) -> (r: TaskKind)
    ensures
        r == (if task.mode@ == "flash"@ {
            TaskKind::Flash
        } else if task.mode@ == "export"@ {
            TaskKind::Export
        } else {
            TaskKind::Unknown
        }),
{
    if eq_str(task.mode.as_str(), "flash") {
        TaskKind::Flash
    } else if eq_str(task.mode.as_str(), "export") {
        TaskKind::Export
    } else {
        TaskKind::Unknown
    }
}

/// The error a worker reports for a task of unknown mode.
pub fn unknown_mode_error() -> (r: String)
    ensures
        r@ == "未知模式"@,
{
    String::from_str("未知模式")
}

/// The stage reported to the front end, with the progress that goes with it:
/// complete (100%) or not started, and an error message if any.
#[derive(Debug, Clone)]
pub struct StageEvent {
    pub stage: String,
    pub complete: bool,
    pub message: Option<String>,
}

/// The event announcing a task's start.
pub fn start_event() -> (r: StageEvent)
    ensures
        r.stage@ == "flashing"@,
        !r.complete,
        r.message is None,
{
    StageEvent { stage: String::from_str("flashing"), complete: false, message: None }
}

/// The event announcing how a task ended: `done` at 100%, `cancelled`, or `error`
/// with its message.
pub fn outcome_event(result: &Result<PollOutcome, String>) -> (r: StageEvent)
    ensures
        match result {
            Ok(PollOutcome::Done) => r.stage@ == "done"@ && r.complete && r.message is None,
            Ok(PollOutcome::Cancelled) => r.stage@ == "cancelled"@ && !r.complete && r.message is None,
            Err(e) => r.stage@ == "error"@ && !r.complete && opt_view(r.message) == Some(e@),
        },
{
    match result {
        Ok(PollOutcome::Done) => StageEvent {
            stage: String::from_str("done"),
            complete: true,
            message: None,
        },
        Ok(PollOutcome::Cancelled) => StageEvent {
            stage: String::from_str("cancelled"),
            complete: false,
            message: None,
        },
        Err(e) => StageEvent {
            stage: String::from_str("error"),
            complete: false,
            message: Some(e.clone()),
        },
    }
}

impl Default for TaskQueue {
    fn default() -> (q: TaskQueue)
        ensures
            q@.queue == Seq::<QueuedTaskView>::empty(),
            q@.next_id == 0,
            !q@.workers_started,
            q@.worker_count == 0,
    {
        TaskQueue::new()
    }
}

/// Every task of an accepted request carries the request itself: one task per
/// selected device, in the order of the devices, each with the request's mode,
/// image path and export range and the next id; the tasks already waiting stay
/// as they were. A refused request queues nothing.
pub proof fn law_tasks_carry_the_request(q: TaskQueueView, req: FlashStartRequest)
    requires
        q.next_id + req.device_paths@.len() <= u64::MAX,
    ensures
        request_error(req) is Some ==> apply_request(q, req) == q,
        request_error(req) is None ==> apply_request(q, req).queue.len() == q.queue.len()
            + req.device_paths@.len(),
        request_error(req) is None ==> forall|k: int|
            0 <= k < q.queue.len() ==> #[trigger] apply_request(q, req).queue[k] == q.queue[k],
        request_error(req) is None ==> forall|k: int|
            0 <= k < req.device_paths@.len() ==> (#[trigger] apply_request(q, req).queue[q.queue.len()
                + k]).mode == req.mode@ && apply_request(q, req).queue[q.queue.len() + k].image_path
                == opt_view(req.image_path) && apply_request(q, req).queue[q.queue.len()
                + k].export_range == req.export_range && apply_request(q, req).queue[q.queue.len()
                + k].device_path == req.device_paths@[k]@ && apply_request(q, req).queue[q.queue.len()
                + k].id == q.next_id + 1 + k,
{
}

} // verus!
