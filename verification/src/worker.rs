//! The messages of a dedicated worker's event loop, and what the worker
//! decides on each.  Running the decisions is left to the embedder: tasks,
//! origins and data are known here by their handles only.
use vstd::prelude::*;

verus! {

/// The handle of the worker object in the parent's script thread.
#[derive(Clone, Copy, PartialEq, Eq, Structural, Debug)]
pub struct TrustedWorkerAddress(pub u64);

/// The name of a pipeline.
#[derive(Clone, Copy, PartialEq, Eq, Structural, Debug)]
pub struct PipelineId(pub u32);

/// The handle of a task that is ready to run.
#[derive(Clone, Copy, PartialEq, Eq, Structural, Debug)]
pub struct TaskHandle(pub u64);

/// The handle of a channel that collects memory reports.
#[derive(Clone, Copy, PartialEq, Eq, Structural, Debug)]
pub struct ReportsChan(pub u64);

/// The handle of an origin.
#[derive(Clone, Copy, PartialEq, Eq, Structural, Debug)]
pub struct ImmutableOrigin(pub u64);

/// The handle of structured data that was cloned for a message.
#[derive(Clone, Copy, PartialEq, Eq, Structural, Debug)]
pub struct StructuredSerializedData(pub u64);

/// The task source that queued a task.
#[derive(Clone, Copy, PartialEq, Eq, Structural, Debug)]
pub enum TaskSourceName {
    DOMManipulation,
    FileReading,
    HistoryTraversal,
    Networking,
    PerformanceTimeline,
    PortMessage,
    UserInteraction,
    RemoteEvent,
    MediaElement,
    Websocket,
    Timer,
}

/// The kind of event that a task belongs to.
#[derive(Clone, Copy, PartialEq, Eq, Structural, Debug)]
pub enum ScriptThreadEventCategory {
    NetworkEvent,
    ScriptEvent,
    TimerEvent,
    WorkerEvent,
}

/// A message that every script thread takes.
#[derive(Clone, Copy, PartialEq, Eq, Structural, Debug)]
pub enum CommonScriptMsg {
    /// Asks for the memory reports of the script.
    CollectReports(ReportsChan),
    /// A task: its category, the task, the pipeline it belongs to, and the
    /// task source that queued it.
    Task(ScriptThreadEventCategory, TaskHandle, Option<PipelineId>, TaskSourceName),
}

/// A message to a worker.
#[derive(Clone, Copy, PartialEq, Eq, Structural, Debug)]
pub enum WorkerScriptMsg {
    /// A message that any script thread takes.
    Common(CommonScriptMsg),
    /// A message posted to the worker.
    DOMMessage { origin: ImmutableOrigin, data: StructuredSerializedData },
}

/// A task as the task queue holds it: the worker it is for, then the
/// fields of `CommonScriptMsg::Task`.
pub type QueuedTask = (
    Option<TrustedWorkerAddress>,
    ScriptThreadEventCategory,
    TaskHandle,
    Option<PipelineId>,
    TaskSourceName,
);

/// A message in the queue of a dedicated worker.
#[derive(Clone, Copy, PartialEq, Eq, Structural, Debug)]
pub enum DedicatedWorkerScriptMsg {
    /// A message from a worker.
    CommonWorker(TrustedWorkerAddress, WorkerScriptMsg),
    /// A wake-up call from the task queue.
    WakeUp,
}

impl DedicatedWorkerScriptMsg {
    /// The task that the message carries, if it carries one.
    pub open spec fn queued_task(self) -> Option<QueuedTask> {
        match self {
            DedicatedWorkerScriptMsg::CommonWorker(
                worker,
                WorkerScriptMsg::Common(
                    CommonScriptMsg::Task(category, task, pipeline_id, task_source),
                ),
            ) => Some((Some(worker), category, task, pipeline_id, task_source)),
            _ => None,
        }
    }

    /// The task source of the task that the message carries.
    pub fn task_source_name(&self) -> (r: Option<TaskSourceName>)
        ensures
            r == match self.queued_task() {
                Some(queued) => Some(queued.4),
                None => None,
            },
    {
        let common_worker_msg = match self {
            DedicatedWorkerScriptMsg::CommonWorker(_, common_worker_msg) => common_worker_msg,
            _ => {
                return None;
            },
        };
        let script_msg = match common_worker_msg {
            WorkerScriptMsg::Common(script_msg) => script_msg,
            _ => {
                return None;
            },
        };
        match script_msg {
            CommonScriptMsg::Task(_category, _task, _pipeline_id, source_name) => Some(
                *source_name,
            ),
            _ => None,
        }
    }

    /// Workers have no pipeline: the pipeline of a message serves to check
    /// that a document is active, which no worker event loop checks.
    pub fn pipeline_id(&self) -> (r: Option<PipelineId>)
        ensures
            r is None,
    {
        None
    }

    /// The message as a task for the queue, if it carries one.
    pub fn into_queued_task(self) -> (r: Option<QueuedTask>)
        ensures
            r == self.queued_task(),
    {
        let (worker, common_worker_msg) = match self {
            DedicatedWorkerScriptMsg::CommonWorker(worker, common_worker_msg) => (
                worker,
                common_worker_msg,
            ),
            _ => {
                return None;
            },
        };
        let script_msg = match common_worker_msg {
            WorkerScriptMsg::Common(script_msg) => script_msg,
            _ => {
                return None;
            },
        };
        let (category, task, pipeline_id, task_source) = match script_msg {
            CommonScriptMsg::Task(category, task, pipeline_id, task_source) => (
                category,
                task,
                pipeline_id,
                task_source,
            ),
            _ => {
                return None;
            },
        };
        Some((Some(worker), category, task, pipeline_id, task_source))
    }

    /// The message that carries `queued_task`, a task for a worker.
    pub fn from_queued_task(queued_task: QueuedTask) -> (r: Self)
        requires
            queued_task.0 is Some,
        ensures
            r == DedicatedWorkerScriptMsg::CommonWorker(
                queued_task.0->0,
                WorkerScriptMsg::Common(
                    CommonScriptMsg::Task(
                        queued_task.1,
                        queued_task.2,
                        queued_task.3,
                        queued_task.4,
                    ),
                ),
            ),
    {
        let (worker, category, task, pipeline_id, task_source) = queued_task;
        let script_msg = CommonScriptMsg::Task(category, task, pipeline_id, task_source);
        match worker {
            Some(worker) => DedicatedWorkerScriptMsg::CommonWorker(
                worker,
                WorkerScriptMsg::Common(script_msg),
            ),
            None => vstd::pervasive::unreached(),
        }
    }

    /// The wake-up call.
    pub fn wake_up_msg() -> (r: Self)
        ensures
            r == DedicatedWorkerScriptMsg::WakeUp,
    {
        DedicatedWorkerScriptMsg::WakeUp
    }

    /// Whether the message is the wake-up call.
    pub fn is_wake_up(&self) -> (r: bool)
        ensures
            r == (*self == DedicatedWorkerScriptMsg::WakeUp),
    {
        match self {
            DedicatedWorkerScriptMsg::WakeUp => true,
            _ => false,
        }
    }

    /// A message that goes into the queue as a task comes out of it as the
    /// same message, and a task that is made a message comes back as the
    /// same task.
    pub proof fn lemma_queued_task_round_trip(msg: Self, queued_task: QueuedTask)
        ensures
            msg.queued_task() matches Some(queued) ==> {
                &&& queued.0 is Some
                &&& DedicatedWorkerScriptMsg::CommonWorker(
                    queued.0->0,
                    WorkerScriptMsg::Common(
                        CommonScriptMsg::Task(queued.1, queued.2, queued.3, queued.4),
                    ),
                ) == msg
            },
            queued_task.0 is Some ==> DedicatedWorkerScriptMsg::CommonWorker(
                queued_task.0->0,
                WorkerScriptMsg::Common(
                    CommonScriptMsg::Task(
                        queued_task.1,
                        queued_task.2,
                        queued_task.3,
                        queued_task.4,
                    ),
                ),
            ).queued_task() == Some(queued_task),
    {
    }
}

/// A message from the developer tools.
#[derive(Clone, PartialEq, Eq, Debug)]
pub enum DevtoolScriptControlMsg {
    /// Evaluate the script in the pipeline, and answer on the channel.
    EvaluateJS(PipelineId, String, u64),
    /// Send the cached messages of the kinds asked for.
    GetCachedMessages(PipelineId, u32, u64),
    /// Switch live notifications on or off.
    WantsLiveNotifications(PipelineId, bool),
    /// A message that means nothing to a worker.
    Other,
}

/// A message from either source that a worker listens to.
#[derive(Clone, PartialEq, Eq, Debug)]
pub enum MixedMessage {
    FromWorker(DedicatedWorkerScriptMsg),
    FromDevtools(DevtoolScriptControlMsg),
}

/// What the worker does with a message.
#[derive(Clone, PartialEq, Eq, Debug)]
pub enum WorkerAction {
    EvaluateJs { script: String, reply: u64 },
    SendCachedMessages { pipeline_id: PipelineId, message_types: u32, reply: u64 },
    SetLiveNotifications(bool),
    /// Take a message posted to the worker, on behalf of `worker`: read the
    /// data and dispatch it as a message event, or an error event if it
    /// cannot be read.
    DispatchMessage { worker: TrustedWorkerAddress, origin: ImmutableOrigin, data: StructuredSerializedData },
    /// Process a common script message, on behalf of `worker`.
    ProcessEvent { worker: TrustedWorkerAddress, msg: CommonScriptMsg },
    /// Nothing: a wake-up call, or a message that a worker cannot use.
    Nothing,
}

/// The state of a dedicated worker's global scope that its decisions read.
#[derive(Clone, Copy, PartialEq, Eq, Structural, Debug)]
pub struct DedicatedWorkerGlobalScope {
    /// The worker object on whose behalf an event is running.
    pub worker: Option<TrustedWorkerAddress>,
    pub pipeline_id: PipelineId,
    /// Whether the worker was told to close.
    pub closing: bool,
}

/// Holds the place of the worker that a scope ran for before an event, so
/// that the scope can go back to it when the event is done.
#[derive(Clone, Copy, PartialEq, Eq, Structural, Debug)]
pub struct AutoWorkerReset {
    pub old_worker: Option<TrustedWorkerAddress>,
}

impl AutoWorkerReset {
    /// Makes `workerscope` run for `worker`, and remembers whom it ran for.
    pub fn new(workerscope: &mut DedicatedWorkerGlobalScope, worker: TrustedWorkerAddress) -> (r:
        Self)
        ensures
            r.old_worker == old(workerscope).worker,
            *final(workerscope) == (DedicatedWorkerGlobalScope {
                worker: Some(worker),
                ..*old(workerscope)
            }),
    {
        let old_worker = workerscope.worker;
        workerscope.worker = Some(worker);
        AutoWorkerReset { old_worker }
    }

    /// Puts back the worker that `workerscope` ran for.
    pub fn reset(self, workerscope: &mut DedicatedWorkerGlobalScope)
        ensures
            *final(workerscope) == (DedicatedWorkerGlobalScope {
                worker: self.old_worker,
                ..*old(workerscope)
            }),
    {
        workerscope.worker = self.old_worker;
    }
}

/// What a worker does next while it starts up and runs.
#[derive(Clone, Copy, PartialEq, Eq, Structural, Debug)]
pub enum WorkerStep {
    /// Tell the parent that the script could not be loaded, and stop.
    ReportLoadError,
    /// Run the script that was loaded.
    ExecuteScript,
    /// Run the event loop once more.
    RunEventLoop,
    /// Stop: the worker is closing.
    Stop,
}

impl DedicatedWorkerGlobalScope {
    /// A scope that runs for no worker yet.
    pub fn new(pipeline_id: PipelineId) -> (r: Self)
        ensures
            r == (DedicatedWorkerGlobalScope { worker: None, pipeline_id, closing: false }),
    {
        DedicatedWorkerGlobalScope { worker: None, pipeline_id, closing: false }
    }

    /// What a message asks of the worker.
    pub open spec fn action_for(msg: MixedMessage) -> WorkerAction {
        match msg {
            MixedMessage::FromDevtools(msg) => match msg {
                DevtoolScriptControlMsg::EvaluateJS(_, script, reply) => WorkerAction::EvaluateJs {
                    script,
                    reply,
                },
                DevtoolScriptControlMsg::GetCachedMessages(
                    pipeline_id,
                    message_types,
                    reply,
                ) => WorkerAction::SendCachedMessages { pipeline_id, message_types, reply },
                DevtoolScriptControlMsg::WantsLiveNotifications(_, wanted) =>
                    WorkerAction::SetLiveNotifications(wanted),
                DevtoolScriptControlMsg::Other => WorkerAction::Nothing,
            },
            MixedMessage::FromWorker(DedicatedWorkerScriptMsg::CommonWorker(worker, msg)) =>
                match msg {
                    WorkerScriptMsg::DOMMessage { origin, data } =>
                        WorkerAction::DispatchMessage { worker, origin, data },
                    WorkerScriptMsg::Common(msg) => WorkerAction::ProcessEvent { worker, msg },
                },
            MixedMessage::FromWorker(DedicatedWorkerScriptMsg::WakeUp) => WorkerAction::Nothing,
        }
    }

    /// Decides what to do with a message from the worker's queue or from
    /// the developer tools.
    pub fn handle_mixed_message(msg: MixedMessage) -> (r: WorkerAction)
        ensures
            r == Self::action_for(msg),
    {
        match msg {
            MixedMessage::FromDevtools(msg) => match msg {
                DevtoolScriptControlMsg::EvaluateJS(_pipe_id, script, reply) => {
                    WorkerAction::EvaluateJs { script, reply }
                },
                DevtoolScriptControlMsg::GetCachedMessages(pipeline_id, message_types, reply) => {
                    WorkerAction::SendCachedMessages { pipeline_id, message_types, reply }
                },
                DevtoolScriptControlMsg::WantsLiveNotifications(_pipe_id, wanted) => {
                    WorkerAction::SetLiveNotifications(wanted)
                },
                DevtoolScriptControlMsg::Other => WorkerAction::Nothing,
            },
            MixedMessage::FromWorker(DedicatedWorkerScriptMsg::CommonWorker(linked_worker, msg)) => {
                Self::handle_script_event(linked_worker, msg)
            },
            MixedMessage::FromWorker(DedicatedWorkerScriptMsg::WakeUp) => WorkerAction::Nothing,
        }
    }

    /// Decides what to do with a message from a worker.
    pub fn handle_script_event(worker: TrustedWorkerAddress, msg: WorkerScriptMsg) -> (r:
        WorkerAction)
        ensures
            r == Self::action_for(
                MixedMessage::FromWorker(DedicatedWorkerScriptMsg::CommonWorker(worker, msg)),
            ),
    {
        match msg {
            WorkerScriptMsg::DOMMessage { origin, data } => WorkerAction::DispatchMessage {
                worker,
                origin,
                data,
            },
            WorkerScriptMsg::Common(msg) => WorkerAction::ProcessEvent { worker, msg },
        }
    }

    /// The message that carries `task`, a task of the worker, to the
    /// parent: a worker event of the scope's pipeline, from DOM
    /// manipulation.
    pub fn forward_error_to_worker_object(&self, task: TaskHandle) -> (r: CommonScriptMsg)
        ensures
            r == CommonScriptMsg::Task(
                ScriptThreadEventCategory::WorkerEvent,
                task,
                Some(self.pipeline_id),
                TaskSourceName::DOMManipulation,
            ),
    {
        CommonScriptMsg::Task(
            ScriptThreadEventCategory::WorkerEvent,
            task,
            Some(self.pipeline_id),
            TaskSourceName::DOMManipulation,
        )
    }

    /// The message that posts `task`, the delivery of a message, to the
    /// parent.
    pub fn post_message_impl(&self, task: TaskHandle) -> (r: CommonScriptMsg)
        ensures
            r == CommonScriptMsg::Task(
                ScriptThreadEventCategory::WorkerEvent,
                task,
                Some(self.pipeline_id),
                TaskSourceName::DOMManipulation,
            ),
    {
        self.forward_error_to_worker_object(task)
    }

    /// The worker that the scope runs for, to make a channel to it.
    pub fn script_chan(&self) -> (r: TrustedWorkerAddress)
        requires
            self.worker is Some,
        ensures
            Some(r) == self.worker,
    {
        match self.worker {
            Some(worker) => worker,
            None => vstd::pervasive::unreached(),
        }
    }

    /// What the worker does once the load of its script has ended: where
    /// the load failed, it reports that and stops; where the worker is
    /// closing, it stops; else it runs the script.
    pub fn run_worker_scope(loaded: bool, closing: bool) -> (r: WorkerStep)
        ensures
            r == if !loaded {
                WorkerStep::ReportLoadError
            } else if closing {
                WorkerStep::Stop
            } else {
                WorkerStep::ExecuteScript
            },
    {
        if !loaded {
            return WorkerStep::ReportLoadError;
        }
        if closing {
            return WorkerStep::Stop;
        }
        WorkerStep::ExecuteScript
    }

    /// The message that tells the parent that the script of a worker of
    /// pipeline `pipeline_id` could not be loaded: `task`, which reports
    /// it to the worker object, as a worker event from DOM manipulation.
    pub fn load_error_msg(task: TaskHandle, pipeline_id: Option<PipelineId>) -> (r: CommonScriptMsg)
        ensures
            r == CommonScriptMsg::Task(
                ScriptThreadEventCategory::WorkerEvent,
                task,
                pipeline_id,
                TaskSourceName::DOMManipulation,
            ),
    {
        CommonScriptMsg::Task(
            ScriptThreadEventCategory::WorkerEvent,
            task,
            pipeline_id,
            TaskSourceName::DOMManipulation,
        )
    }

    /// What the worker does after the script or a turn of the event loop:
    /// the loop runs until the worker is closing.
    pub fn next_turn(&self) -> (r: WorkerStep)
        ensures
            r == if self.closing {
                WorkerStep::Stop
            } else {
                WorkerStep::RunEventLoop
            },
    {
        if self.closing {
            WorkerStep::Stop
        } else {
            WorkerStep::RunEventLoop
        }
    }

    /// Whether a running script goes on when it is interrupted: it does
    /// unless the worker is closing.
    pub fn interrupt_callback(&self) -> (r: bool)
        ensures
            r == !self.closing,
    {
        !self.closing
    }
}

} // verus!
