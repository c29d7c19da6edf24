use box_tree::worker::{
    AutoWorkerReset, CommonScriptMsg, DedicatedWorkerGlobalScope, DedicatedWorkerScriptMsg,
    DevtoolScriptControlMsg, ImmutableOrigin, MixedMessage, PipelineId, ReportsChan,
    ScriptThreadEventCategory, StructuredSerializedData, TaskHandle, TaskSourceName,
    TrustedWorkerAddress, WorkerAction, WorkerScriptMsg, WorkerStep,
};

fn task_msg() -> CommonScriptMsg {
    CommonScriptMsg::Task(
        ScriptThreadEventCategory::NetworkEvent,
        TaskHandle(11),
        Some(PipelineId(2)),
        TaskSourceName::Networking,
    )
}

fn dom_message() -> WorkerScriptMsg {
    WorkerScriptMsg::DOMMessage { origin: ImmutableOrigin(5), data: StructuredSerializedData(6) }
}

#[test]
fn a_task_message_goes_into_the_queue() {
    let worker = TrustedWorkerAddress(1);
    let msg = DedicatedWorkerScriptMsg::CommonWorker(worker, WorkerScriptMsg::Common(task_msg()));
    assert_eq!(msg.task_source_name(), Some(TaskSourceName::Networking));
    assert_eq!(msg.pipeline_id(), None);
    assert!(!msg.is_wake_up());
    let queued = msg.into_queued_task();
    assert_eq!(
        queued,
        Some((
            Some(worker),
            ScriptThreadEventCategory::NetworkEvent,
            TaskHandle(11),
            Some(PipelineId(2)),
            TaskSourceName::Networking
        ))
    );
    assert_eq!(DedicatedWorkerScriptMsg::from_queued_task(queued.unwrap()), msg);
}

#[test]
fn other_messages_are_no_tasks() {
    let worker = TrustedWorkerAddress(1);
    for msg in [
        DedicatedWorkerScriptMsg::WakeUp,
        DedicatedWorkerScriptMsg::CommonWorker(worker, dom_message()),
        DedicatedWorkerScriptMsg::CommonWorker(
            worker,
            WorkerScriptMsg::Common(CommonScriptMsg::CollectReports(ReportsChan(3))),
        ),
    ] {
        assert_eq!(msg.task_source_name(), None);
        assert_eq!(msg.into_queued_task(), None);
        assert_eq!(msg.pipeline_id(), None);
    }
}

#[test]
fn the_wake_up_message() {
    assert_eq!(DedicatedWorkerScriptMsg::wake_up_msg(), DedicatedWorkerScriptMsg::WakeUp);
    assert!(DedicatedWorkerScriptMsg::wake_up_msg().is_wake_up());
}

#[test]
fn messages_from_the_developer_tools() {
    let handle = |msg| DedicatedWorkerGlobalScope::handle_mixed_message(MixedMessage::FromDevtools(msg));
    assert_eq!(
        handle(DevtoolScriptControlMsg::EvaluateJS(PipelineId(1), "1 + 1".to_string(), 9)),
        WorkerAction::EvaluateJs { script: "1 + 1".to_string(), reply: 9 }
    );
    assert_eq!(
        handle(DevtoolScriptControlMsg::GetCachedMessages(PipelineId(1), 3, 9)),
        WorkerAction::SendCachedMessages { pipeline_id: PipelineId(1), message_types: 3, reply: 9 }
    );
    assert_eq!(
        handle(DevtoolScriptControlMsg::WantsLiveNotifications(PipelineId(1), true)),
        WorkerAction::SetLiveNotifications(true)
    );
    assert_eq!(handle(DevtoolScriptControlMsg::Other), WorkerAction::Nothing);
}

#[test]
fn messages_from_a_worker() {
    let worker = TrustedWorkerAddress(4);
    let handle = |msg| DedicatedWorkerGlobalScope::handle_mixed_message(MixedMessage::FromWorker(msg));
    assert_eq!(handle(DedicatedWorkerScriptMsg::WakeUp), WorkerAction::Nothing);
    assert_eq!(
        handle(DedicatedWorkerScriptMsg::CommonWorker(worker, dom_message())),
        WorkerAction::DispatchMessage {
            worker,
            origin: ImmutableOrigin(5),
            data: StructuredSerializedData(6)
        }
    );
    assert_eq!(
        handle(DedicatedWorkerScriptMsg::CommonWorker(worker, WorkerScriptMsg::Common(task_msg()))),
        WorkerAction::ProcessEvent { worker, msg: task_msg() }
    );
    assert_eq!(
        DedicatedWorkerGlobalScope::handle_script_event(worker, dom_message()),
        WorkerAction::DispatchMessage {
            worker,
            origin: ImmutableOrigin(5),
            data: StructuredSerializedData(6)
        }
    );
}

#[test]
fn a_scope_runs_for_a_worker_during_an_event() {
    let mut scope = DedicatedWorkerGlobalScope::new(PipelineId(8));
    assert_eq!(scope.worker, None);
    assert!(!scope.closing);
    let outer = AutoWorkerReset::new(&mut scope, TrustedWorkerAddress(1));
    assert_eq!(scope.script_chan(), TrustedWorkerAddress(1));
    let inner = AutoWorkerReset::new(&mut scope, TrustedWorkerAddress(2));
    assert_eq!(inner.old_worker, Some(TrustedWorkerAddress(1)));
    assert_eq!(scope.script_chan(), TrustedWorkerAddress(2));
    inner.reset(&mut scope);
    assert_eq!(scope.worker, Some(TrustedWorkerAddress(1)));
    outer.reset(&mut scope);
    assert_eq!(scope.worker, None);
    assert_eq!(scope.pipeline_id, PipelineId(8));
}

#[test]
fn tasks_for_the_parent_are_worker_events() {
    let scope = DedicatedWorkerGlobalScope::new(PipelineId(8));
    let expected = CommonScriptMsg::Task(
        ScriptThreadEventCategory::WorkerEvent,
        TaskHandle(3),
        Some(PipelineId(8)),
        TaskSourceName::DOMManipulation,
    );
    assert_eq!(scope.forward_error_to_worker_object(TaskHandle(3)), expected);
    assert_eq!(scope.post_message_impl(TaskHandle(3)), expected);
}

#[test]
fn the_steps_of_a_worker() {
    assert_eq!(DedicatedWorkerGlobalScope::run_worker_scope(false, false), WorkerStep::ReportLoadError);
    assert_eq!(DedicatedWorkerGlobalScope::run_worker_scope(false, true), WorkerStep::ReportLoadError);
    assert_eq!(DedicatedWorkerGlobalScope::run_worker_scope(true, true), WorkerStep::Stop);
    assert_eq!(DedicatedWorkerGlobalScope::run_worker_scope(true, false), WorkerStep::ExecuteScript);
    assert_eq!(
        DedicatedWorkerGlobalScope::load_error_msg(TaskHandle(1), None),
        CommonScriptMsg::Task(
            ScriptThreadEventCategory::WorkerEvent,
            TaskHandle(1),
            None,
            TaskSourceName::DOMManipulation,
        )
    );
    let mut scope = DedicatedWorkerGlobalScope::new(PipelineId(8));
    assert_eq!(scope.next_turn(), WorkerStep::RunEventLoop);
    assert!(scope.interrupt_callback());
    scope.closing = true;
    assert_eq!(scope.next_turn(), WorkerStep::Stop);
    assert!(!scope.interrupt_callback());
}
