use folden::context::{WorkflowContextInput, WorkflowExecutionContext};
use folden::mapping::Mapping;
use folden::supervisor::HandlerTypesRegistry;
use folden::worker::{
    HandlerChannelMessage, HandlerWorker, WorkerDirective, WorkerInput, WorkerState,
};
use folden::workflow::{
    apply_outcome, file_name_of, trace_record, ActionOutcome, MoveToDir, RunCmd, WorkflowActions,
    WorkflowConfig, WorkflowEvent, WorkflowPipeline,
};

fn s(v: &str) -> String {
    v.to_string()
}

fn move_action() -> MoveToDir {
    MoveToDir {
        input: WorkflowContextInput::EventFilePath,
        directory_path: s("/tmp/out"),
        requires_directory_exists: false,
        replace_older_files: true,
        keep_input_file_intact: false,
    }
}

fn simple_config(event: WorkflowEvent, panic_on_error: bool) -> WorkflowConfig {
    WorkflowConfig {
        watch_recursive: false,
        apply_on_startup_on_existing_files: false,
        panic_handler_on_error: panic_on_error,
        event,
        actions: vec![WorkflowActions::MoveToDir(move_action())],
    }
}

#[test]
fn context_input_selection() {
    let mut ctx = WorkflowExecutionContext::new(s("/in/a.txt"));
    assert_eq!(
        ctx.get_input(WorkflowContextInput::EventFilePath).unwrap(),
        "/in/a.txt"
    );
    assert!(ctx.get_input(WorkflowContextInput::ActionFilePath).is_none());
    ctx.action_file_path = Some(s("/out/a.txt"));
    assert_eq!(
        ctx.get_input(WorkflowContextInput::ActionFilePath).unwrap(),
        "/out/a.txt"
    );
    let ok = ctx.handle_error(s("boom"));
    assert!(!ok);
    assert_eq!(ctx.error_message.as_deref(), Some("boom"));
}

#[test]
fn first_failure_aborts_pipeline() {
    let actions = vec![
        WorkflowActions::MoveToDir(move_action()),
        WorkflowActions::RunCmd(RunCmd { command: s("false") }),
        WorkflowActions::MoveToDir(move_action()),
    ];
    let mut pipeline = WorkflowPipeline::new(actions);
    let mut ctx = WorkflowExecutionContext::new(s("/in/a.txt"));

    assert!(pipeline.current_action().is_some());
    let went_on = pipeline.record_outcome(&mut ctx, ActionOutcome::Success(s("/out/a.txt")));
    assert!(went_on);
    assert_eq!(ctx.action_file_path.as_deref(), Some("/out/a.txt"));

    let went_on = pipeline.record_outcome(&mut ctx, ActionOutcome::Failure(s("command failed")));
    assert!(!went_on);
    // The context reflects the first action's output and the second's error.
    assert_eq!(ctx.action_file_path.as_deref(), Some("/out/a.txt"));
    assert_eq!(ctx.error_message.as_deref(), Some("command failed"));
    // The third action is never handed out.
    assert!(pipeline.current_action().is_none());
}

#[test]
fn apply_outcome_writes_context() {
    let mut ctx = WorkflowExecutionContext::new(s("/in/a.txt"));
    assert!(apply_outcome(&mut ctx, ActionOutcome::Success(s("/o"))));
    assert_eq!(ctx.action_file_path.as_deref(), Some("/o"));
    assert!(ctx.error_message.is_none());
    assert!(!apply_outcome(&mut ctx, ActionOutcome::Failure(s("e"))));
    assert_eq!(ctx.error_message.as_deref(), Some("e"));
}

#[test]
fn move_to_dir_replacement_policy() {
    let mut action = move_action();
    action.replace_older_files = false;
    // Occupied destination without replacing: refused, source untouched.
    let err = action.check_replacement(true).unwrap_err();
    assert_eq!(err, "Can't replace older file");
    // With replacing on, the occupied destination is overwritten...
    action.replace_older_files = true;
    assert!(action.check_replacement(true).is_ok());
    // ...and absent keep_input_file_intact the plan removes the source.
    let ctx = WorkflowExecutionContext::new(s("/in/a.txt"));
    let plan = action.plan(&ctx, true).unwrap();
    assert!(plan.remove_source);
    action.keep_input_file_intact = true;
    let plan = action.plan(&ctx, true).unwrap();
    assert!(!plan.remove_source);
}

#[test]
fn move_to_dir_plans_destination() {
    let action = move_action();
    let ctx = WorkflowExecutionContext::new(s("/watched/sub/a.txt"));
    let plan = action.plan(&ctx, false).unwrap();
    assert!(plan.create_directory);
    assert_eq!(plan.destination_path, "/tmp/out/a.txt");
    let plan = action.plan(&ctx, true).unwrap();
    assert!(!plan.create_directory);
}

#[test]
fn move_to_dir_plan_failures() {
    let mut action = move_action();
    action.input = WorkflowContextInput::ActionFilePath;
    let ctx = WorkflowExecutionContext::new(s("/in/a.txt"));
    assert_eq!(
        action.plan(&ctx, true).unwrap_err(),
        "Input doesn't contain value"
    );

    let action = move_action();
    let ctx = WorkflowExecutionContext::new(s("/in/dir/"));
    assert_eq!(
        action.plan(&ctx, true).unwrap_err(),
        "Path can't be parsed as file"
    );
    let ctx = WorkflowExecutionContext::new(s("/in/.."));
    assert_eq!(
        action.plan(&ctx, true).unwrap_err(),
        "Path can't be parsed as file"
    );

    let mut action = move_action();
    action.requires_directory_exists = true;
    let ctx = WorkflowExecutionContext::new(s("/in/a.txt"));
    assert_eq!(
        action.plan(&ctx, false).unwrap_err(),
        "Directory required to exist"
    );
}

#[test]
fn move_to_dir_conclude_cases() {
    let action = move_action();
    // Failed copy: only the error slot is written.
    let mut ctx = WorkflowExecutionContext::new(s("/in/a.txt"));
    let ok = action.conclude(&mut ctx, s("/tmp/out/a.txt"), Err(s("copy failed")), None);
    assert!(!ok);
    assert!(ctx.action_file_path.is_none());
    assert_eq!(ctx.error_message.as_deref(), Some("copy failed"));

    // Copy succeeded, source kept: success.
    let mut ctx = WorkflowExecutionContext::new(s("/in/a.txt"));
    let ok = action.conclude(&mut ctx, s("/tmp/out/a.txt"), Ok(()), None);
    assert!(ok);
    assert_eq!(ctx.action_file_path.as_deref(), Some("/tmp/out/a.txt"));

    // Copy and removal succeeded: success.
    let mut ctx = WorkflowExecutionContext::new(s("/in/a.txt"));
    let ok = action.conclude(&mut ctx, s("/tmp/out/a.txt"), Ok(()), Some(Ok(())));
    assert!(ok);
    assert_eq!(ctx.action_file_path.as_deref(), Some("/tmp/out/a.txt"));

    // Removal failed: a pipeline failure, but the context still points at
    // the copied file.
    let mut ctx = WorkflowExecutionContext::new(s("/in/a.txt"));
    let ok = action.conclude(
        &mut ctx,
        s("/tmp/out/a.txt"),
        Ok(()),
        Some(Err(s("remove failed"))),
    );
    assert!(!ok);
    assert_eq!(ctx.action_file_path.as_deref(), Some("/tmp/out/a.txt"));
    assert_eq!(ctx.error_message.as_deref(), Some("remove failed"));
}

#[test]
fn file_name_extraction() {
    assert_eq!(file_name_of(&s("/a/b/c.txt")).unwrap(), "c.txt");
    assert_eq!(file_name_of(&s("plain")).unwrap(), "plain");
    assert_eq!(file_name_of(&s("/a/.hidden")).unwrap(), ".hidden");
    assert!(file_name_of(&s("/a/b/")).is_none());
    assert!(file_name_of(&s("")).is_none());
    // Relative components are no file names.
    assert!(file_name_of(&s("/a/..")).is_none());
    assert!(file_name_of(&s(".")).is_none());
}

#[test]
fn run_cmd_substitutes_input_path() {
    let cmd = RunCmd {
        command: s("cp $input.file_path /backup/$input.file_path.bak"),
    };
    let ctx = WorkflowExecutionContext::new(s("/in/a.txt"));
    assert_eq!(
        cmd.command_line(&ctx),
        "cp /in/a.txt /backup//in/a.txt.bak"
    );

    let plain = RunCmd { command: s("echo done") };
    assert_eq!(plain.command_line(&ctx), "echo done");

    let default_cmd = RunCmd::default();
    assert_eq!(default_cmd.command, "echo $input.file_path");
    assert_eq!(default_cmd.command_line(&ctx), "echo /in/a.txt");
}

#[test]
fn run_cmd_exit_interpretation() {
    let mut ctx = WorkflowExecutionContext::new(s("/in/a.txt"));
    assert!(RunCmd::interpret_exit(&mut ctx, Some(0)));
    assert!(ctx.error_message.is_none());
    assert!(!RunCmd::interpret_exit(&mut ctx, Some(3)));
    assert_eq!(
        ctx.error_message.as_deref(),
        Some("Command exited with non-zero status")
    );
    let mut ctx = WorkflowExecutionContext::new(s("/in/a.txt"));
    assert!(!RunCmd::interpret_exit(&mut ctx, None));
    assert_eq!(ctx.error_message.as_deref(), Some("Failed to spawn command"));
}

#[test]
fn move_to_dir_defaults() {
    let action = MoveToDir::default();
    assert_eq!(action.input, WorkflowContextInput::EventFilePath);
    assert_eq!(action.directory_path, "output_dir_path");
    assert!(!action.requires_directory_exists);
    assert!(action.replace_older_files);
    assert!(!action.keep_input_file_intact);
}

#[test]
fn workflow_config_builders() {
    assert_eq!(
        WorkflowConfig::event_from_name(&s("create")),
        Some(WorkflowEvent::Create)
    );
    assert_eq!(
        WorkflowConfig::event_from_name(&s("rename")),
        Some(WorkflowEvent::Rename)
    );
    assert_eq!(WorkflowConfig::event_from_name(&s("explode")), None);
    assert!(matches!(
        WorkflowConfig::action_from_name(&s("move-to-dir")),
        Some(WorkflowActions::MoveToDir(_))
    ));
    assert!(matches!(
        WorkflowConfig::action_from_name(&s("run-cmd")),
        Some(WorkflowActions::RunCmd(_))
    ));
    assert!(WorkflowConfig::action_from_name(&s("nope")).is_none());

    let config = WorkflowConfig::default_new(
        WorkflowEvent::Modify,
        &vec![s("move-to-dir"), s("nope"), s("run-cmd")],
    );
    assert_eq!(config.event, WorkflowEvent::Modify);
    assert_eq!(config.actions.len(), 2);
    assert!(!config.panic_handler_on_error);
}

#[test]
fn worker_stop_and_trace_subscription() {
    let mut worker = HandlerWorker::new(s("/w"), simple_config(WorkflowEvent::Create, false));
    assert_eq!(worker.state, WorkerState::Initializing);
    let startup = worker.begin_watching(vec![s("/w/old.txt")]);
    assert!(startup.is_empty(), "no startup replay unless configured");

    let d = worker.handle_input(WorkerInput::Control(HandlerChannelMessage::TraceSubscribe(7)));
    assert!(matches!(d, WorkerDirective::KeepWatching));
    assert_eq!(worker.trace_subscribers, vec![7]);

    // A non-matching event is discarded without running the pipeline.
    let d = worker.handle_input(WorkerInput::FileSystem(WorkflowEvent::Modify, s("/w/x")));
    assert!(matches!(d, WorkerDirective::KeepWatching));
    assert_eq!(worker.state, WorkerState::Watching);

    let d = worker.handle_input(WorkerInput::Control(HandlerChannelMessage::Stop));
    assert!(matches!(d, WorkerDirective::ReleaseAndExit));
    assert_eq!(worker.state, WorkerState::Draining);
    worker.finish_draining();
    assert_eq!(worker.state, WorkerState::Terminated);
}

#[test]
fn worker_startup_replay_and_pruning() {
    let mut config = simple_config(WorkflowEvent::Create, false);
    config.apply_on_startup_on_existing_files = true;
    let mut worker = HandlerWorker::new(s("/w"), config);
    let startup = worker.begin_watching(vec![s("/w/a"), s("/w/b")]);
    assert_eq!(startup, vec![s("/w/a"), s("/w/b")]);

    worker.handle_input(WorkerInput::Control(HandlerChannelMessage::TraceSubscribe(1)));
    worker.handle_input(WorkerInput::Control(HandlerChannelMessage::TraceSubscribe(2)));
    worker.prune_subscriber(1);
    assert_eq!(worker.trace_subscribers, vec![2]);
}

#[test]
fn worker_panic_handler_terminates_on_failure() {
    let mut worker = HandlerWorker::new(s("/w"), simple_config(WorkflowEvent::Create, true));
    worker.begin_watching(vec![]);
    let d = worker.handle_input(WorkerInput::FileSystem(WorkflowEvent::Create, s("/w/a")));
    assert!(matches!(d, WorkerDirective::RunPipeline(_)));
    let d = worker.complete_processing(false);
    assert!(matches!(d, WorkerDirective::ReleaseAndExit));
    assert_eq!(worker.state, WorkerState::Terminated);

    // Without the panic handler the worker tolerates the failure.
    let mut worker = HandlerWorker::new(s("/w"), simple_config(WorkflowEvent::Create, false));
    worker.begin_watching(vec![]);
    worker.handle_input(WorkerInput::FileSystem(WorkflowEvent::Create, s("/w/a")));
    let d = worker.complete_processing(false);
    assert!(matches!(d, WorkerDirective::KeepWatching));
    assert_eq!(worker.state, WorkerState::Watching);
}

#[test]
fn watch_scenario_moves_dropped_file() {
    // Register /tmp/watch with the move-to-dir type and start it.
    let mut mapping = Mapping::new();
    let reg = HandlerTypesRegistry::new(vec![s("move-to-dir")]);
    mapping
        .register_to_directory(&s("/tmp/watch"), &s("move-to-dir"), &s("/tmp/w.toml"), false)
        .unwrap();
    let started = mapping.start_handler(&s("/tmp/watch"), &reg).unwrap();
    assert_eq!(started.handler_type_name, "move-to-dir");

    // The worker sees a.txt dropped into the directory.
    let mut worker = HandlerWorker::new(s("/tmp/watch"), simple_config(WorkflowEvent::Create, false));
    worker.begin_watching(vec![]);
    let directive =
        worker.handle_input(WorkerInput::FileSystem(WorkflowEvent::Create, s("/tmp/watch/a.txt")));
    let event_path = match directive {
        WorkerDirective::RunPipeline(p) => p,
        _ => panic!("a matching event must run the pipeline"),
    };

    // The pipeline's MoveToDir relocates the file to the target directory.
    let action = move_action();
    let mut ctx = WorkflowExecutionContext::new(event_path);
    let plan = action.plan(&ctx, true).unwrap();
    assert_eq!(plan.destination_path, "/tmp/out/a.txt");
    assert!(action.check_replacement(false).is_ok());
    let ok = action.conclude(&mut ctx, plan.destination_path.clone(), Ok(()), Some(Ok(())));
    assert!(ok);
    assert_eq!(ctx.action_file_path.as_deref(), Some("/tmp/out/a.txt"));

    // The trace subscriber receives {action_name: "MoveToDir", success: true}.
    let outcome = ActionOutcome::Success(plan.destination_path.clone());
    let record = trace_record(&WorkflowActions::MoveToDir(action), &outcome);
    assert_eq!(record.action_name, "MoveToDir");
    assert!(record.success);
    assert!(record.error_message.is_none());

    let d = worker.complete_processing(true);
    assert!(matches!(d, WorkerDirective::KeepWatching));

    // A failing outcome is traced with its message.
    let record = trace_record(
        &WorkflowActions::RunCmd(RunCmd::default()),
        &ActionOutcome::Failure(s("boom")),
    );
    assert_eq!(record.action_name, "RunCmd");
    assert!(!record.success);
    assert_eq!(record.error_message.as_deref(), Some("boom"));
}
