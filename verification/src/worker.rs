use vstd::prelude::*;

use crate::workflow::{WorkflowConfig, WorkflowEvent};

verus! {

/// Control-plane message sent into a worker's inbox: a stop signal, or a
/// trace-subscribe request naming the sink the caller will stream outcome
/// records to.  The inbox is bounded and drained between event-processing
/// iterations, so a send blocks at most briefly.
pub enum HandlerChannelMessage {
    Stop,
    TraceSubscribe(u64),
}

/// One worker's lifecycle, from spawn to exit.
#[derive(Clone, Copy, Debug, PartialEq, Eq, Structural)]
pub enum WorkerState {
    Initializing,
    Watching,
    Processing,
    Draining,
    Terminated,
}

/// What the worker hands an input: a filesystem event on the watched
/// directory, or a control message from its inbox.
pub enum WorkerInput {
    FileSystem(WorkflowEvent, String),
    Control(HandlerChannelMessage),
}

/// What the caller running the worker's loop must do next.
pub enum WorkerDirective {
    /// Wait for the next event or control message.
    KeepWatching,
    /// Run the workflow pipeline on this event path, then report the
    /// outcome back through `complete_processing`.
    RunPipeline(String),
    /// Release the filesystem-watch resource and end the worker.
    ReleaseAndExit,
}

/// One directory's worker: the control loop deciding how filesystem events
/// and control messages drive the workflow.  The loop itself, the watch
/// resource and the inbox live with the caller; this type is the state
/// machine they consult.  Control handling is interleaved, never
/// preemptive: a stop is honored at the next loop iteration boundary, and a
/// trace subscription covers future outcomes only.
pub struct HandlerWorker {
    pub directory_path: String,
    pub config: WorkflowConfig,
    pub state: WorkerState,
    pub trace_subscribers: Vec<u64>,
}

impl HandlerWorker {
    /// A freshly spawned worker, about to open its watch resource.
    pub fn new(directory_path: String, config: WorkflowConfig) -> (r: Self)
        ensures
            r.directory_path@ == directory_path@,
            r.config == config,
            r.state == WorkerState::Initializing,
            r.trace_subscribers@.len() == 0,
    {
        HandlerWorker {
            directory_path,
            config,
            state: WorkerState::Initializing,
            trace_subscribers: Vec::new(),
        }
    }

    /// Enters the steady loop once the watch resource is open.  When the
    /// workflow replays existing files, the files the caller enumerated come
    /// back as synthesized startup events, one per file; otherwise none do.
    pub fn begin_watching(&mut self, existing_files: Vec<String>) -> (r: Vec<String>)
        requires
            old(self).state == WorkerState::Initializing,
        ensures
            final(self).state == WorkerState::Watching,
            final(self).directory_path == old(self).directory_path,
            final(self).config == old(self).config,
            final(self).trace_subscribers == old(self).trace_subscribers,
            old(self).config.apply_on_startup_on_existing_files ==> r == existing_files,
            !old(self).config.apply_on_startup_on_existing_files ==> r@.len() == 0,
    {
        self.state = WorkerState::Watching;
        if self.config.apply_on_startup_on_existing_files {
            existing_files
        } else {
            Vec::new()
        }
    }

    /// One iteration of the watching loop: a stop drains the worker, a
    /// trace-subscribe registers the sink for future outcomes, a filesystem
    /// event matching the configured kind goes to the pipeline, and any
    /// other event is discarded without running it.
    pub fn handle_input(&mut self, input: WorkerInput) -> (r: WorkerDirective)
        requires
            old(self).state == WorkerState::Watching,
        ensures
            final(self).directory_path == old(self).directory_path,
            final(self).config == old(self).config,
            match input {
                WorkerInput::Control(HandlerChannelMessage::Stop) => {
                    &&& final(self).state == WorkerState::Draining
                    &&& r is ReleaseAndExit
                    &&& final(self).trace_subscribers == old(self).trace_subscribers
                },
                WorkerInput::Control(HandlerChannelMessage::TraceSubscribe(sink)) => {
                    &&& final(self).state == WorkerState::Watching
                    &&& r is KeepWatching
                    &&& final(self).trace_subscribers@ == old(self).trace_subscribers@.push(sink)
                },
                WorkerInput::FileSystem(kind, path) => {
                    &&& final(self).trace_subscribers == old(self).trace_subscribers
                    &&& if kind == old(self).config.event {
                        final(self).state == WorkerState::Processing && (r matches
                        WorkerDirective::RunPipeline(p) && p@ == path@)
                    } else {
                        final(self).state == WorkerState::Watching && r is KeepWatching
                    }
                },
            },
    {
        match input {
            WorkerInput::Control(HandlerChannelMessage::Stop) => {
                self.state = WorkerState::Draining;
                WorkerDirective::ReleaseAndExit
            },
            WorkerInput::Control(HandlerChannelMessage::TraceSubscribe(sink)) => {
                self.trace_subscribers.push(sink);
                WorkerDirective::KeepWatching
            },
            WorkerInput::FileSystem(kind, path) => {
                if kind == self.config.event {
                    self.state = WorkerState::Processing;
                    WorkerDirective::RunPipeline(path)
                } else {
                    WorkerDirective::KeepWatching
                }
            },
        }
    }

    /// Returns from the pipeline: a failure under `panic_handler_on_error`
    /// is fatal for the worker, which terminates instead of watching on;
    /// otherwise the failure was reported and watching resumes.
    pub fn complete_processing(&mut self, pipeline_succeeded: bool) -> (r: WorkerDirective)
        requires
            old(self).state == WorkerState::Processing,
        ensures
            final(self).directory_path == old(self).directory_path,
            final(self).config == old(self).config,
            final(self).trace_subscribers == old(self).trace_subscribers,
            if !pipeline_succeeded && old(self).config.panic_handler_on_error {
                final(self).state == WorkerState::Terminated && r is ReleaseAndExit
            } else {
                final(self).state == WorkerState::Watching && r is KeepWatching
            },
    {
        if !pipeline_succeeded && self.config.panic_handler_on_error {
            self.state = WorkerState::Terminated;
            WorkerDirective::ReleaseAndExit
        } else {
            self.state = WorkerState::Watching;
            WorkerDirective::KeepWatching
        }
    }

    /// The drained worker's last step: the watch resource is released and
    /// the worker ends; queued events are never processed.
    pub fn finish_draining(&mut self)
        requires
            old(self).state == WorkerState::Draining,
        ensures
            final(self).state == WorkerState::Terminated,
            final(self).directory_path == old(self).directory_path,
            final(self).config == old(self).config,
            final(self).trace_subscribers == old(self).trace_subscribers,
    {
        self.state = WorkerState::Terminated;
    }

    /// Drops a cancelled subscription: exactly the entries for the closed
    /// sink are pruned and every other subscription survives, so a
    /// disconnected subscriber never blocks or leaks in the worker.
    pub fn prune_subscriber(&mut self, sink: u64)
        ensures
            final(self).state == old(self).state,
            final(self).directory_path == old(self).directory_path,
            final(self).config == old(self).config,
            final(self).trace_subscribers@ == spec_without_sink(
                old(self).trace_subscribers@,
                sink,
            ),
    {
        let n = self.trace_subscribers.len();
        let mut kept: Vec<u64> = Vec::new();
        let mut i: usize = 0;
        proof {
            reveal(Seq::filter);
            assert(self.trace_subscribers@.take(0) =~= Seq::<u64>::empty());
        }
        while i < n
            invariant
                n == self.trace_subscribers@.len(),
                i <= n,
                kept@ == spec_without_sink(self.trace_subscribers@.take(i as int), sink),
            decreases n - i,
        {
            let s = self.trace_subscribers[i];
            if s != sink {
                kept.push(s);
            }
            proof {
                reveal(Seq::filter);
                assert(self.trace_subscribers@.take(i as int + 1).drop_last()
                    =~= self.trace_subscribers@.take(i as int));
                assert(self.trace_subscribers@.take(i as int + 1).last()
                    == self.trace_subscribers@[i as int]);
            }
            i += 1;
        }
        proof {
            assert(self.trace_subscribers@.take(n as int) =~= self.trace_subscribers@);
        }
        self.trace_subscribers = kept;
    }
}

/// The subscriber list with every entry for the given sink removed and all
/// others kept in order.
pub open spec fn spec_without_sink(subscribers: Seq<u64>, sink: u64) -> Seq<u64> {
    subscribers.filter(|s: u64| s != sink)
}

} // verus!
