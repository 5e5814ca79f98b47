use vstd::prelude::*;

verus! {

/// Which field of the execution context an action reads as its input:
/// the triggering event's file path, or the previous action's output path.
#[derive(Clone, Copy, Debug, PartialEq, Eq, Structural)]
pub enum WorkflowContextInput {
    EventFilePath,
    ActionFilePath,
}

/// Mathematical model of a [`WorkflowExecutionContext`].
pub struct WorkflowExecutionContextView {
    pub event_file_path: Seq<char>,
    pub action_file_path: Option<Seq<char>>,
    pub error_message: Option<Seq<char>>,
}

/// Per-event mutable state threaded through a workflow's actions: the
/// triggering event's file path, the most recent action's output path, and
/// an error slot.  Created fresh per event and discarded after the pipeline
/// finishes; never shared across events or directories.
pub struct WorkflowExecutionContext {
    pub event_file_path: String,
    pub action_file_path: Option<String>,
    pub error_message: Option<String>,
}

impl View for WorkflowExecutionContext {
    type V = WorkflowExecutionContextView;

    open spec fn view(&self) -> WorkflowExecutionContextView {
        WorkflowExecutionContextView {
            event_file_path: self.event_file_path@,
            action_file_path: match self.action_file_path {
                Some(p) => Some(p@),
                None => None,
            },
            error_message: match self.error_message {
                Some(m) => Some(m@),
                None => None,
            },
        }
    }
}

impl WorkflowExecutionContextView {
    /// The value an action reads when configured with the given input selector.
    pub open spec fn input(self, input: WorkflowContextInput) -> Option<Seq<char>> {
        match input {
            WorkflowContextInput::EventFilePath => Some(self.event_file_path),
            WorkflowContextInput::ActionFilePath => self.action_file_path,
        }
    }
}

impl WorkflowExecutionContext {
    /// A fresh context seeded with the triggering event's file path.
    pub fn new(event_file_path: String) -> (r: Self)
        ensures
            r@ == (WorkflowExecutionContextView {
                event_file_path: event_file_path@,
                action_file_path: None,
                error_message: None,
            }),
    {
        WorkflowExecutionContext {
            event_file_path,
            action_file_path: None,
            error_message: None,
        }
    }

    /// The context field selected by `input`, as an action reads it.
    pub fn get_input(&self, input: WorkflowContextInput) -> (r: Option<String>)
        ensures
            match r {
                Some(p) => self@.input(input) == Some(p@),
                None => self@.input(input) is None,
            },
    {
        match input {
            WorkflowContextInput::EventFilePath => Some(self.event_file_path.clone()),
            WorkflowContextInput::ActionFilePath => match &self.action_file_path {
                Some(p) => Some(p.clone()),
                None => None,
            },
        }
    }

    /// Records a failure message in the error slot and reports failure.
    /// Every failing action funnels through this single call.
    pub fn handle_error(&mut self, message: String) -> (r: bool)
        ensures
            !r,
            final(self)@ == (WorkflowExecutionContextView {
                error_message: Some(message@),
                ..old(self)@
            }),
    {
        self.error_message = Some(message);
        false
    }
}

} // verus!
