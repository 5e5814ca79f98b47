use vstd::prelude::*;

use vstd::string::{StrSliceExecFns, StringExecFns};

use crate::context::{WorkflowContextInput, WorkflowExecutionContext, WorkflowExecutionContextView};

verus! {

/// The filesystem event kind a workflow reacts to.  Only events matching a
/// workflow's configured kind reach its pipeline.
#[derive(Clone, Copy, Debug, PartialEq, Eq, Structural)]
pub enum WorkflowEvent {
    Create,
    Modify,
    Rename,
}

// ---------------------------------------------------------------------------
// Path helpers shared by the actions.
// ---------------------------------------------------------------------------
/// The characters after the last `/` of `p` (all of `p` when it has none).
pub open spec fn spec_suffix_after_separator(p: Seq<char>) -> Seq<char>
    decreases p.len(),
{
    if p.len() == 0 {
        Seq::empty()
    } else if p.last() == '/' {
        Seq::empty()
    } else {
        spec_suffix_after_separator(p.drop_last()).push(p.last())
    }
}

proof fn lemma_suffix_is_subrange(p: Seq<char>, k: int)
    requires
        0 <= k <= p.len(),
        forall|j: int| k <= j < p.len() ==> p[j] != '/',
        k > 0 ==> p[k - 1] == '/',
    ensures
        spec_suffix_after_separator(p) == p.subrange(k, p.len() as int),
    decreases p.len(),
{
    if k == p.len() {
        assert(p.subrange(k, p.len() as int) =~= Seq::<char>::empty());
    } else {
        assert(p.last() != '/');
        lemma_suffix_is_subrange(p.drop_last(), k);
        assert(p.drop_last().subrange(k, p.len() - 1).push(p.last()) =~= p.subrange(
            k,
            p.len() as int,
        ));
    }
}

/// The file name a path carries: its part after the last separator, unless
/// that part is empty or one of the relative components `.` and `..`.
pub open spec fn spec_file_name(p: Seq<char>) -> Option<Seq<char>> {
    let suffix = spec_suffix_after_separator(p);
    if suffix.len() == 0 || suffix == "."@ || suffix == ".."@ {
        None
    } else {
        Some(suffix)
    }
}

/// The file name a path carries, when it has one.
pub fn file_name_of(path: &String) -> (r: Option<String>)
    ensures
        match r {
            Some(s) => spec_file_name(path@) == Some(s@),
            None => spec_file_name(path@) is None,
        },
{
    let n = path.as_str().unicode_len();
    let mut k = n;
    while k > 0 && path.as_str().get_char(k - 1) != '/'
        invariant
            k <= n,
            n == path@.len(),
            forall|j: int| k <= j < n ==> path@[j] != '/',
        decreases k,
    {
        k = k - 1;
    }
    proof {
        lemma_suffix_is_subrange(path@, k as int);
    }
    if k == n {
        return None;
    }
    let suffix = path.as_str().substring_char(k, n).to_owned();
    if suffix == String::from_str(".") || suffix == String::from_str("..") {
        None
    } else {
        Some(suffix)
    }
}

/// `dir`, a separator, then `name`.
pub open spec fn spec_join(dir: Seq<char>, name: Seq<char>) -> Seq<char> {
    dir + seq!['/'] + name
}

/// Joins a directory path and a file name with a separator.
pub fn join_path(dir: &String, name: &String) -> (r: String)
    ensures
        r@ == spec_join(dir@, name@),
{
    proof {
        reveal_strlit("/");
    }
    let mut out = dir.clone();
    out.append("/");
    out.append(name.as_str());
    proof {
        assert(out@ =~= spec_join(dir@, name@));
    }
    out
}

// ---------------------------------------------------------------------------
// MoveToDir
// ---------------------------------------------------------------------------
/// Moves the file an event concerns into a configured directory: the input
/// file is copied there and, unless `keep_input_file_intact`, removed after
/// a successful copy.  The filesystem itself is the caller's: this type
/// decides what to do from the observations the caller reports and records
/// the results in the execution context.
pub struct MoveToDir {
    pub input: WorkflowContextInput,
    pub directory_path: String,
    pub requires_directory_exists: bool,
    pub replace_older_files: bool,
    pub keep_input_file_intact: bool,
}

impl Default for MoveToDir {
    fn default() -> (r: Self)
        ensures
            r.input == WorkflowContextInput::EventFilePath,
            r.directory_path@ == "output_dir_path"@,
            !r.requires_directory_exists,
            r.replace_older_files,
            !r.keep_input_file_intact,
    {
        MoveToDir {
            input: WorkflowContextInput::EventFilePath,
            directory_path: String::from_str("output_dir_path"),
            requires_directory_exists: false,
            replace_older_files: true,
            keep_input_file_intact: false,
        }
    }
}

/// What the caller must do to carry out a planned move: create the target
/// directory first when asked to, copy the input file to the destination,
/// then remove the source exactly when `remove_source`.
#[derive(Debug)]
pub struct MovePlan {
    pub create_directory: bool,
    pub destination_path: String,
    pub remove_source: bool,
}

/// Whether a move may proceed onto an occupied destination.
pub open spec fn spec_replacement_allowed(
    replace_older_files: bool,
    destination_file_exists: bool,
) -> bool {
    replace_older_files || !destination_file_exists
}

/// How `conclude` folds the copy and removal results into the context: on a
/// failed copy only the error slot is written; after a successful copy the
/// context points at the copied file regardless, and a removal failure is
/// itself a pipeline failure.
pub open spec fn spec_conclude(
    ctx: WorkflowExecutionContextView,
    destination: Seq<char>,
    copy_result: Result<(), Seq<char>>,
    removal_result: Option<Result<(), Seq<char>>>,
) -> (WorkflowExecutionContextView, bool) {
    match copy_result {
        Err(m) => (
            WorkflowExecutionContextView { error_message: Some(m), ..ctx },
            false,
        ),
        Ok(_) => {
            let pointed = WorkflowExecutionContextView {
                action_file_path: Some(destination),
                ..ctx
            };
            match removal_result {
                Some(Err(m)) => (
                    WorkflowExecutionContextView { error_message: Some(m), ..pointed },
                    false,
                ),
                _ => (pointed, true),
            }
        },
    }
}

impl MoveToDir {
    /// Plans the move for one event, given whether the target directory
    /// exists.  Refused when the configured input is absent, when the input
    /// path carries no file name, or when the directory is required to exist
    /// and does not; otherwise the plan names the destination and whether to
    /// create the directory and remove the source.
    pub fn plan(&self, context: &WorkflowExecutionContext, destination_directory_exists: bool) -> (r:
        Result<MovePlan, String>)
        ensures
            match context@.input(self.input) {
                None => r matches Err(m) && m@ == "Input doesn't contain value"@,
                Some(input_path) => match spec_file_name(input_path) {
                    None => r matches Err(m) && m@ == "Path can't be parsed as file"@,
                    Some(name) => {
                        if !destination_directory_exists && self.requires_directory_exists {
                            r matches Err(m) && m@ == "Directory required to exist"@
                        } else {
                            r matches Ok(p) && p.create_directory == !destination_directory_exists
                                && p.destination_path@ == spec_join(self.directory_path@, name)
                                && p.remove_source == !self.keep_input_file_intact
                        }
                    },
                },
            },
    {
        let input_path = match context.get_input(self.input) {
            Some(p) => p,
            None => {
                return Err(String::from_str("Input doesn't contain value"));
            },
        };
        let file_name = match file_name_of(&input_path) {
            Some(f) => f,
            None => {
                return Err(String::from_str("Path can't be parsed as file"));
            },
        };
        if !destination_directory_exists && self.requires_directory_exists {
            return Err(String::from_str("Directory required to exist"));
        }
        let destination_path = join_path(&self.directory_path, &file_name);
        Ok(
            MovePlan {
                create_directory: !destination_directory_exists,
                destination_path,
                remove_source: !self.keep_input_file_intact,
            },
        )
    }

    /// Whether the move may proceed, given whether a same-named file already
    /// occupies the destination.  Refusing here keeps the source untouched:
    /// no copy and no removal have happened yet.
    pub fn check_replacement(&self, destination_file_exists: bool) -> (r: Result<(), String>)
        ensures
            r is Ok <==> spec_replacement_allowed(self.replace_older_files,
                destination_file_exists),
            r matches Err(m) ==> m@ == "Can't replace older file"@,
    {
        if destination_file_exists && !self.replace_older_files {
            Err(String::from_str("Can't replace older file"))
        } else {
            Ok(())
        }
    }

    /// Folds the caller's copy and removal results into the context.
    /// Removal is attempted only after a successful copy (`removal_result`
    /// is `None` when none was attempted); after a successful copy the
    /// context points at the copied file even when the removal failed.
    pub fn conclude(
        &self,
        context: &mut WorkflowExecutionContext,
        destination_path: String,
        copy_result: Result<(), String>,
        removal_result: Option<Result<(), String>>,
    ) -> (r: bool)
        ensures
            ({
                let cr = match copy_result {
                    Ok(_) => Ok::<(), Seq<char>>(()),
                    Err(m) => Err(m@),
                };
                let rr = match removal_result {
                    None => None::<Result<(), Seq<char>>>,
                    Some(Ok(_)) => Some(Ok(())),
                    Some(Err(m)) => Some(Err(m@)),
                };
                (final(context)@, r) == spec_conclude(
                    old(context)@,
                    destination_path@,
                    cr,
                    rr,
                )
            }),
    {
        match copy_result {
            Err(m) => context.handle_error(m),
            Ok(_) => {
                context.action_file_path = Some(destination_path);
                match removal_result {
                    Some(Err(m)) => context.handle_error(m),
                    _ => true,
                }
            },
        }
    }
}

/// Law: a move onto an occupied destination is refused when replacing is
/// off — before any copy or removal, so the source file is never deleted —
/// and allowed when replacing is on; a successful copy whose plan removes
/// the source (the plan does so exactly when `keep_input_file_intact` is
/// off) concludes successfully with the context pointing at the copied file.
pub proof fn lemma_replacement_policy(
    ctx: WorkflowExecutionContextView,
    destination: Seq<char>,
    occupied: bool,
)
    ensures
        !spec_replacement_allowed(false, true),
        spec_replacement_allowed(true, occupied),
        spec_conclude(ctx, destination, Ok(()), Some(Ok(()))).1,
        spec_conclude(ctx, destination, Ok(()), Some(Ok(()))).0.action_file_path == Some(
            destination,
        ),
{
}

// ---------------------------------------------------------------------------
// RunCmd
// ---------------------------------------------------------------------------
/// Runs a configured command template against the context: every occurrence
/// of the input placeholder in the template is replaced by the event's file
/// path, the command is spawned by the caller, and an exit code of zero is
/// success; a non-zero exit or a spawn failure fails the pipeline.
pub struct RunCmd {
    pub command: String,
}

impl Default for RunCmd {
    fn default() -> (r: Self)
        ensures
            r.command@ == "echo $input.file_path"@,
    {
        RunCmd { command: String::from_str("echo $input.file_path") }
    }
}

/// The template placeholder that stands for the event's file path.
pub open spec fn placeholder() -> Seq<char> {
    "$input.file_path"@
}

/// The command template with every placeholder occurrence replaced.
pub open spec fn spec_substitute(cmd: Seq<char>, value: Seq<char>) -> Seq<char>
    decreases cmd.len(),
{
    let p = placeholder();
    if cmd.len() >= p.len() && p.len() > 0 && cmd.take(p.len() as int) == p {
        value + spec_substitute(cmd.skip(p.len() as int), value)
    } else if cmd.len() == 0 {
        Seq::empty()
    } else {
        seq![cmd[0]] + spec_substitute(cmd.drop_first(), value)
    }
}

/// Relies on String::push: appends exactly the given character.
#[verifier::external_body]
fn push_char(s: &mut String, c: char)
    ensures
        final(s)@ == old(s)@.push(c),
{
    s.push(c);
}

/// Whether the placeholder occurs in `cmd` at position `i`.
fn matches_placeholder_at(cmd: &String, i: usize, n: usize) -> (r: bool)
    requires
        n == cmd@.len(),
        i <= n,
    ensures
        r <==> (cmd@.len() - i >= placeholder().len() && placeholder().len() > 0 && cmd@.skip(
            i as int,
        ).take(placeholder().len() as int) == placeholder()),
{
    proof {
        reveal_strlit("$input.file_path");
    }
    let pat = "$input.file_path";
    let plen = pat.unicode_len();
    assert(plen == placeholder().len());
    if n - i < plen {
        return false;
    }
    assert(pat@ == placeholder());
    let mut j: usize = 0;
    while j < plen
        invariant
            n == cmd@.len(),
            i <= n,
            plen == placeholder().len(),
            plen == pat@.len(),
            pat@ == placeholder(),
            n - i >= plen,
            j <= plen,
            forall|x: int| 0 <= x < j ==> cmd@[i + x] == placeholder()[x],
        decreases plen - j,
    {
        let pc = pat.get_char(j);
        let cc = cmd.as_str().get_char(i + j);
        if pc != cc {
            assert(cmd@.skip(i as int)[j as int] == cmd@[i + j]);
            assert(cmd@.skip(i as int).take(placeholder().len() as int)[j as int] != placeholder()[
                j as int]);
            return false;
        }
        assert(cmd@[i + j] == placeholder()[j as int]);
        j += 1;
    }
    proof {
        assert(cmd@.skip(i as int).take(placeholder().len() as int) =~= placeholder());
    }
    true
}

impl RunCmd {
    /// The command line to spawn for this context: the template with the
    /// event's file path substituted for every placeholder occurrence.
    pub fn command_line(&self, context: &WorkflowExecutionContext) -> (r: String)
        ensures
            r@ == spec_substitute(self.command@, context@.event_file_path),
    {
        let value = &context.event_file_path;
        let n = self.command.as_str().unicode_len();
        let mut out = String::new();
        let mut i: usize = 0;
        proof {
            reveal_strlit("$input.file_path");
            assert(self.command@.skip(0) =~= self.command@);
            assert(out@ =~= Seq::<char>::empty());
            assert(Seq::<char>::empty() + spec_substitute(self.command@, value@)
                =~= spec_substitute(self.command@, value@));
        }
        while i < n
            invariant
                n == self.command@.len(),
                i <= n,
                value@ == context@.event_file_path,
                placeholder().len() == 16,
                spec_substitute(self.command@, value@) == out@ + spec_substitute(
                    self.command@.skip(i as int),
                    value@,
                ),
            decreases n - i,
        {
            let ghost rest = self.command@.skip(i as int);
            if matches_placeholder_at(&self.command, i, n) {
                out.append(value.as_str());
                proof {
                    assert(rest.take(16) == placeholder());
                    assert(rest.skip(16) =~= self.command@.skip(i as int + 16));
                    assert(spec_substitute(rest, value@) == value@ + spec_substitute(
                        self.command@.skip(i as int + 16),
                        value@,
                    ));
                }
                i += 16;
            } else {
                let c = self.command.as_str().get_char(i);
                push_char(&mut out, c);
                proof {
                    assert(rest[0] == self.command@[i as int]);
                    assert(rest.len() > 0);
                    assert(rest.drop_first() =~= self.command@.skip(i as int + 1));
                    assert(spec_substitute(rest, value@) == seq![self.command@[i as int]]
                        + spec_substitute(self.command@.skip(i as int + 1), value@));
                    assert(out@ + seq![self.command@[i as int]] =~= out@.push(
                        self.command@[i as int],
                    ));
                }
                i += 1;
            }
        }
        proof {
            assert(self.command@.skip(n as int) =~= Seq::<char>::empty());
            assert(spec_substitute(Seq::<char>::empty(), value@) == Seq::<char>::empty());
            assert(out@ + Seq::<char>::empty() =~= out@);
        }
        out
    }

    /// Maps the spawned command's exit to the action's outcome: exit code
    /// zero is success and leaves the context as it was; a non-zero exit or
    /// a spawn failure (`None`) records an error and fails.
    pub fn interpret_exit(context: &mut WorkflowExecutionContext, exit_code: Option<i32>) -> (r:
        bool)
        ensures
            match exit_code {
                Some(code) => if code == 0 {
                    r && final(context)@ == old(context)@
                } else {
                    !r && final(context)@ == (WorkflowExecutionContextView {
                        error_message: Some("Command exited with non-zero status"@),
                        ..old(context)@
                    })
                },
                None => !r && final(context)@ == (WorkflowExecutionContextView {
                    error_message: Some("Failed to spawn command"@),
                    ..old(context)@
                }),
            },
    {
        match exit_code {
            Some(code) => if code == 0 {
                true
            } else {
                context.handle_error(String::from_str("Command exited with non-zero status"))
            },
            None => context.handle_error(String::from_str("Failed to spawn command")),
        }
    }
}

// ---------------------------------------------------------------------------
// The action set and the pipeline
// ---------------------------------------------------------------------------
/// The closed set of workflow actions; adding a kind means adding a variant
/// and a case, not reopening the dispatch contract.
pub enum WorkflowActions {
    MoveToDir(MoveToDir),
    RunCmd(RunCmd),
}

impl WorkflowActions {
    /// The action's name as trace records carry it.
    pub fn name(&self) -> (r: String)
        ensures
            match self {
                WorkflowActions::MoveToDir(_) => r@ == "MoveToDir"@,
                WorkflowActions::RunCmd(_) => r@ == "RunCmd"@,
            },
    {
        match self {
            WorkflowActions::MoveToDir(_) => String::from_str("MoveToDir"),
            WorkflowActions::RunCmd(_) => String::from_str("RunCmd"),
        }
    }
}

/// What one action's run came to: its output path on success, its error
/// message on failure.
pub enum ActionOutcome {
    Success(String),
    Failure(String),
}

/// Mathematical model of an [`ActionOutcome`].
pub enum ActionOutcomeView {
    Success(Seq<char>),
    Failure(Seq<char>),
}

impl View for ActionOutcome {
    type V = ActionOutcomeView;

    open spec fn view(&self) -> ActionOutcomeView {
        match self {
            ActionOutcome::Success(p) => ActionOutcomeView::Success(p@),
            ActionOutcome::Failure(m) => ActionOutcomeView::Failure(m@),
        }
    }
}

/// How one outcome lands in the context: success chains the output path,
/// failure writes the error slot; the flag says whether the pipeline goes on.
pub open spec fn spec_apply_outcome(
    ctx: WorkflowExecutionContextView,
    o: ActionOutcomeView,
) -> (WorkflowExecutionContextView, bool) {
    match o {
        ActionOutcomeView::Success(p) => (
            WorkflowExecutionContextView { action_file_path: Some(p), ..ctx },
            true,
        ),
        ActionOutcomeView::Failure(m) => (
            WorkflowExecutionContextView { error_message: Some(m), ..ctx },
            false,
        ),
    }
}

/// The context after running a pipeline whose actions come to the given
/// outcomes in order, and how many actions were applied: the first failure
/// aborts the remaining actions.
pub open spec fn spec_pipeline(
    ctx: WorkflowExecutionContextView,
    outs: Seq<ActionOutcomeView>,
) -> (WorkflowExecutionContextView, nat)
    decreases outs.len(),
{
    if outs.len() == 0 {
        (ctx, 0)
    } else {
        let step = spec_apply_outcome(ctx, outs[0]);
        if step.1 {
            let rest = spec_pipeline(step.0, outs.drop_first());
            (rest.0, rest.1 + 1)
        } else {
            (step.0, 1)
        }
    }
}

/// Records one action's outcome in the context.
pub fn apply_outcome(context: &mut WorkflowExecutionContext, outcome: ActionOutcome) -> (r: bool)
    ensures
        (final(context)@, r) == spec_apply_outcome(old(context)@, outcome@),
{
    match outcome {
        ActionOutcome::Success(p) => {
            context.action_file_path = Some(p);
            true
        },
        ActionOutcome::Failure(m) => context.handle_error(m),
    }
}

/// One event's run of an ordered action pipeline: the caller takes the
/// current action, performs its effect, and records the outcome; the first
/// failure halts the pipeline, and the remaining actions are never handed
/// out.
pub struct WorkflowPipeline {
    pub actions: Vec<WorkflowActions>,
    pub next_index: usize,
    pub halted: bool,
}

impl WorkflowPipeline {
    pub open spec fn finished(self) -> bool {
        self.halted || self.next_index >= self.actions@.len()
    }

    /// A fresh pipeline over the given actions.
    pub fn new(actions: Vec<WorkflowActions>) -> (r: Self)
        ensures
            r.actions == actions,
            r.next_index == 0,
            !r.halted,
    {
        WorkflowPipeline { actions, next_index: 0, halted: false }
    }

    /// The action to perform next; `None` once the pipeline halted or ran out.
    pub fn current_action(&self) -> (r: Option<&WorkflowActions>)
        ensures
            match r {
                Some(a) => !self.finished() && *a == self.actions@[self.next_index as int],
                None => self.finished(),
            },
    {
        if self.halted || self.next_index >= self.actions.len() {
            None
        } else {
            Some(&self.actions[self.next_index])
        }
    }

    /// Records the current action's outcome: success advances to the next
    /// action, failure writes the context's error slot and halts.
    pub fn record_outcome(
        &mut self,
        context: &mut WorkflowExecutionContext,
        outcome: ActionOutcome,
    ) -> (r: bool)
        requires
            !old(self).finished(),
        ensures
            (final(context)@, r) == spec_apply_outcome(old(context)@, outcome@),
            final(self).actions == old(self).actions,
            r ==> final(self).next_index == old(self).next_index + 1 && !final(self).halted,
            !r ==> final(self).halted && final(self).next_index == old(self).next_index,
    {
        let n = self.actions.len();
        let ok = apply_outcome(context, outcome);
        if ok {
            assert(self.next_index < n);
            self.next_index += 1;
        } else {
            self.halted = true;
        }
        ok
    }
}

/// Law: in a pipeline whose first action succeeds and whose second fails,
/// the context ends reflecting the first action's output path and the
/// second's error message, and no action after the second is applied.
pub proof fn lemma_first_failure_aborts(
    ctx: WorkflowExecutionContextView,
    out_path: Seq<char>,
    err: Seq<char>,
    rest: Seq<ActionOutcomeView>,
)
    ensures
        ({
            let outs = seq![
                ActionOutcomeView::Success(out_path),
                ActionOutcomeView::Failure(err),
            ] + rest;
            let run = spec_pipeline(ctx, outs);
            &&& run.0.action_file_path == Some(out_path)
            &&& run.0.error_message == Some(err)
            &&& run.0.event_file_path == ctx.event_file_path
            &&& run.1 == 2
        }),
{
    let outs = seq![ActionOutcomeView::Success(out_path), ActionOutcomeView::Failure(err)] + rest;
    assert(outs[0] == ActionOutcomeView::Success(out_path));
    assert(outs.drop_first()[0] == ActionOutcomeView::Failure(err));
    let c1 = spec_apply_outcome(ctx, outs[0]).0;
    assert(spec_pipeline(c1, outs.drop_first()).1 == 1);
}

/// One per-event outcome record as trace subscribers receive it.
#[derive(Clone, Debug)]
pub struct TraceRecord {
    pub action_name: String,
    pub success: bool,
    pub error_message: Option<String>,
}

/// The trace record for one action's outcome.
pub fn trace_record(action: &WorkflowActions, outcome: &ActionOutcome) -> (r: TraceRecord)
    ensures
        match action {
            WorkflowActions::MoveToDir(_) => r.action_name@ == "MoveToDir"@,
            WorkflowActions::RunCmd(_) => r.action_name@ == "RunCmd"@,
        },
        match outcome {
            ActionOutcome::Success(_) => r.success && r.error_message is None,
            ActionOutcome::Failure(m) => !r.success && (r.error_message matches Some(mm)
                && mm@ == m@),
        },
{
    match outcome {
        ActionOutcome::Success(_) => TraceRecord {
            action_name: action.name(),
            success: true,
            error_message: None,
        },
        ActionOutcome::Failure(m) => TraceRecord {
            action_name: action.name(),
            success: false,
            error_message: Some(m.clone()),
        },
    }
}

// ---------------------------------------------------------------------------
// The workflow configuration
// ---------------------------------------------------------------------------
/// One handler's workflow: the event kind it reacts to and the ordered
/// action pipeline it runs, with its watching policy.  Immutable once loaded
/// for a run; reloaded on modify or restart.
pub struct WorkflowConfig {
    pub watch_recursive: bool,
    pub apply_on_startup_on_existing_files: bool,
    pub panic_handler_on_error: bool,
    pub event: WorkflowEvent,
    pub actions: Vec<WorkflowActions>,
}

impl WorkflowConfig {
    /// The event kind a name of the catalogue stands for.
    pub fn event_from_name(name: &String) -> (r: Option<WorkflowEvent>)
        ensures
            name@ == "create"@ ==> r == Some(WorkflowEvent::Create),
            name@ == "modify"@ ==> r == Some(WorkflowEvent::Modify),
            name@ == "rename"@ ==> r == Some(WorkflowEvent::Rename),
            r is None <==> (name@ != "create"@ && name@ != "modify"@ && name@ != "rename"@),
    {
        proof {
            reveal_strlit("create");
            reveal_strlit("modify");
            reveal_strlit("rename");
            assert("create"@[0] != "modify"@[0]);
            assert("create"@[0] != "rename"@[0]);
            assert("modify"@[0] != "rename"@[0]);
            assert("create"@ != "modify"@ && "create"@ != "rename"@ && "modify"@ != "rename"@);
        }
        if *name == String::from_str("create") {
            Some(WorkflowEvent::Create)
        } else if *name == String::from_str("modify") {
            Some(WorkflowEvent::Modify)
        } else if *name == String::from_str("rename") {
            Some(WorkflowEvent::Rename)
        } else {
            None
        }
    }

    /// The default action a name of the catalogue stands for.
    pub fn action_from_name(name: &String) -> (r: Option<WorkflowActions>)
        ensures
            match r {
                Some(a) => spec_default_action_for(name@, a),
                None => !spec_recognized_action(name@),
            },
    {
        proof {
            reveal_strlit("move-to-dir");
            reveal_strlit("run-cmd");
            assert("move-to-dir"@.len() != "run-cmd"@.len());
            assert("move-to-dir"@ != "run-cmd"@);
        }
        if *name == String::from_str("move-to-dir") {
            Some(WorkflowActions::MoveToDir(MoveToDir::default()))
        } else if *name == String::from_str("run-cmd") {
            Some(WorkflowActions::RunCmd(RunCmd::default()))
        } else {
            None
        }
    }

    /// A default workflow over the named actions: non-recursive, no startup
    /// replay, failures tolerated, reacting to the given event kind, with
    /// one default action per recognized name, in the given order.
    pub fn default_new(event: WorkflowEvent, action_names: &Vec<String>) -> (r: Self)
        ensures
            !r.watch_recursive,
            !r.apply_on_startup_on_existing_files,
            !r.panic_handler_on_error,
            r.event == event,
            r.actions@.len() == spec_recognized_action_names(action_names@).len(),
            forall|i: int|
                0 <= i < r.actions@.len() ==> spec_default_action_for(
                    spec_recognized_action_names(action_names@)[i],
                    #[trigger] r.actions@[i],
                ),
    {
        let n = action_names.len();
        let ghost mapped = action_names@.map_values(|name: String| name@);
        let mut actions: Vec<WorkflowActions> = Vec::new();
        let mut i: usize = 0;
        proof {
            reveal(Seq::filter);
            assert(mapped.take(0) =~= Seq::<Seq<char>>::empty());
        }
        while i < n
            invariant
                n == action_names@.len(),
                i <= n,
                mapped == action_names@.map_values(|name: String| name@),
                actions@.len() == mapped.take(i as int).filter(
                    |name: Seq<char>| spec_recognized_action(name),
                ).len(),
                forall|j: int|
                    0 <= j < actions@.len() ==> spec_default_action_for(
                        mapped.take(i as int).filter(
                            |name: Seq<char>| spec_recognized_action(name),
                        )[j],
                        #[trigger] actions@[j],
                    ),
            decreases n - i,
        {
            let ghost prefix = mapped.take(i as int).filter(
                |name: Seq<char>| spec_recognized_action(name),
            );
            match Self::action_from_name(&action_names[i]) {
                Some(a) => actions.push(a),
                None => {},
            }
            proof {
                reveal(Seq::filter);
                assert(mapped.take(i as int + 1).drop_last() =~= mapped.take(i as int));
                assert(mapped.take(i as int + 1).last() == action_names@[i as int]@);
            }
            i += 1;
        }
        proof {
            assert(mapped.take(n as int) =~= mapped);
        }
        WorkflowConfig {
            watch_recursive: false,
            apply_on_startup_on_existing_files: false,
            panic_handler_on_error: false,
            event,
            actions,
        }
    }
}

/// Whether a name of the catalogue stands for an action.
pub open spec fn spec_recognized_action(name: Seq<char>) -> bool {
    name == "move-to-dir"@ || name == "run-cmd"@
}

/// The recognized names among the given ones, in order.
pub open spec fn spec_recognized_action_names(names: Seq<String>) -> Seq<Seq<char>> {
    names.map_values(|name: String| name@).filter(|name: Seq<char>| spec_recognized_action(name))
}

/// The default action a recognized name stands for.
pub open spec fn spec_default_action_for(name: Seq<char>, a: WorkflowActions) -> bool {
    if name == "move-to-dir"@ {
        &&& a matches WorkflowActions::MoveToDir(mv)
        &&& mv.input == WorkflowContextInput::EventFilePath
        &&& mv.directory_path@ == "output_dir_path"@
        &&& !mv.requires_directory_exists
        &&& mv.replace_older_files
        &&& !mv.keep_input_file_intact
    } else if name == "run-cmd"@ {
        &&& a matches WorkflowActions::RunCmd(rc)
        &&& rc.command@ == "echo $input.file_path"@
    } else {
        false
    }
}

} // verus!
