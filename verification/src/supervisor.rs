use vstd::prelude::*;

use crate::errors::HandlerServiceError;
use crate::mapping::{HandlerMapping, HandlerMappingView, Mapping};

verus! {

/// The catalogue of handler type names the daemon was built with.  The
/// catalogue itself is an external collaborator; only membership matters to
/// the supervisor, which consults it before spawning a worker.
pub struct HandlerTypesRegistry {
    pub names: Vec<String>,
}

impl HandlerTypesRegistry {
    pub open spec fn spec_contains(self, name: Seq<char>) -> bool {
        exists|i: int| 0 <= i < self.names@.len() && self.names@[i]@ == name
    }

    pub fn new(names: Vec<String>) -> (r: Self)
        ensures
            r.names == names,
    {
        HandlerTypesRegistry { names }
    }

    /// Whether a handler type of this name exists.
    pub fn contains(&self, name: &String) -> (r: bool)
        ensures
            r == self.spec_contains(name@),
    {
        let n = self.names.len();
        let mut i: usize = 0;
        while i < n
            invariant
                n == self.names@.len(),
                0 <= i <= n,
                forall|j: int| 0 <= j < i ==> self.names@[j]@ != name@,
            decreases n - i,
        {
            if self.names[i] == *name {
                return true;
            }
            i += 1;
        }
        false
    }
}

/// What the caller needs to spawn the worker a successful `start_handler`
/// decided on: which workflow drives it and where its configuration lives.
#[derive(Debug)]
pub struct StartedHandler {
    pub handler_type_name: String,
    pub handler_config_path: String,
}

/// What the caller must do to the worker after a successful `modify_handler`.
#[derive(Debug)]
pub enum ModifyEffect {
    /// A worker was running: stop it and spawn a fresh one with the returned
    /// type and configuration, so the change is live at once.
    RestartWorker(StartedHandler),
    /// No worker was running; the table update is all there is to it.
    NoWorker,
}

/// Registration as the table sees it: accepted unless an entry with a
/// different type or configuration is present and overwriting was not asked
/// for.  An accepted registration replaces the entry wholesale, not running.
pub open spec fn spec_register(
    m: Map<Seq<char>, HandlerMappingView>,
    path: Seq<char>,
    handler_type: Seq<char>,
    config_path: Seq<char>,
    overwrite: bool,
) -> (Map<Seq<char>, HandlerMappingView>, bool) {
    if m.contains_key(path) && !overwrite && (m[path].handler_type_name != handler_type
        || m[path].handler_config_path != config_path) {
        (m, false)
    } else {
        (
            m.insert(
                path,
                HandlerMappingView {
                    running: false,
                    handler_type_name: handler_type,
                    handler_config_path: config_path,
                },
            ),
            true,
        )
    }
}

/// Start as the table sees it, given whether the entry's handler type is in
/// the registry; `None` as second component means the start was accepted.
pub open spec fn spec_start(
    m: Map<Seq<char>, HandlerMappingView>,
    path: Seq<char>,
    type_known: bool,
) -> (Map<Seq<char>, HandlerMappingView>, Option<HandlerServiceError>) {
    if !m.contains_key(path) {
        (m, Some(HandlerServiceError::NotRegistered))
    } else if m[path].running {
        (m, Some(HandlerServiceError::AlreadyRunning))
    } else if !type_known {
        (m, Some(HandlerServiceError::UnknownHandlerType))
    } else {
        (
            m.insert(
                path,
                HandlerMappingView {
                    running: true,
                    handler_type_name: m[path].handler_type_name,
                    handler_config_path: m[path].handler_config_path,
                },
            ),
            None,
        )
    }
}

/// Stop as the table sees it.
pub open spec fn spec_stop(m: Map<Seq<char>, HandlerMappingView>, path: Seq<char>) -> (
    Map<Seq<char>, HandlerMappingView>,
    Option<HandlerServiceError>,
) {
    if !m.contains_key(path) || !m[path].running {
        (m, Some(HandlerServiceError::NotRunning))
    } else {
        (
            m.insert(
                path,
                HandlerMappingView {
                    running: false,
                    handler_type_name: m[path].handler_type_name,
                    handler_config_path: m[path].handler_config_path,
                },
            ),
            None,
        )
    }
}

/// Modify as the table sees it: fields named in the request are replaced,
/// the running indicator is untouched.
pub open spec fn spec_modify(
    m: Map<Seq<char>, HandlerMappingView>,
    path: Seq<char>,
    new_type_name: Option<Seq<char>>,
    new_config_path: Option<Seq<char>>,
) -> (Map<Seq<char>, HandlerMappingView>, Option<HandlerServiceError>) {
    if !m.contains_key(path) {
        (m, Some(HandlerServiceError::NotRegistered))
    } else {
        (
            m.insert(
                path,
                HandlerMappingView {
                    running: m[path].running,
                    handler_type_name: match new_type_name {
                        Some(t) => t,
                        None => m[path].handler_type_name,
                    },
                    handler_config_path: match new_config_path {
                        Some(c) => c,
                        None => m[path].handler_config_path,
                    },
                },
            ),
            None,
        )
    }
}

/// Whether the entry at `path` names a handler type the registry knows.
pub open spec fn spec_type_known(
    m: Map<Seq<char>, HandlerMappingView>,
    path: Seq<char>,
    registry: HandlerTypesRegistry,
) -> bool {
    m.contains_key(path) && registry.spec_contains(m[path].handler_type_name)
}

impl Mapping {
    /// Registers a directory, replacing its entry when overwriting is asked
    /// for or nothing conflicting is stored.  A successful registration
    /// leaves the entry stopped: workers are never auto-started by register,
    /// and register alone never signals a worker.
    pub fn register_to_directory(
        &mut self,
        directory_path: &String,
        handler_type_name: &String,
        handler_config_path: &String,
        overwrite: bool,
    ) -> (r: Result<(), HandlerServiceError>)
        requires
            old(self).wf(),
        ensures
            final(self).wf(),
            final(self)@ == spec_register(
                old(self)@,
                directory_path@,
                handler_type_name@,
                handler_config_path@,
                overwrite,
            ).0,
            r is Ok <==> spec_register(
                old(self)@,
                directory_path@,
                handler_type_name@,
                handler_config_path@,
                overwrite,
            ).1,
            r matches Err(e) ==> e is AlreadyRegistered,
    {
        let conflict = match self.get(directory_path) {
            Some(h) => !(h.handler_type_name == *handler_type_name && h.handler_config_path
                == *handler_config_path),
            None => false,
        };
        if conflict && !overwrite {
            return Err(HandlerServiceError::AlreadyRegistered);
        }
        self.insert_or_replace(
            directory_path.clone(),
            HandlerMapping {
                running: false,
                handler_type_name: handler_type_name.clone(),
                handler_config_path: handler_config_path.clone(),
            },
        );
        Ok(())
    }

    /// Starts the handler registered on a directory.  On success the entry
    /// is marked running and the returned type and configuration path tell
    /// the caller which worker to spawn, with a fresh bounded control inbox
    /// whose send side belongs to this entry.
    pub fn start_handler(&mut self, directory_path: &String, registry: &HandlerTypesRegistry) -> (r:
        Result<StartedHandler, HandlerServiceError>)
        requires
            old(self).wf(),
        ensures
            final(self).wf(),
            ({
                let known = spec_type_known(old(self)@, directory_path@, *registry);
                let step = spec_start(old(self)@, directory_path@, known);
                &&& final(self)@ == step.0
                &&& match r {
                    Ok(s) => step.1 is None && old(self)@.contains_key(directory_path@)
                        && s.handler_type_name@ == old(self)@[directory_path@].handler_type_name
                        && s.handler_config_path@ == old(self)@[directory_path@].handler_config_path,
                    Err(e) => step.1 == Some(e),
                }
            }),
    {
        let (running, handler_type, config_path) = match self.get(directory_path) {
            Some(h) => (h.running, h.handler_type_name.clone(), h.handler_config_path.clone()),
            None => {
                return Err(HandlerServiceError::NotRegistered);
            },
        };
        if running {
            return Err(HandlerServiceError::AlreadyRunning);
        }
        if !registry.contains(&handler_type) {
            return Err(HandlerServiceError::UnknownHandlerType);
        }
        self.insert_or_replace(
            directory_path.clone(),
            HandlerMapping {
                running: true,
                handler_type_name: handler_type.clone(),
                handler_config_path: config_path.clone(),
            },
        );
        Ok(StartedHandler { handler_type_name: handler_type, handler_config_path: config_path })
    }

    /// Stops the handler running on a directory.  On success the entry is
    /// marked stopped and the caller owes the worker one stop message over
    /// its control inbox, sent outside the table's critical section; the
    /// worker drains in-flight work and exits on its own.
    pub fn stop_handler(&mut self, directory_path: &String) -> (r: Result<
        (),
        HandlerServiceError,
    >)
        requires
            old(self).wf(),
        ensures
            final(self).wf(),
            final(self)@ == spec_stop(old(self)@, directory_path@).0,
            r is Ok <==> spec_stop(old(self)@, directory_path@).1 is None,
            r matches Err(e) ==> spec_stop(old(self)@, directory_path@).1 == Some(e),
    {
        let (running, handler_type, config_path) = match self.get(directory_path) {
            Some(h) => (h.running, h.handler_type_name.clone(), h.handler_config_path.clone()),
            None => {
                return Err(HandlerServiceError::NotRunning);
            },
        };
        if !running {
            return Err(HandlerServiceError::NotRunning);
        }
        self.insert_or_replace(
            directory_path.clone(),
            HandlerMapping {
                running: false,
                handler_type_name: handler_type,
                handler_config_path: config_path,
            },
        );
        Ok(())
    }

    /// Updates a directory's stored type and configuration path.  When a
    /// worker is running, the returned effect tells the caller to stop it
    /// and start a fresh one, so the change is always live; the entry keeps
    /// counting as running through that hand-over.
    pub fn modify_handler(
        &mut self,
        directory_path: &String,
        new_handler_type_name: Option<&String>,
        new_handler_config_path: Option<&String>,
    ) -> (r: Result<ModifyEffect, HandlerServiceError>)
        requires
            old(self).wf(),
        ensures
            final(self).wf(),
            ({
                let nt = match new_handler_type_name {
                    Some(t) => Some(t@),
                    None => None,
                };
                let nc = match new_handler_config_path {
                    Some(c) => Some(c@),
                    None => None,
                };
                let step = spec_modify(old(self)@, directory_path@, nt, nc);
                &&& final(self)@ == step.0
                &&& match r {
                    Ok(effect) => step.1 is None && match effect {
                        ModifyEffect::RestartWorker(s) => old(self)@[directory_path@].running
                            && s.handler_type_name@ == step.0[directory_path@].handler_type_name
                            && s.handler_config_path@ == step.0[directory_path@].handler_config_path,
                        ModifyEffect::NoWorker => !old(self)@[directory_path@].running,
                    },
                    Err(e) => step.1 == Some(e),
                }
            }),
    {
        let (running, handler_type, config_path) = match self.get(directory_path) {
            Some(h) => (h.running, h.handler_type_name.clone(), h.handler_config_path.clone()),
            None => {
                return Err(HandlerServiceError::NotRegistered);
            },
        };
        let updated_type = match new_handler_type_name {
            Some(t) => t.clone(),
            None => handler_type,
        };
        let updated_config = match new_handler_config_path {
            Some(c) => c.clone(),
            None => config_path,
        };
        self.insert_or_replace(
            directory_path.clone(),
            HandlerMapping {
                running,
                handler_type_name: updated_type.clone(),
                handler_config_path: updated_config.clone(),
            },
        );
        if running {
            Ok(
                ModifyEffect::RestartWorker(
                    StartedHandler {
                        handler_type_name: updated_type,
                        handler_config_path: updated_config,
                    },
                ),
            )
        } else {
            Ok(ModifyEffect::NoWorker)
        }
    }

    /// One directory's status: whether a worker is running, its handler type
    /// and configuration path.  Needs only shared access and never mutates.
    pub fn get_directory_status(&self, directory_path: &String) -> (r: Option<HandlerMapping>)
        requires
            self.wf(),
        ensures
            match r {
                Some(h) => self@.contains_key(directory_path@) && h@ == self@[directory_path@],
                None => !self@.contains_key(directory_path@),
            },
    {
        match self.get(directory_path) {
            Some(h) => Some(h.clone()),
            None => None,
        }
    }

    /// One status summary per entry in the table, in table order.
    pub fn get_all_statuses(&self) -> (r: Vec<(String, HandlerMapping)>)
        requires
            self.wf(),
        ensures
            r@.len() == self.directory_mapping@.len(),
            forall|i: int|
                0 <= i < r@.len() ==> r@[i].0@ == self.directory_mapping@[i].0@ && r@[i].1@
                    == self.directory_mapping@[i].1@,
    {
        let n = self.directory_mapping.len();
        let mut out: Vec<(String, HandlerMapping)> = Vec::new();
        let mut i: usize = 0;
        while i < n
            invariant
                n == self.directory_mapping@.len(),
                0 <= i <= n,
                out@.len() == i,
                forall|j: int|
                    0 <= j < i ==> out@[j].0@ == self.directory_mapping@[j].0@ && out@[j].1@
                        == self.directory_mapping@[j].1@,
            decreases n - i,
        {
            let entry = &self.directory_mapping[i];
            out.push((entry.0.clone(), entry.1.clone()));
            i += 1;
        }
        out
    }

    /// Whether a trace subscription may be opened: accepted exactly when a
    /// worker is running for the directory.  Needs only shared access; on
    /// success the caller sends the worker a trace-subscribe message carrying
    /// the sink, outside the lock.
    pub fn trace_handler(&self, directory_path: &String) -> (r: Result<(), HandlerServiceError>)
        requires
            self.wf(),
        ensures
            r is Ok <==> self@.contains_key(directory_path@) && self@[directory_path@].running,
            r matches Err(e) ==> e is NotRunning,
    {
        match self.get(directory_path) {
            Some(h) => if h.running {
                Ok(())
            } else {
                Err(HandlerServiceError::NotRunning)
            },
            None => Err(HandlerServiceError::NotRunning),
        }
    }
}

/// Law: starting a directory that was never registered fails with
/// `NotRegistered`; registering it and then starting succeeds, and the
/// directory's status then shows it running under the registered type.
pub proof fn lemma_register_then_start(
    m: Map<Seq<char>, HandlerMappingView>,
    d: Seq<char>,
    handler_type: Seq<char>,
    config_path: Seq<char>,
    known_before: bool,
)
    requires
        !m.contains_key(d),
    ensures
        spec_start(m, d, known_before).1 == Some(HandlerServiceError::NotRegistered),
        spec_start(m, d, known_before).0 == m,
        spec_register(m, d, handler_type, config_path, false).1,
        ({
            let m1 = spec_register(m, d, handler_type, config_path, false).0;
            let after = spec_start(m1, d, true);
            &&& after.1 is None
            &&& after.0[d].running
            &&& after.0[d].handler_type_name == handler_type
            &&& after.0[d].handler_config_path == config_path
        }),
{
}

/// Law: starting a running directory fails with `AlreadyRunning` and changes
/// nothing; stopping it and then starting it succeeds again, leaving it
/// running (restart idempotence).
pub proof fn lemma_restart_after_stop(
    m: Map<Seq<char>, HandlerMappingView>,
    d: Seq<char>,
    type_known: bool,
)
    requires
        m.contains_key(d),
        m[d].running,
        type_known,
    ensures
        spec_start(m, d, type_known).1 == Some(HandlerServiceError::AlreadyRunning),
        spec_start(m, d, type_known).0 == m,
        spec_stop(m, d).1 is None,
        ({
            let m1 = spec_stop(m, d).0;
            let after = spec_start(m1, d, type_known);
            &&& after.1 is None
            &&& after.0[d].running
            &&& after.0[d].handler_type_name == m[d].handler_type_name
            &&& after.0[d].handler_config_path == m[d].handler_config_path
        }),
{
}

/// Law: stopping a directory that is not running fails with `NotRunning` and
/// leaves the table as it was, so stop may be repeated without effect once a
/// handler is stopped (and a verified `stop_handler` never panics).
pub proof fn lemma_stop_not_running(m: Map<Seq<char>, HandlerMappingView>, d: Seq<char>)
    requires
        !m.contains_key(d) || !m[d].running,
    ensures
        spec_stop(m, d).1 == Some(HandlerServiceError::NotRunning),
        spec_stop(m, d).0 == m,
        spec_stop(spec_stop(m, d).0, d) == spec_stop(m, d),
{
}

/// Law: after a successful stop, every further stop of the same directory
/// fails with `NotRunning` and leaves the table unchanged.
pub proof fn lemma_stop_after_stop(m: Map<Seq<char>, HandlerMappingView>, d: Seq<char>)
    requires
        m.contains_key(d),
        m[d].running,
    ensures
        ({
            let m1 = spec_stop(m, d).0;
            &&& spec_stop(m1, d).1 == Some(HandlerServiceError::NotRunning)
            &&& spec_stop(m1, d).0 == m1
        }),
{
}

} // verus!
