//! The command surface: one parsed command, and its dispatch onto the store.
//!
//! Argument parsing itself is a front end's business; the store takes the
//! already-parsed strings and options.

use vstd::prelude::*;

use crate::codec::{spec_render_store, spec_render_topic};
use crate::task_object::{
    create_spec, delete_task_spec, lookup_tasks, opt_view, Task, TaskContainer, TaskError, TaskView,
};

verus! {

/// One parsed command.
#[allow(inconsistent_fields)]
pub enum Commands {
    Create { topic: String, task: String, task_description: Option<String>, link: Option<String> },
    Read { topic: Option<String>, task: Option<String> },
    Delete { topic: String, task: Option<String> },
    Randomise { topic: Option<String> },
}

/// A parsed invocation: exactly one command per run.
pub struct Cli {
    pub command: Commands,
}

/// What one command reports back: rendered text to show, a selection to
/// suggest (or none, on an empty store or topic), or nothing.
pub enum CommandOutput {
    Rendered(String),
    Selection(Option<(String, Task)>),
    Done,
}

impl TaskContainer {
    /// Apply exactly one command to the store, as the per-invocation
    /// lifecycle demands: each arm forwards to the operation it names, and
    /// only the create and delete arms change the store.
    pub fn handle_command(&mut self, cmd: Commands) -> (r: Result<CommandOutput, TaskError>)
        requires
            old(self).wf(),
        ensures
            final(self).wf(),
            match cmd {
                Commands::Create { topic, task, task_description, link } => {
                    &&& r is Ok
                    &&& final(self).store_map() == create_spec(
                        old(self).store_map(),
                        topic@,
                        TaskView {
                            name: task@,
                            description: opt_view(task_description),
                            link: opt_view(link),
                        },
                    )
                },
                Commands::Read { topic, task } => {
                    &&& final(self)@ == old(self)@
                    &&& match topic {
                        Some(t) => {
                            &&& (r is Ok <==> old(self).store_map().contains_key(t@))
                            &&& (r matches Ok(o) ==> (o matches CommandOutput::Rendered(x)
                                && x@ == spec_render_topic(lookup_tasks(old(self)@, t@))))
                            &&& (r matches Err(e) ==> e == TaskError::NotFound)
                        },
                        None => r matches Ok(o) && (o matches CommandOutput::Rendered(x)
                            && x@ == spec_render_store(old(self)@)),
                    }
                },
                Commands::Delete { topic, task } => {
                    &&& r is Ok
                    &&& match task {
                        None => final(self).store_map() == old(self).store_map().remove(topic@),
                        Some(name) => final(self).store_map() == delete_task_spec(
                            old(self).store_map(),
                            topic@,
                            name@,
                        ),
                    }
                },
                Commands::Randomise { topic } => {
                    &&& final(self)@ == old(self)@
                    &&& r is Ok
                    &&& (r matches Ok(o) ==> (o matches CommandOutput::Selection(sel) && {
                        &&& (old(self)@.len() == 0 ==> sel is None)
                        &&& (sel matches Some(p) ==> old(self).store_map().contains_key(p.0@)
                            && old(self).store_map()[p.0@].contains_key(p.1@.name)
                            && old(self).store_map()[p.0@][p.1@.name] == p.1@)
                    }))
                },
            },
    {
        match cmd {
            Commands::Create { topic, task, task_description, link } => {
                match self.handle_create(topic, task, task_description, link) {
                    Ok(()) => Ok(CommandOutput::Done),
                    Err(e) => Err(e),
                }
            },
            Commands::Read { topic, task } => {
                match self.handle_read(topic, task) {
                    Ok(text) => Ok(CommandOutput::Rendered(text)),
                    Err(e) => Err(e),
                }
            },
            Commands::Delete { topic, task } => {
                match self.handle_delete(topic, task) {
                    Ok(()) => Ok(CommandOutput::Done),
                    Err(e) => Err(e),
                }
            },
            Commands::Randomise { topic } => Ok(CommandOutput::Selection(
                self.handle_randomise(topic),
            )),
        }
    }
}

} // verus!
