//! The in-memory task store: tasks, topics, and the container with its
//! create / read / delete / randomise operations.
//!
//! Identity rules: a task is identified by its name alone; topic names are
//! unique within the store; task names are unique within a topic. Inserting
//! a task whose name already exists replaces the stored task entirely.

use vstd::prelude::*;
use vstd::pervasive::VecAdditionalExecFns;

use crate::random::{fresh_rng, gen_below};

verus! {

/// The error kinds an operation can surface.
///
/// `NotFound` comes from reading a topic absent from the store,
/// `CorruptStore` from parsing a document that is not a valid store,
/// `IOError` from a front end that cannot reach the backing document.
#[derive(Debug, Clone, Copy, PartialEq, Eq, Structural)]
pub enum TaskError {
    NotFound,
    CorruptStore,
    IOError,
}

/// A unit of work. Identity is the name alone: two tasks with the same name
/// are the same task, whatever their description or link say.
pub struct Task {
    pub task_name: String,
    pub task_description: Option<String>,
    pub link: Option<String>,
}

/// The mathematical value of a [`Task`]: its strings as character sequences.
pub ghost struct TaskView {
    pub name: Seq<char>,
    pub description: Option<Seq<char>>,
    pub link: Option<Seq<char>>,
}

/// The mathematical value of an optional string.
pub open spec fn opt_view(o: Option<String>) -> Option<Seq<char>> {
    match o {
        Some(s) => Some(s@),
        None => None,
    }
}

impl View for Task {
    type V = TaskView;

    open spec fn view(&self) -> TaskView {
        TaskView {
            name: self.task_name@,
            description: opt_view(self.task_description),
            link: opt_view(self.link),
        }
    }
}

impl Task {
    /// Build a task from its parts.
    pub fn new(task_name: String, task_description: Option<String>, link: Option<String>) -> (r: Self)
        ensures
            r@ == (TaskView { name: task_name@, description: opt_view(task_description), link: opt_view(link) }),
    {
        Task { task_name, task_description, link }
    }
}

impl Clone for Task {
    fn clone(&self) -> (r: Self)
        ensures
            r@ == self@,
    {
        Task {
            task_name: self.task_name.clone(),
            task_description: match &self.task_description {
                Some(d) => Some(d.clone()),
                None => None,
            },
            link: match &self.link {
                Some(l) => Some(l.clone()),
                None => None,
            },
        }
    }
}

/// A named collection of tasks with set semantics: no two tasks share a name.
pub struct Topic {
    pub tasks: Vec<Task>,
}

impl View for Topic {
    type V = Seq<TaskView>;

    open spec fn view(&self) -> Seq<TaskView> {
        self.tasks@.map_values(|t: Task| t@)
    }
}

/// Task names are pairwise distinct.
pub open spec fn task_names_unique(ts: Seq<TaskView>) -> bool {
    forall|i: int, j: int| 0 <= i < j < ts.len() ==> ts[i].name != ts[j].name
}

impl Topic {
    /// The uniqueness invariant of a topic.
    pub open spec fn wf(&self) -> bool {
        task_names_unique(self@)
    }

    /// The index of the task with the given name, if one is stored.
    fn find_task(&self, name: &String) -> (r: Option<usize>)
        ensures
            match r {
                Some(i) => i < self@.len() && self@[i as int].name == name@,
                None => forall|i: int| 0 <= i < self@.len() ==> self@[i].name != name@,
            },
    {
        let mut i: usize = 0;
        while i < self.tasks.len()
            invariant
                i <= self.tasks.len(),
                forall|j: int| 0 <= j < i ==> self@[j].name != name@,
            decreases self.tasks.len() - i,
        {
            if self.tasks[i].task_name == *name {
                return Some(i);
            }
            i = i + 1;
        }
        None
    }
}

/// One topic of the store, with its name.
pub struct TopicEntry {
    pub name: String,
    pub topic: Topic,
}

/// The mathematical value of a [`TopicEntry`].
pub ghost struct TopicEntryView {
    pub name: Seq<char>,
    pub tasks: Seq<TaskView>,
}

impl View for TopicEntry {
    type V = TopicEntryView;

    open spec fn view(&self) -> TopicEntryView {
        TopicEntryView { name: self.name@, tasks: self.topic@ }
    }
}

/// The root document: every topic of the store, in insertion order.
pub struct UserTasks {
    pub topics: Vec<TopicEntry>,
}

impl View for UserTasks {
    type V = Seq<TopicEntryView>;

    open spec fn view(&self) -> Seq<TopicEntryView> {
        self.topics@.map_values(|e: TopicEntry| e@)
    }
}

/// Topic names are pairwise distinct.
pub open spec fn topic_names_unique(es: Seq<TopicEntryView>) -> bool {
    forall|i: int, j: int| 0 <= i < j < es.len() ==> es[i].name != es[j].name
}

/// The store invariant: topic names unique, and every topic well formed.
pub open spec fn entries_wf(es: Seq<TopicEntryView>) -> bool {
    &&& topic_names_unique(es)
    &&& forall|i: int| 0 <= i < es.len() ==> task_names_unique(#[trigger] es[i].tasks)
}

impl UserTasks {
    /// The uniqueness invariant of the whole store.
    pub open spec fn wf(&self) -> bool {
        entries_wf(self@)
    }

    /// The index of the topic with the given name, if one is stored.
    pub(crate) fn find_topic(&self, name: &String) -> (r: Option<usize>)
        ensures
            match r {
                Some(i) => i < self@.len() && self@[i as int].name == name@,
                None => forall|i: int| 0 <= i < self@.len() ==> self@[i].name != name@,
            },
    {
        let mut i: usize = 0;
        while i < self.topics.len()
            invariant
                i <= self.topics.len(),
                forall|j: int| 0 <= j < i ==> self@[j].name != name@,
            decreases self.topics.len() - i,
        {
            if self.topics[i].name == *name {
                return Some(i);
            }
            i = i + 1;
        }
        None
    }
}

impl Topic {
    /// Insert a task, replacing any stored task of the same name.
    pub fn insert_task(&mut self, t: Task)
        requires
            old(self).wf(),
        ensures
            final(self).wf(),
            tasks_map(final(self)@) == tasks_map(old(self)@).insert(t@.name, t@),
    {
        let ghost pre = self@;
        match self.find_task(&t.task_name) {
            Some(j) => {
                let ghost tv = t@;
                self.tasks.set(j, t);
                proof {
                    assert(self@ =~= pre.update(j as int, tv));
                    assert(forall|i: int| 0 <= i < self@.len() ==> self@[i].name == pre[i].name);
                    assert(task_names_unique(self@));
                    lemma_tasks_map_update(pre, j as int, tv);
                }
            },
            None => {
                let ghost tv = t@;
                self.tasks.push(t);
                proof {
                    assert(self@ =~= pre.push(tv));
                    assert(task_names_unique(self@));
                    lemma_tasks_map_push(pre, tv);
                }
            },
        }
    }

    /// Remove the task with the given name; a no-op if none is stored.
    /// Matching is by name alone: the stored description and link do not matter.
    pub fn remove_task(&mut self, name: &String)
        requires
            old(self).wf(),
        ensures
            final(self).wf(),
            tasks_map(final(self)@) == tasks_map(old(self)@).remove(name@),
    {
        let ghost pre = self@;
        match self.find_task(name) {
            Some(j) => {
                self.tasks.remove(j);
                proof {
                    assert(self@ =~= pre.remove(j as int));
                    assert(forall|a: int, b: int| 0 <= a < b < self@.len() ==> self@[a].name != self@[b].name) by {
                        assert(forall|a: int| 0 <= a < self@.len() ==> self@[a] == (if a < j { pre[a] } else { pre[a + 1] }));
                    }
                    lemma_tasks_map_remove(pre, j as int);
                }
            },
            None => {
                proof {
                    lemma_tasks_map_dom(pre, name@);
                    assert(tasks_map(pre).remove(name@) =~= tasks_map(pre));
                }
            },
        }
    }
}

/// The tasks of a topic as a map from task name to task, later entries
/// winning (with `task_names_unique` there is no collision to win).
pub open spec fn tasks_map(ts: Seq<TaskView>) -> Map<Seq<char>, TaskView>
    decreases ts.len(),
{
    if ts.len() == 0 {
        Map::empty()
    } else {
        tasks_map(ts.drop_last()).insert(ts.last().name, ts.last())
    }
}

/// The whole store as a map from topic name to that topic's task map.
pub open spec fn store_map_of(es: Seq<TopicEntryView>) -> Map<Seq<char>, Map<Seq<char>, TaskView>>
    decreases es.len(),
{
    if es.len() == 0 {
        Map::empty()
    } else {
        store_map_of(es.drop_last()).insert(es.last().name, tasks_map(es.last().tasks))
    }
}

pub proof fn lemma_tasks_map_dom(ts: Seq<TaskView>, k: Seq<char>)
    ensures
        tasks_map(ts).contains_key(k) <==> exists|i: int| 0 <= i < ts.len() && ts[i].name == k,
    decreases ts.len(),
{
    if ts.len() > 0 {
        lemma_tasks_map_dom(ts.drop_last(), k);
        if ts.last().name == k {
            assert(ts[ts.len() - 1].name == k);
        } else if tasks_map(ts).contains_key(k) {
            let i = choose|i: int| 0 <= i < ts.drop_last().len() && ts.drop_last()[i].name == k;
            assert(ts[i].name == k);
        } else if exists|i: int| 0 <= i < ts.len() && ts[i].name == k {
            let i = choose|i: int| 0 <= i < ts.len() && ts[i].name == k;
            assert(ts.drop_last()[i].name == k);
        }
    }
}

pub proof fn lemma_tasks_map_at(ts: Seq<TaskView>, i: int)
    requires
        task_names_unique(ts),
        0 <= i < ts.len(),
    ensures
        tasks_map(ts).contains_key(ts[i].name),
        tasks_map(ts)[ts[i].name] == ts[i],
    decreases ts.len(),
{
    if i < ts.len() - 1 {
        assert(ts[i].name != ts.last().name);
        assert(task_names_unique(ts.drop_last()));
        lemma_tasks_map_at(ts.drop_last(), i);
    }
}

pub proof fn lemma_tasks_map_update(ts: Seq<TaskView>, i: int, t: TaskView)
    requires
        task_names_unique(ts),
        0 <= i < ts.len(),
        t.name == ts[i].name,
    ensures
        tasks_map(ts.update(i, t)) == tasks_map(ts).insert(t.name, t),
    decreases ts.len(),
{
    if i == ts.len() - 1 {
        assert(ts.update(i, t).drop_last() =~= ts.drop_last());
        assert(tasks_map(ts.update(i, t)) =~= tasks_map(ts).insert(t.name, t));
    } else {
        assert(ts.update(i, t).drop_last() =~= ts.drop_last().update(i, t));
        assert(task_names_unique(ts.drop_last()));
        lemma_tasks_map_update(ts.drop_last(), i, t);
        assert(ts[i].name != ts.last().name);
        assert(tasks_map(ts.update(i, t)) =~= tasks_map(ts).insert(t.name, t));
    }
}

pub proof fn lemma_tasks_map_push(ts: Seq<TaskView>, t: TaskView)
    ensures
        tasks_map(ts.push(t)) == tasks_map(ts).insert(t.name, t),
{
    assert(ts.push(t).drop_last() =~= ts);
    assert(tasks_map(ts.push(t)) =~= tasks_map(ts).insert(t.name, t));
}

pub proof fn lemma_tasks_map_remove(ts: Seq<TaskView>, i: int)
    requires
        task_names_unique(ts),
        0 <= i < ts.len(),
    ensures
        tasks_map(ts.remove(i)) == tasks_map(ts).remove(ts[i].name),
    decreases ts.len(),
{
    if i == ts.len() - 1 {
        assert(ts.remove(i) =~= ts.drop_last());
        lemma_tasks_map_dom(ts.drop_last(), ts[i].name);
        assert(forall|j: int| 0 <= j < ts.drop_last().len() ==> ts.drop_last()[j].name != ts[i].name);
        assert(!tasks_map(ts.drop_last()).contains_key(ts[i].name));
        assert(tasks_map(ts.remove(i)) =~= tasks_map(ts).remove(ts[i].name));
    } else {
        assert(ts.remove(i).drop_last() =~= ts.drop_last().remove(i));
        assert(ts.remove(i).last() == ts.last());
        assert(task_names_unique(ts.drop_last()));
        lemma_tasks_map_remove(ts.drop_last(), i);
        assert(ts[i].name != ts.last().name);
        assert(tasks_map(ts.remove(i)) =~= tasks_map(ts).remove(ts[i].name));
    }
}

pub proof fn lemma_store_map_dom(es: Seq<TopicEntryView>, k: Seq<char>)
    ensures
        store_map_of(es).contains_key(k) <==> exists|i: int| 0 <= i < es.len() && es[i].name == k,
    decreases es.len(),
{
    if es.len() > 0 {
        lemma_store_map_dom(es.drop_last(), k);
        if es.last().name == k {
            assert(es[es.len() - 1].name == k);
        } else if store_map_of(es).contains_key(k) {
            let i = choose|i: int| 0 <= i < es.drop_last().len() && es.drop_last()[i].name == k;
            assert(es[i].name == k);
        } else if exists|i: int| 0 <= i < es.len() && es[i].name == k {
            let i = choose|i: int| 0 <= i < es.len() && es[i].name == k;
            assert(es.drop_last()[i].name == k);
        }
    }
}

pub proof fn lemma_store_map_at(es: Seq<TopicEntryView>, i: int)
    requires
        topic_names_unique(es),
        0 <= i < es.len(),
    ensures
        store_map_of(es).contains_key(es[i].name),
        store_map_of(es)[es[i].name] == tasks_map(es[i].tasks),
    decreases es.len(),
{
    if i < es.len() - 1 {
        assert(es[i].name != es.last().name);
        assert(topic_names_unique(es.drop_last()));
        lemma_store_map_at(es.drop_last(), i);
    }
}

pub proof fn lemma_store_map_update(es: Seq<TopicEntryView>, i: int, e: TopicEntryView)
    requires
        topic_names_unique(es),
        0 <= i < es.len(),
        e.name == es[i].name,
    ensures
        store_map_of(es.update(i, e)) == store_map_of(es).insert(e.name, tasks_map(e.tasks)),
    decreases es.len(),
{
    if i == es.len() - 1 {
        assert(es.update(i, e).drop_last() =~= es.drop_last());
        assert(store_map_of(es.update(i, e)) =~= store_map_of(es).insert(e.name, tasks_map(e.tasks)));
    } else {
        assert(es.update(i, e).drop_last() =~= es.drop_last().update(i, e));
        assert(topic_names_unique(es.drop_last()));
        lemma_store_map_update(es.drop_last(), i, e);
        assert(es[i].name != es.last().name);
        assert(store_map_of(es.update(i, e)) =~= store_map_of(es).insert(e.name, tasks_map(e.tasks)));
    }
}

pub proof fn lemma_store_map_push(es: Seq<TopicEntryView>, e: TopicEntryView)
    ensures
        store_map_of(es.push(e)) == store_map_of(es).insert(e.name, tasks_map(e.tasks)),
{
    assert(es.push(e).drop_last() =~= es);
    assert(store_map_of(es.push(e)) =~= store_map_of(es).insert(e.name, tasks_map(e.tasks)));
}

pub proof fn lemma_store_map_remove(es: Seq<TopicEntryView>, i: int)
    requires
        topic_names_unique(es),
        0 <= i < es.len(),
    ensures
        store_map_of(es.remove(i)) == store_map_of(es).remove(es[i].name),
    decreases es.len(),
{
    if i == es.len() - 1 {
        assert(es.remove(i) =~= es.drop_last());
        lemma_store_map_dom(es.drop_last(), es[i].name);
        assert(forall|j: int| 0 <= j < es.drop_last().len() ==> es.drop_last()[j].name != es[i].name);
        assert(!store_map_of(es.drop_last()).contains_key(es[i].name));
        assert(store_map_of(es.remove(i)) =~= store_map_of(es).remove(es[i].name));
    } else {
        assert(es.remove(i).drop_last() =~= es.drop_last().remove(i));
        assert(es.remove(i).last() == es.last());
        assert(topic_names_unique(es.drop_last()));
        lemma_store_map_remove(es.drop_last(), i);
        assert(es[i].name != es.last().name);
        assert(store_map_of(es.remove(i)) =~= store_map_of(es).remove(es[i].name));
    }
}

/// The tasks of the topic with the given name, or the empty sequence when
/// no topic has it. With `topic_names_unique` the match is unambiguous.
pub open spec fn lookup_tasks(es: Seq<TopicEntryView>, k: Seq<char>) -> Seq<TaskView>
    decreases es.len(),
{
    if es.len() == 0 {
        Seq::empty()
    } else if es.last().name == k {
        es.last().tasks
    } else {
        lookup_tasks(es.drop_last(), k)
    }
}

pub proof fn lemma_lookup_at(es: Seq<TopicEntryView>, i: int)
    requires
        topic_names_unique(es),
        0 <= i < es.len(),
    ensures
        lookup_tasks(es, es[i].name) == es[i].tasks,
    decreases es.len(),
{
    if i < es.len() - 1 {
        assert(es[i].name != es.last().name);
        assert(topic_names_unique(es.drop_last()));
        lemma_lookup_at(es.drop_last(), i);
    }
}

/// The map the store assigns to a topic name is the task map of the tasks
/// that `lookup_tasks` finds for it.
pub proof fn lemma_store_map_lookup(es: Seq<TopicEntryView>, k: Seq<char>)
    requires
        topic_names_unique(es),
        store_map_of(es).contains_key(k),
    ensures
        store_map_of(es)[k] == tasks_map(lookup_tasks(es, k)),
    decreases es.len(),
{
    if es.len() > 0 && es.last().name != k {
        assert(topic_names_unique(es.drop_last()));
        lemma_store_map_dom(es, k);
        lemma_store_map_dom(es.drop_last(), k);
        let i = choose|i: int| 0 <= i < es.len() && es[i].name == k;
        assert(es.drop_last()[i].name == k);
        lemma_store_map_lookup(es.drop_last(), k);
    }
}

/// What creating a task does to the store, as a map: the topic's map gains
/// the task under its name (replacing any task of that name), and a missing
/// topic starts from the empty map.
pub open spec fn create_spec(
    m: Map<Seq<char>, Map<Seq<char>, TaskView>>,
    topic: Seq<char>,
    t: TaskView,
) -> Map<Seq<char>, Map<Seq<char>, TaskView>> {
    let base = if m.contains_key(topic) {
        m[topic]
    } else {
        Map::<Seq<char>, TaskView>::empty()
    };
    m.insert(topic, base.insert(t.name, t))
}

/// What deleting a task by name does to the store, as a map: the named topic
/// loses the key, whatever description or link the stored task carried; a
/// missing topic leaves the store unchanged.
pub open spec fn delete_task_spec(
    m: Map<Seq<char>, Map<Seq<char>, TaskView>>,
    topic: Seq<char>,
    name: Seq<char>,
) -> Map<Seq<char>, Map<Seq<char>, TaskView>> {
    if m.contains_key(topic) {
        m.insert(topic, m[topic].remove(name))
    } else {
        m
    }
}

/// The in-memory store, owner of every topic, mutated by one operation per
/// invocation of the surrounding tool.
pub struct TaskContainer {
    pub user_tasks: UserTasks,
}

impl View for TaskContainer {
    type V = Seq<TopicEntryView>;

    open spec fn view(&self) -> Seq<TopicEntryView> {
        self.user_tasks@
    }
}

impl TaskContainer {
    /// The store invariant.
    pub open spec fn wf(&self) -> bool {
        self.user_tasks.wf()
    }

    /// The store as a map from topic name to that topic's map of tasks.
    pub open spec fn store_map(&self) -> Map<Seq<char>, Map<Seq<char>, TaskView>> {
        store_map_of(self@)
    }

    /// The empty store.
    pub fn new() -> (r: Self)
        ensures
            r.wf(),
            r@ == Seq::<TopicEntryView>::empty(),
            r.store_map() == Map::<Seq<char>, Map<Seq<char>, TaskView>>::empty(),
    {
        let r = TaskContainer { user_tasks: UserTasks { topics: Vec::new() } };
        proof {
            assert(r@ =~= Seq::<TopicEntryView>::empty());
        }
        r
    }

    /// Add a topic with no tasks; a no-op if the name is already taken.
    pub fn add_empty_topic(&mut self, name: String)
        requires
            old(self).wf(),
        ensures
            final(self).wf(),
            final(self).store_map() == (if old(self).store_map().contains_key(name@) {
                old(self).store_map()
            } else {
                old(self).store_map().insert(name@, Map::<Seq<char>, TaskView>::empty())
            }),
    {
        let ghost pre = self@;
        match self.user_tasks.find_topic(&name) {
            Some(i) => {
                proof {
                    lemma_store_map_dom(pre, name@);
                }
            },
            None => {
                let e = TopicEntry { name, topic: Topic { tasks: Vec::new() } };
                let ghost ev = e@;
                self.user_tasks.topics.push(e);
                proof {
                    lemma_store_map_dom(pre, ev.name);
                    assert(self@ =~= pre.push(ev));
                    assert(entries_wf(self@));
                    lemma_store_map_push(pre, ev);
                    assert(ev.tasks =~= Seq::<TaskView>::empty());
                    assert(tasks_map(ev.tasks) =~= Map::<Seq<char>, TaskView>::empty());
                }
            },
        }
    }

    /// Create a task under a topic. A missing topic is created; a task whose
    /// name already exists under the topic is replaced entirely, the new
    /// description and link winning. Never fails.
    pub fn handle_create(
        &mut self,
        topic: String,
        task: String,
        task_description: Option<String>,
        link: Option<String>,
    ) -> (r: Result<(), TaskError>)
        requires
            old(self).wf(),
        ensures
            final(self).wf(),
            r is Ok,
            final(self).store_map() == create_spec(
                old(self).store_map(),
                topic@,
                TaskView { name: task@, description: opt_view(task_description), link: opt_view(link) },
            ),
    {
        let ghost pre = self@;
        let t = Task::new(task, task_description, link);
        let ghost tv = t@;
        match self.user_tasks.find_topic(&topic) {
            Some(i) => {
                proof {
                    lemma_store_map_dom(pre, topic@);
                    lemma_store_map_at(pre, i as int);
                }
                let mut e = self.user_tasks.topics.remove(i);
                e.topic.insert_task(t);
                let ghost ev = e@;
                self.user_tasks.topics.insert(i, e);
                proof {
                    assert(self@ =~= pre.update(i as int, ev));
                    assert(forall|a: int| 0 <= a < self@.len() ==> self@[a].name == pre[a].name);
                    assert(entries_wf(self@));
                    lemma_store_map_update(pre, i as int, ev);
                }
            },
            None => {
                let mut tp = Topic { tasks: Vec::new() };
                proof {
                    assert(tp@ =~= Seq::<TaskView>::empty());
                    assert(tasks_map(tp@) =~= Map::<Seq<char>, TaskView>::empty());
                }
                tp.insert_task(t);
                let e = TopicEntry { name: topic, topic: tp };
                let ghost ev = e@;
                self.user_tasks.topics.push(e);
                proof {
                    lemma_store_map_dom(pre, ev.name);
                    assert(self@ =~= pre.push(ev));
                    assert(entries_wf(self@));
                    lemma_store_map_push(pre, ev);
                }
            },
        }
        Ok(())
    }

    /// Delete a whole topic (when `task` is absent) or one task by name
    /// (when `task` is present). Deleting what does not exist is a no-op,
    /// not an error. Never fails.
    pub fn handle_delete(&mut self, topic: String, task: Option<String>) -> (r: Result<(), TaskError>)
        requires
            old(self).wf(),
        ensures
            final(self).wf(),
            r is Ok,
            match task {
                None => final(self).store_map() == old(self).store_map().remove(topic@),
                Some(name) => final(self).store_map() == delete_task_spec(old(self).store_map(), topic@, name@),
            },
    {
        let ghost pre = self@;
        match task {
            None => {
                match self.user_tasks.find_topic(&topic) {
                    Some(i) => {
                        self.user_tasks.topics.remove(i);
                        proof {
                            assert(self@ =~= pre.remove(i as int));
                            assert(forall|a: int, b: int|
                                0 <= a < b < self@.len() ==> self@[a].name != self@[b].name) by {
                                assert(forall|a: int| 0 <= a < self@.len()
                                    ==> self@[a] == (if a < i { pre[a] } else { pre[a + 1] }));
                            }
                            assert(forall|a: int| 0 <= a < self@.len()
                                ==> task_names_unique(#[trigger] self@[a].tasks)) by {
                                assert(forall|a: int| 0 <= a < self@.len()
                                    ==> self@[a] == (if a < i { pre[a] } else { pre[a + 1] }));
                            }
                            lemma_store_map_remove(pre, i as int);
                        }
                    },
                    None => {
                        proof {
                            lemma_store_map_dom(pre, topic@);
                            assert(store_map_of(pre).remove(topic@) =~= store_map_of(pre));
                        }
                    },
                }
            },
            Some(name) => {
                match self.user_tasks.find_topic(&topic) {
                    Some(i) => {
                        proof {
                            lemma_store_map_dom(pre, topic@);
                            lemma_store_map_at(pre, i as int);
                        }
                        let mut e = self.user_tasks.topics.remove(i);
                        e.topic.remove_task(&name);
                        let ghost ev = e@;
                        self.user_tasks.topics.insert(i, e);
                        proof {
                            assert(self@ =~= pre.update(i as int, ev));
                            assert(forall|a: int| 0 <= a < self@.len() ==> self@[a].name == pre[a].name);
                            assert(entries_wf(self@));
                            lemma_store_map_update(pre, i as int, ev);
                        }
                    },
                    None => {
                        proof {
                            lemma_store_map_dom(pre, topic@);
                        }
                    },
                }
            },
        }
        Ok(())
    }

    /// Suggest one task, drawn uniformly at random. An empty store and an
    /// empty topic yield no selection and no failure. A requested topic that
    /// exists scopes the draw to it; a requested topic that does not exist is
    /// silently ignored and a topic is drawn at random instead.
    pub fn handle_randomise(&self, topic: Option<String>) -> (r: Option<(String, Task)>)
        requires
            self.wf(),
        ensures
            self@.len() == 0 ==> r is None,
            self@.len() > 0 && (forall|i: int| 0 <= i < self@.len() ==> #[trigger] self@[i].tasks.len() > 0)
                ==> r is Some,
            r is None ==> self@.len() == 0
                || exists|i: int| 0 <= i < self@.len() && #[trigger] self@[i].tasks.len() == 0,
            r matches Some(sel) ==> self.store_map().contains_key(sel.0@)
                && self.store_map()[sel.0@].contains_key(sel.1@.name)
                && self.store_map()[sel.0@][sel.1@.name] == sel.1@,
            match topic {
                Some(t) => self.store_map().contains_key(t@) ==> {
                    &&& (r is None <==> self.store_map()[t@] == Map::<Seq<char>, TaskView>::empty())
                    &&& (r matches Some(sel) ==> sel.0@ == t@)
                },
                None => true,
            },
    {
        let n = self.user_tasks.topics.len();
        if n == 0 {
            proof {
                if topic is Some {
                    lemma_store_map_dom(self@, topic->Some_0@);
                }
            }
            return None;
        }
        let mut rng = fresh_rng();
        let idx = match &topic {
            Some(t) => {
                match self.user_tasks.find_topic(t) {
                    Some(i) => i,
                    None => {
                        proof {
                            lemma_store_map_dom(self@, t@);
                        }
                        gen_below(&mut rng, n)
                    },
                }
            },
            None => gen_below(&mut rng, n),
        };
        proof {
            lemma_store_map_at(self@, idx as int);
        }
        let e = &self.user_tasks.topics[idx];
        let m = e.topic.tasks.len();
        if m == 0 {
            proof {
                assert(self@[idx as int].tasks =~= Seq::<TaskView>::empty());
                assert(tasks_map(self@[idx as int].tasks) =~= Map::<Seq<char>, TaskView>::empty());
            }
            return None;
        }
        let j = gen_below(&mut rng, m);
        proof {
            lemma_tasks_map_at(self@[idx as int].tasks, j as int);
            if topic is Some && self.store_map().contains_key(topic->Some_0@) {
                lemma_store_map_dom(self@, topic->Some_0@);
            }
        }
        let task = e.topic.tasks[j].clone();
        let name = e.name.clone();
        Some((name, task))
    }
}

} // verus!
