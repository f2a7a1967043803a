//! General properties of the store operations, stated and proved over the
//! map model that the operations' contracts use.

use vstd::prelude::*;

use crate::task_object::{
    create_spec, delete_task_spec, entries_wf, lemma_store_map_lookup, lookup_tasks, store_map_of,
    tasks_map, TaskView, TopicEntryView,
};

verus! {

/// Creating a task and then reading its topic succeeds: the topic is in the
/// store and holds exactly that task under its name. Together with
/// `handle_create`'s and `handle_read`'s contracts this is the
/// create-then-read round trip, for every topic, name, description and link.
pub proof fn lemma_create_then_read(
    m: Map<Seq<char>, Map<Seq<char>, TaskView>>,
    topic: Seq<char>,
    t: TaskView,
)
    ensures
        create_spec(m, topic, t).contains_key(topic),
        create_spec(m, topic, t)[topic].contains_key(t.name),
        create_spec(m, topic, t)[topic][t.name] == t,
{
}

/// The view that a read renders is the right one: after any operation that
/// leaves the store well formed with the created task in place, the topic
/// that `handle_read` looks up holds exactly that task under its name. This
/// carries the create-then-read round trip from the store map down to the
/// task sequence whose rendering the read returns.
pub proof fn lemma_created_task_in_read_view(
    pre: Seq<TopicEntryView>,
    post: Seq<TopicEntryView>,
    topic: Seq<char>,
    t: TaskView,
)
    requires
        entries_wf(post),
        store_map_of(post) == create_spec(store_map_of(pre), topic, t),
    ensures
        tasks_map(lookup_tasks(post, topic)).contains_key(t.name),
        tasks_map(lookup_tasks(post, topic))[t.name] == t,
{
    lemma_store_map_lookup(post, topic);
}

/// Creating the same task name twice under one topic is an overwrite: the
/// store is as if only the second create had happened, so exactly one task
/// stands under that name, with the second description and link.
pub proof fn lemma_overwrite(
    m: Map<Seq<char>, Map<Seq<char>, TaskView>>,
    topic: Seq<char>,
    t1: TaskView,
    t2: TaskView,
)
    requires
        t1.name == t2.name,
    ensures
        create_spec(create_spec(m, topic, t1), topic, t2) == create_spec(m, topic, t2),
        create_spec(create_spec(m, topic, t1), topic, t2)[topic][t2.name] == t2,
{
    assert(create_spec(create_spec(m, topic, t1), topic, t2) =~~= create_spec(m, topic, t2));
}

/// Deleting a topic removes it and all its tasks: the store no longer has
/// the key, so a later read of that topic fails with `NotFound` by
/// `handle_read`'s contract.
pub proof fn lemma_delete_topic_then_read(
    m: Map<Seq<char>, Map<Seq<char>, TaskView>>,
    topic: Seq<char>,
)
    ensures
        !m.remove(topic).contains_key(topic),
{
}

/// Deleting by name alone undoes a create: whatever description and link the
/// task was created with, and none supplied to the delete, the name is gone
/// from the topic afterwards.
pub proof fn lemma_delete_by_name(
    m: Map<Seq<char>, Map<Seq<char>, TaskView>>,
    topic: Seq<char>,
    t: TaskView,
)
    ensures
        delete_task_spec(create_spec(m, topic, t), topic, t.name).contains_key(topic),
        !delete_task_spec(create_spec(m, topic, t), topic, t.name)[topic].contains_key(t.name),
{
}

} // verus!
