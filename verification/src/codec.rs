//! The storage document: a JSON rendering of the store, and its parser.
//!
//! The rendering is canonical: no insignificant whitespace, fields in a fixed
//! order, topics and tasks in their stored order, and only the two escapes
//! `\"` and `\\` inside strings. [`parse_store`] accepts exactly the
//! documents that re-render to the input text, so every accepted document is
//! the canonical rendering of the store it yields.

use vstd::prelude::*;
use vstd::string::{StrSliceExecFns, StringExecFns};

use crate::task_object::{
    lemma_lookup_at, lemma_store_map_dom, lookup_tasks, opt_view, Task, TaskContainer, TaskError,
    TaskView, Topic, TopicEntryView,
};

verus! {

/// How one character is written inside a quoted string.
pub open spec fn esc_char(c: char) -> Seq<char> {
    if c == '"' {
        seq!['\\', '"']
    } else if c == '\\' {
        seq!['\\', '\\']
    } else {
        seq![c]
    }
}

/// A string's characters with quotes and backslashes escaped.
pub open spec fn spec_escape(s: Seq<char>) -> Seq<char>
    decreases s.len(),
{
    if s.len() == 0 {
        Seq::empty()
    } else {
        spec_escape(s.drop_last()) + esc_char(s.last())
    }
}

/// A quoted, escaped string.
pub open spec fn spec_render_str(s: Seq<char>) -> Seq<char> {
    seq!['"'] + spec_escape(s) + seq!['"']
}

/// An optional string: `null` when absent, quoted when present.
pub open spec fn spec_render_opt(o: Option<Seq<char>>) -> Seq<char> {
    match o {
        Some(s) => spec_render_str(s),
        None => "null"@,
    }
}

/// One task as an object with its three fields in fixed order.
pub open spec fn spec_render_task(t: TaskView) -> Seq<char> {
    "{\"task_name\":"@ + spec_render_str(t.name) + ",\"task_description\":"@
        + spec_render_opt(t.description) + ",\"link\":"@ + spec_render_opt(t.link) + "}"@
}

/// A topic's tasks as a comma-separated array body, in stored order.
pub open spec fn spec_render_tasks(ts: Seq<TaskView>) -> Seq<char>
    decreases ts.len(),
{
    if ts.len() == 0 {
        Seq::empty()
    } else if ts.len() == 1 {
        spec_render_task(ts[0])
    } else {
        spec_render_tasks(ts.drop_last()) + ","@ + spec_render_task(ts.last())
    }
}

/// One topic as an object holding its task array.
pub open spec fn spec_render_topic(ts: Seq<TaskView>) -> Seq<char> {
    "{\"tasks\":["@ + spec_render_tasks(ts) + "]}"@
}

/// One store entry: the quoted topic name and the topic.
pub open spec fn spec_render_entry(e: TopicEntryView) -> Seq<char> {
    spec_render_str(e.name) + ":"@ + spec_render_topic(e.tasks)
}

/// The store's entries as a comma-separated object body, in stored order.
pub open spec fn spec_render_entries(es: Seq<TopicEntryView>) -> Seq<char>
    decreases es.len(),
{
    if es.len() == 0 {
        Seq::empty()
    } else if es.len() == 1 {
        spec_render_entry(es[0])
    } else {
        spec_render_entries(es.drop_last()) + ","@ + spec_render_entry(es.last())
    }
}

/// The whole document.
pub open spec fn spec_render_store(es: Seq<TopicEntryView>) -> Seq<char> {
    "{\"topic_hashmap\":{"@ + spec_render_entries(es) + "}}"@
}

/// Relies on String::push: appends exactly the one character.
#[verifier::external_body]
fn push_char(s: &mut String, c: char)
    ensures
        final(s)@ == old(s)@.push(c),
{
    s.push(c);
}

fn append_escaped(out: &mut String, s: &String)
    ensures
        final(out)@ == old(out)@ + spec_escape(s@),
{
    let len = s.as_str().unicode_len();
    let mut i: usize = 0;
    while i < len
        invariant
            i <= len,
            len == s@.len(),
            out@ == old(out)@ + spec_escape(s@.take(i as int)),
        decreases len - i,
    {
        let c = s.as_str().get_char(i);
        if c == '"' {
            push_char(out, '\\');
            push_char(out, '"');
        } else if c == '\\' {
            push_char(out, '\\');
            push_char(out, '\\');
        } else {
            push_char(out, c);
        }
        proof {
            assert(s@.take((i + 1) as int).drop_last() =~= s@.take(i as int));
            assert(s@.take((i + 1) as int).last() == s@[i as int]);
            assert(out@ =~= old(out)@ + spec_escape(s@.take((i + 1) as int)));
        }
        i = i + 1;
    }
    proof {
        assert(s@.take(len as int) =~= s@);
    }
}

fn append_quoted(out: &mut String, s: &String)
    ensures
        final(out)@ == old(out)@ + spec_render_str(s@),
{
    push_char(out, '"');
    append_escaped(out, s);
    push_char(out, '"');
    proof {
        assert(final(out)@ =~= old(out)@ + spec_render_str(s@));
    }
}

fn append_opt(out: &mut String, o: &Option<String>)
    ensures
        final(out)@ == old(out)@ + spec_render_opt(opt_view(*o)),
{
    match o {
        Some(s) => {
            append_quoted(out, s);
        },
        None => {
            out.append("null");
        },
    }
}

fn render_task_into(out: &mut String, t: &Task)
    ensures
        final(out)@ == old(out)@ + spec_render_task(t@),
{
    out.append("{\"task_name\":");
    append_quoted(out, &t.task_name);
    out.append(",\"task_description\":");
    append_opt(out, &t.task_description);
    out.append(",\"link\":");
    append_opt(out, &t.link);
    out.append("}");
    proof {
        assert(final(out)@ =~= old(out)@ + spec_render_task(t@));
    }
}

fn render_topic_into(out: &mut String, tp: &Topic)
    ensures
        final(out)@ == old(out)@ + spec_render_topic(tp@),
{
    out.append("{\"tasks\":[");
    let mut k: usize = 0;
    while k < tp.tasks.len()
        invariant
            k <= tp.tasks.len(),
            tp@.len() == tp.tasks.len(),
            out@ == old(out)@ + "{\"tasks\":["@ + spec_render_tasks(tp@.take(k as int)),
        decreases tp.tasks.len() - k,
    {
        if k > 0 {
            out.append(",");
        }
        render_task_into(out, &tp.tasks[k]);
        proof {
            assert(tp@.take((k + 1) as int).drop_last() =~= tp@.take(k as int));
            assert(tp@.take((k + 1) as int).last() == tp@[k as int]);
            assert(out@ =~= old(out)@ + "{\"tasks\":["@ + spec_render_tasks(tp@.take((k + 1) as int)));
        }
        k = k + 1;
    }
    proof {
        assert(tp@.take(tp@.len() as int) =~= tp@);
    }
    out.append("]}");
    proof {
        assert(final(out)@ =~= old(out)@ + spec_render_topic(tp@));
    }
}

/// Render one topic, as the read operation reports it.
pub fn render_topic(tp: &Topic) -> (r: String)
    ensures
        r@ == spec_render_topic(tp@),
{
    let mut out = String::new();
    render_topic_into(&mut out, tp);
    proof {
        assert(out@ =~= spec_render_topic(tp@));
    }
    out
}

/// Render the whole store as its storage document.
pub fn render_store(st: &TaskContainer) -> (r: String)
    ensures
        r@ == spec_render_store(st@),
{
    let mut out = String::new();
    out.append("{\"topic_hashmap\":{");
    let mut k: usize = 0;
    while k < st.user_tasks.topics.len()
        invariant
            k <= st.user_tasks.topics.len(),
            st@.len() == st.user_tasks.topics.len(),
            out@ == "{\"topic_hashmap\":{"@ + spec_render_entries(st@.take(k as int)),
        decreases st.user_tasks.topics.len() - k,
    {
        if k > 0 {
            out.append(",");
        }
        let e = &st.user_tasks.topics[k];
        append_quoted(&mut out, &e.name);
        out.append(":");
        render_topic_into(&mut out, &e.topic);
        proof {
            assert(st@.take((k + 1) as int).drop_last() =~= st@.take(k as int));
            assert(st@.take((k + 1) as int).last() == st@[k as int]);
            assert(out@ =~= "{\"topic_hashmap\":{"@ + spec_render_entries(st@.take((k + 1) as int)));
        }
        k = k + 1;
    }
    proof {
        assert(st@.take(st@.len() as int) =~= st@);
    }
    out.append("}}");
    proof {
        assert(out@ =~= spec_render_store(st@));
    }
    out
}

/// Whether `lit` stands at position `i` of the text; on success the
/// position just past it.
fn expect_lit(s: &str, len: usize, i: usize, lit: &str) -> (r: Option<usize>)
    requires
        i <= len,
        len == s@.len(),
    ensures
        r matches Some(j) ==> j == i + lit@.len() && j <= len
            && s@.subrange(i as int, j as int) == lit@,
        r is None ==> !(i + lit@.len() <= len
            && s@.subrange(i as int, i + lit@.len() as int) == lit@),
{
    let l = lit.unicode_len();
    if l > len - i {
        return None;
    }
    let mut k: usize = 0;
    while k < l
        invariant
            k <= l,
            i + l <= len,
            len == s@.len(),
            l == lit@.len(),
            forall|m: int| 0 <= m < k ==> s@[i + m] == lit@[m],
        decreases l - k,
    {
        if s.get_char(i + k) != lit.get_char(k) {
            proof {
                assert(s@.subrange(i as int, i + l as int)[k as int] != lit@[k as int]);
            }
            return None;
        }
        k = k + 1;
    }
    proof {
        assert(s@.subrange(i as int, (i + l) as int) =~= lit@);
    }
    Some(i + l)
}

/// Read a quoted string's body starting at `i` (just past the opening
/// quote), undoing the two escapes; on success the collected characters and
/// the position just past the closing quote.
fn parse_string_body(s: &str, len: usize, i: usize) -> (r: Option<(String, usize)>)
    requires
        i <= len,
        len == s@.len(),
    ensures
        r matches Some(p) ==> i < p.1 <= len,
{
    let mut out = String::new();
    let mut j = i;
    loop
        invariant
            i <= j <= len,
            len == s@.len(),
        decreases len - j,
    {
        if j >= len {
            return None;
        }
        let c = s.get_char(j);
        if c == '"' {
            return Some((out, j + 1));
        }
        if c == '\\' {
            if j + 1 >= len {
                return None;
            }
            let d = s.get_char(j + 1);
            if d == '"' || d == '\\' {
                push_char(&mut out, d);
                j = j + 2;
            } else {
                return None;
            }
        } else {
            push_char(&mut out, c);
            j = j + 1;
        }
    }
}

/// Read `null` or a quoted string starting at `i`.
fn parse_opt(s: &str, len: usize, i: usize) -> (r: Option<(Option<String>, usize)>)
    requires
        i <= len,
        len == s@.len(),
    ensures
        r matches Some(p) ==> i <= p.1 <= len,
{
    match expect_lit(s, len, i, "null") {
        Some(j) => Some((None, j)),
        None => {
            match expect_lit(s, len, i, "\"") {
                Some(j) => {
                    match parse_string_body(s, len, j) {
                        Some((body, j2)) => Some((Some(body), j2)),
                        None => None,
                    }
                },
                None => None,
            }
        },
    }
}

/// The facts about the default empty document that the parser's
/// completeness guarantee rests on.
proof fn lemma_empty_doc_shape()
    ensures
        spec_render_store(Seq::<TopicEntryView>::empty())
            =~= "{\"topic_hashmap\":{"@ + "}}"@,
        "{\"topic_hashmap\":{"@.len() == 18,
        "}}"@.len() == 2,
{
    reveal_strlit("{\"topic_hashmap\":{");
    reveal_strlit("}}");
    assert(spec_render_entries(Seq::<TopicEntryView>::empty()) =~= Seq::<char>::empty());
    assert(spec_render_store(Seq::<TopicEntryView>::empty())
        =~= "{\"topic_hashmap\":{"@ + "}}"@);
}

/// Read the document structure, building the store through its own insert
/// operations; the caller checks the result by re-rendering it. The default
/// empty document is always read back as the empty store.
fn parse_store_raw(s: &str) -> (r: Option<TaskContainer>)
    ensures
        r matches Some(st) ==> st.wf(),
        s@ == spec_render_store(Seq::<TopicEntryView>::empty())
            ==> (r matches Some(st) && st@ == Seq::<TopicEntryView>::empty()),
{
    let ghost empty_doc = spec_render_store(Seq::<TopicEntryView>::empty());
    let len = s.unicode_len();
    let mut st = TaskContainer::new();
    let mut i: usize;
    match expect_lit(s, len, 0, "{\"topic_hashmap\":{") {
        Some(j) => {
            proof {
                if s@ == empty_doc {
                    lemma_empty_doc_shape();
                    assert(j == "{\"topic_hashmap\":{"@.len());
                    assert(s@.len() == 20);
                    assert(j + 2 == len);
                }
            }
            i = j;
        },
        None => {
            proof {
                if s@ == empty_doc {
                    lemma_empty_doc_shape();
                    assert(s@.subrange(0, "{\"topic_hashmap\":{"@.len() as int)
                        =~= "{\"topic_hashmap\":{"@);
                    assert(false);
                }
            }
            return None;
        },
    }
    let mut first_topic = true;
    loop
        invariant
            i <= len,
            len == s@.len(),
            st.wf(),
            s@ == empty_doc ==> i + 2 == len && st@ == Seq::<TopicEntryView>::empty(),
            empty_doc == spec_render_store(Seq::<TopicEntryView>::empty()),
        decreases len - i,
    {
        let ghost i_entry = i;
        match expect_lit(s, len, i, "}}") {
            Some(j) => {
                proof {
                    if s@ == empty_doc {
                        lemma_empty_doc_shape();
                        assert(j == i + "}}"@.len());
                    }
                }
                if j == len {
                    return Some(st);
                }
                return None;
            },
            None => {
                proof {
                    if s@ == empty_doc {
                        lemma_empty_doc_shape();
                        assert(s@.subrange(i as int, i as int + 2) =~= "}}"@);
                        assert(false);
                    }
                }
            },
        }
        if !first_topic {
            match expect_lit(s, len, i, ",") {
                Some(j) => {
                    i = j;
                },
                None => {
                    return None;
                },
            }
        }
        first_topic = false;
        // one entry: quoted topic name, then its task array
        let topic_name: String;
        match expect_lit(s, len, i, "\"") {
            Some(j) => {
                match parse_string_body(s, len, j) {
                    Some((name, j2)) => {
                        topic_name = name;
                        i = j2;
                    },
                    None => {
                        return None;
                    },
                }
            },
            None => {
                return None;
            },
        }
        match expect_lit(s, len, i, ":{\"tasks\":[") {
            Some(j) => {
                i = j;
            },
            None => {
                return None;
            },
        }
        st.add_empty_topic(topic_name.clone());
        let mut first_task = true;
        let mut closed = false;
        loop
            invariant
                i_entry < i <= len,
                len == s@.len(),
                st.wf(),
                s@ != spec_render_store(Seq::<TopicEntryView>::empty()),
            ensures
                i_entry < i <= len,
                len == s@.len(),
                st.wf(),
                closed,
                s@ != spec_render_store(Seq::<TopicEntryView>::empty()),
            decreases len - i,
        {
            match expect_lit(s, len, i, "]}") {
                Some(j) => {
                    i = j;
                    closed = true;
                    break;
                },
                None => {},
            }
            if !first_task {
                match expect_lit(s, len, i, ",") {
                    Some(j) => {
                        i = j;
                    },
                    None => {
                        return None;
                    },
                }
            }
            first_task = false;
            let task_name: String;
            match expect_lit(s, len, i, "{\"task_name\":\"") {
                Some(j) => {
                    match parse_string_body(s, len, j) {
                        Some((name, j2)) => {
                            task_name = name;
                            i = j2;
                        },
                        None => {
                            return None;
                        },
                    }
                },
                None => {
                    return None;
                },
            }
            let description: Option<String>;
            match expect_lit(s, len, i, ",\"task_description\":") {
                Some(j) => {
                    match parse_opt(s, len, j) {
                        Some((o, j2)) => {
                            description = o;
                            i = j2;
                        },
                        None => {
                            return None;
                        },
                    }
                },
                None => {
                    return None;
                },
            }
            let link: Option<String>;
            match expect_lit(s, len, i, ",\"link\":") {
                Some(j) => {
                    match parse_opt(s, len, j) {
                        Some((o, j2)) => {
                            link = o;
                            i = j2;
                        },
                        None => {
                            return None;
                        },
                    }
                },
                None => {
                    return None;
                },
            }
            match expect_lit(s, len, i, "}") {
                Some(j) => {
                    i = j;
                },
                None => {
                    return None;
                },
            }
            let _ = st.handle_create(topic_name.clone(), task_name, description, link);
        }
    }
}

/// Parse a storage document. Exactly the canonical renderings are accepted:
/// on success the returned store is well formed and re-renders to the input
/// text, character for character; any other input fails with `CorruptStore`.
/// The default empty document always parses, to the empty store.
pub fn parse_store(s: &str) -> (r: Result<TaskContainer, TaskError>)
    ensures
        r matches Ok(st) ==> st.wf() && spec_render_store(st@) == s@,
        r matches Err(e) ==> e == TaskError::CorruptStore,
        s@ == spec_render_store(Seq::<TopicEntryView>::empty())
            ==> (r matches Ok(st) && st@ == Seq::<TopicEntryView>::empty()),
{
    match parse_store_raw(s) {
        Some(st) => {
            let rendered = render_store(&st);
            let owned = s.to_owned();
            if rendered == owned {
                Ok(st)
            } else {
                Err(TaskError::CorruptStore)
            }
        },
        None => Err(TaskError::CorruptStore),
    }
}

impl TaskContainer {
    /// Render a view for the caller: the named topic when `topic` is given
    /// (failing with `NotFound` exactly when the store has no such topic),
    /// the whole store otherwise. The `task` argument is not consulted.
    pub fn handle_read(&self, topic: Option<String>, task: Option<String>) -> (r: Result<
        String,
        TaskError,
    >)
        requires
            self.wf(),
        ensures
            match topic {
                Some(t) => {
                    &&& (r is Ok <==> self.store_map().contains_key(t@))
                    &&& (r matches Ok(out) ==> out@ == spec_render_topic(lookup_tasks(self@, t@)))
                    &&& (r matches Err(e) ==> e == TaskError::NotFound)
                },
                None => r matches Ok(out) && out@ == spec_render_store(self@),
            },
    {
        let _ = task;
        match &topic {
            Some(t) => {
                match self.user_tasks.find_topic(t) {
                    Some(i) => {
                        proof {
                            lemma_store_map_dom(self@, t@);
                            lemma_lookup_at(self@, i as int);
                        }
                        Ok(render_topic(&self.user_tasks.topics[i].topic))
                    },
                    None => {
                        proof {
                            lemma_store_map_dom(self@, t@);
                        }
                        Err(TaskError::NotFound)
                    },
                }
            },
            None => Ok(render_store(self)),
        }
    }
}

} // verus!
