use tasktrack::cli::{Cli, CommandOutput, Commands};
use tasktrack::codec::{parse_store, render_store};
use tasktrack::task_object::{TaskContainer, TaskError};

fn create(
    st: &mut TaskContainer,
    topic: &str,
    task: &str,
    description: Option<&str>,
    link: Option<&str>,
) {
    st.handle_create(
        topic.to_string(),
        task.to_string(),
        description.map(|s| s.to_string()),
        link.map(|s| s.to_string()),
    )
    .unwrap();
}

#[test]
fn create_then_read_scenario() {
    // create topic="work" task="ship" description="v1", then read topic="work"
    let mut st = TaskContainer::new();
    create(&mut st, "work", "ship", Some("v1"), None);
    let out = st.handle_read(Some("work".to_string()), None).unwrap();
    assert_eq!(
        out,
        "{\"tasks\":[{\"task_name\":\"ship\",\"task_description\":\"v1\",\"link\":null}]}"
    );
}

#[test]
fn create_then_read_whole_store() {
    let mut st = TaskContainer::new();
    create(&mut st, "work", "ship", Some("v1"), None);
    let out = st.handle_read(None, None).unwrap();
    assert_eq!(
        out,
        "{\"topic_hashmap\":{\"work\":{\"tasks\":[{\"task_name\":\"ship\",\"task_description\":\"v1\",\"link\":null}]}}}"
    );
}

#[test]
fn overwrite_keeps_one_task_with_second_description() {
    let mut st = TaskContainer::new();
    create(&mut st, "work", "ship", Some("first"), Some("http://a"));
    create(&mut st, "work", "ship", Some("second"), None);
    let out = st.handle_read(Some("work".to_string()), None).unwrap();
    assert_eq!(
        out,
        "{\"tasks\":[{\"task_name\":\"ship\",\"task_description\":\"second\",\"link\":null}]}"
    );
}

#[test]
fn delete_topic_then_read_fails_not_found() {
    let mut st = TaskContainer::new();
    create(&mut st, "work", "ship", Some("v1"), None);
    create(&mut st, "work", "plan", None, None);
    st.handle_delete("work".to_string(), None).unwrap();
    let r = st.handle_read(Some("work".to_string()), None);
    assert_eq!(r, Err(TaskError::NotFound));
}

#[test]
fn delete_task_by_name_ignores_other_fields() {
    // create {name: "x", desc: "a"}, delete {name: "x"} with no desc/link
    let mut st = TaskContainer::new();
    create(&mut st, "work", "x", Some("a"), None);
    st.handle_delete("work".to_string(), Some("x".to_string()))
        .unwrap();
    let out = st.handle_read(Some("work".to_string()), None).unwrap();
    assert_eq!(out, "{\"tasks\":[]}");
}

#[test]
fn emptied_topic_persists_as_empty() {
    let mut st = TaskContainer::new();
    create(&mut st, "work", "x", None, None);
    st.handle_delete("work".to_string(), Some("x".to_string()))
        .unwrap();
    // the topic is still there, empty, not NotFound
    assert!(st.handle_read(Some("work".to_string()), None).is_ok());
}

#[test]
fn delete_missing_topic_is_a_no_op() {
    // delete topic="work" on a store with no "work" topic
    let mut st = TaskContainer::new();
    create(&mut st, "home", "x", None, None);
    let before = st.handle_read(None, None).unwrap();
    assert!(st.handle_delete("work".to_string(), None).is_ok());
    let after = st.handle_read(None, None).unwrap();
    assert_eq!(before, after);
}

#[test]
fn delete_missing_task_is_a_no_op() {
    let mut st = TaskContainer::new();
    create(&mut st, "home", "x", None, None);
    let before = st.handle_read(None, None).unwrap();
    assert!(st
        .handle_delete("home".to_string(), Some("y".to_string()))
        .is_ok());
    assert!(st
        .handle_delete("away".to_string(), Some("x".to_string()))
        .is_ok());
    let after = st.handle_read(None, None).unwrap();
    assert_eq!(before, after);
}

#[test]
fn read_missing_topic_fails_not_found() {
    let st = TaskContainer::new();
    let r = st.handle_read(Some("missing".to_string()), None);
    assert_eq!(r, Err(TaskError::NotFound));
}

#[test]
fn randomise_on_empty_store_is_none() {
    let st = TaskContainer::new();
    assert!(st.handle_randomise(None).is_none());
    assert!(st.handle_randomise(Some("any".to_string())).is_none());
}

#[test]
fn randomise_on_empty_topic_is_none() {
    let mut st = TaskContainer::new();
    st.add_empty_topic("lonely".to_string());
    assert!(st.handle_randomise(None).is_none());
    assert!(st.handle_randomise(Some("lonely".to_string())).is_none());
}

#[test]
fn randomise_returns_existing_task_and_visits_all() {
    let mut st = TaskContainer::new();
    create(&mut st, "t", "a", None, None);
    create(&mut st, "t", "b", None, None);
    create(&mut st, "t", "c", None, None);
    let mut seen_a = false;
    let mut seen_b = false;
    let mut seen_c = false;
    for _ in 0..300 {
        let (topic, task) = st.handle_randomise(None).unwrap();
        assert_eq!(topic, "t");
        match task.task_name.as_str() {
            "a" => seen_a = true,
            "b" => seen_b = true,
            "c" => seen_c = true,
            other => panic!("selected a task that was never created: {other}"),
        }
    }
    assert!(seen_a && seen_b && seen_c);
}

#[test]
fn randomise_unknown_topic_falls_back_to_random_topic() {
    let mut st = TaskContainer::new();
    create(&mut st, "t", "a", None, None);
    let (topic, task) = st.handle_randomise(Some("missing".to_string())).unwrap();
    assert_eq!(topic, "t");
    assert_eq!(task.task_name, "a");
}

#[test]
fn randomise_known_topic_is_scoped_to_it() {
    let mut st = TaskContainer::new();
    create(&mut st, "t", "a", None, None);
    create(&mut st, "u", "b", None, None);
    for _ in 0..20 {
        let (topic, task) = st.handle_randomise(Some("u".to_string())).unwrap();
        assert_eq!(topic, "u");
        assert_eq!(task.task_name, "b");
    }
}

#[test]
fn empty_store_round_trip() {
    // the library half of load-missing-then-save: an empty store renders to
    // the default document, which parses back to the same empty structure
    let empty = TaskContainer::new();
    let doc = render_store(&empty);
    assert_eq!(doc, "{\"topic_hashmap\":{}}");
    let reloaded = match parse_store(&doc) {
        Ok(st) => st,
        Err(_) => panic!("the canonical rendering must parse"),
    };
    assert_eq!(render_store(&reloaded), doc);
    assert_eq!(reloaded.handle_read(None, None), empty.handle_read(None, None));
}

#[test]
fn full_store_round_trip_with_escapes() {
    let mut st = TaskContainer::new();
    create(&mut st, "al\"pha", "do \\ it", Some("say \"hi\""), Some("http://x"));
    create(&mut st, "al\"pha", "other", None, Some("y"));
    st.add_empty_topic("beta".to_string());
    create(&mut st, "gamma", "g", Some("desc"), None);
    let doc = render_store(&st);
    let reloaded = match parse_store(&doc) {
        Ok(st) => st,
        Err(_) => panic!("the canonical rendering must parse"),
    };
    assert_eq!(render_store(&reloaded), doc);
    assert_eq!(
        reloaded.handle_read(Some("al\"pha".to_string()), None),
        st.handle_read(Some("al\"pha".to_string()), None)
    );
}

#[test]
fn escaping_is_visible_in_the_document() {
    // would fail if the escaping step handed strings through unchanged
    let mut st = TaskContainer::new();
    create(&mut st, "t", "a\"b\\c", None, None);
    let doc = render_store(&st);
    assert!(doc.contains("a\\\"b\\\\c"));
}

#[test]
fn parse_rejects_corrupt_documents() {
    for doc in [
        "",
        "garbage",
        "{\"topic_hashmap\":{}",
        "{\"topic_hashmap\":{}} ",
        // whitespace is not part of the canonical rendering
        "{\"topic_hashmap\": {}}",
        // a duplicated topic cannot come from a well-formed store
        "{\"topic_hashmap\":{\"a\":{\"tasks\":[]},\"a\":{\"tasks\":[]}}}",
        // a duplicated task name cannot come from a well-formed topic
        "{\"topic_hashmap\":{\"a\":{\"tasks\":[{\"task_name\":\"x\",\"task_description\":null,\"link\":null},{\"task_name\":\"x\",\"task_description\":null,\"link\":null}]}}}",
    ] {
        assert!(matches!(parse_store(doc), Err(TaskError::CorruptStore)));
    }
}

#[test]
fn parse_accepts_canonical_documents() {
    let doc = "{\"topic_hashmap\":{\"work\":{\"tasks\":[{\"task_name\":\"ship\",\"task_description\":\"v1\",\"link\":null}]}}}";
    let st = match parse_store(doc) {
        Ok(st) => st,
        Err(_) => panic!("the canonical rendering must parse"),
    };
    assert_eq!(render_store(&st), doc);
    let out = st.handle_read(Some("work".to_string()), None).unwrap();
    assert_eq!(
        out,
        "{\"tasks\":[{\"task_name\":\"ship\",\"task_description\":\"v1\",\"link\":null}]}"
    );
}

#[test]
fn command_dispatch_covers_every_variant() {
    let mut st = TaskContainer::new();
    let cli = Cli {
        command: Commands::Create {
            topic: "work".to_string(),
            task: "ship".to_string(),
            task_description: Some("v1".to_string()),
            link: None,
        },
    };
    match st.handle_command(cli.command).unwrap() {
        CommandOutput::Done => {},
        _ => panic!("create reports nothing but completion"),
    }
    match st
        .handle_command(Commands::Read { topic: Some("work".to_string()), task: None })
        .unwrap()
    {
        CommandOutput::Rendered(text) => assert_eq!(
            text,
            "{\"tasks\":[{\"task_name\":\"ship\",\"task_description\":\"v1\",\"link\":null}]}"
        ),
        _ => panic!("read reports rendered text"),
    }
    match st
        .handle_command(Commands::Randomise { topic: None })
        .unwrap()
    {
        CommandOutput::Selection(Some((topic, task))) => {
            assert_eq!(topic, "work");
            assert_eq!(task.task_name, "ship");
        },
        _ => panic!("randomise on a non-empty store selects a task"),
    }
    match st
        .handle_command(Commands::Delete { topic: "work".to_string(), task: None })
        .unwrap()
    {
        CommandOutput::Done => {},
        _ => panic!("delete reports nothing but completion"),
    }
    assert!(matches!(
        st.handle_command(Commands::Read { topic: Some("work".to_string()), task: None }),
        Err(TaskError::NotFound)
    ));
}

#[test]
fn read_ignores_task_argument() {
    let mut st = TaskContainer::new();
    create(&mut st, "work", "ship", Some("v1"), None);
    let with_task = st
        .handle_read(Some("work".to_string()), Some("anything".to_string()))
        .unwrap();
    let without_task = st.handle_read(Some("work".to_string()), None).unwrap();
    assert_eq!(with_task, without_task);
}
