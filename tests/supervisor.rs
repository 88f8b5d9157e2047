use watch_supervisor::event::{translate, Event, RawEvent};
use watch_supervisor::registry::WatchEntry;
use watch_supervisor::supervisor::{Command, Failure, Outgoing, Request, Step, Supervisor};

fn s(text: &str) -> String {
    text.to_string()
}

fn watch(sup: &mut Supervisor, request_id: usize, watch_id: usize, root: &str) -> Step {
    sup.handle_request(Request::Watch { request_id, watch_id, root: Ok(s(root)) })
}

fn ok() -> Result<(), Failure> {
    Ok(())
}

fn failed(description: &str, detail: &str) -> Result<(), Failure> {
    Err(Failure { description: s(description), detail: s(detail) })
}

fn call_watch(root: &str) -> Step {
    Step::Call { command: Command::Watch { root: s(root) } }
}

fn call_unwatch(root: &str) -> Step {
    Step::Call { command: Command::Unwatch { root: s(root) } }
}

fn reply_ok(request_id: usize) -> Step {
    Step::Reply { message: Outgoing::OkResponse { request_id } }
}

fn reply_error(request_id: usize, description: &str) -> Step {
    Step::Reply { message: Outgoing::ErrorResponse { request_id, description: s(description) } }
}

fn watched(sup: &mut Supervisor, request_id: usize, watch_id: usize, root: &str) {
    let step = watch(sup, request_id, watch_id, root);
    if step == call_watch(root) {
        assert_eq!(sup.resume(ok()), reply_ok(request_id));
    } else {
        assert_eq!(step, reply_ok(request_id));
    }
}

#[test]
fn rename_within_root_is_renamed() {
    let raws = vec![RawEvent::Rename { old_path: s("/root/a"), new_path: s("/root/b") }];
    assert_eq!(
        translate(&s("/root"), &raws),
        vec![Event::Renamed { path: s("/root/b"), old_path: s("/root/a") }]
    );
}

#[test]
fn rename_out_of_root_is_deleted() {
    let raws = vec![RawEvent::Rename { old_path: s("/root/a"), new_path: s("/other/b") }];
    assert_eq!(translate(&s("/root"), &raws), vec![Event::Deleted { path: s("/root/a") }]);
}

#[test]
fn rename_into_root_is_created() {
    let raws = vec![RawEvent::Rename { old_path: s("/other/a"), new_path: s("/root/b") }];
    assert_eq!(translate(&s("/root"), &raws), vec![Event::Created { path: s("/root/b") }]);
}

#[test]
fn rename_outside_root_is_nothing() {
    let raws = vec![RawEvent::Rename { old_path: s("/other/a"), new_path: s("/other/b") }];
    assert_eq!(translate(&s("/root"), &raws), vec![]);
}

#[test]
fn simple_events_translate_in_order() {
    let raws = vec![
        RawEvent::Create { path: s("/root/a") },
        RawEvent::Write { path: s("/root/a") },
        RawEvent::Remove { path: s("/root/a") },
        RawEvent::Create { path: s("/elsewhere/a") },
        RawEvent::Error { description: s("boom"), path: Some(s("/root/a")) },
    ];
    assert_eq!(
        translate(&s("/root"), &raws),
        vec![
            Event::Created { path: s("/root/a") },
            Event::Modified { path: s("/root/a") },
            Event::Deleted { path: s("/root/a") },
            Event::Error { path: s("/root/a"), description: s("boom") },
        ]
    );
}

#[test]
fn root_boundary_is_by_whole_components() {
    let raws = vec![
        RawEvent::Create { path: s("/tmp/xy/f") },
        RawEvent::Create { path: s("/tmp/x/f") },
        RawEvent::Create { path: s("/tmp/x") },
    ];
    assert_eq!(
        translate(&s("/tmp/x"), &raws),
        vec![Event::Created { path: s("/tmp/x/f") }, Event::Created { path: s("/tmp/x") }]
    );
}

#[test]
fn metadata_only_events_are_silent() {
    let raws = vec![
        RawEvent::NoticeWrite { path: s("/root/a") },
        RawEvent::NoticeRemove { path: s("/root/a") },
        RawEvent::Chmod { path: s("/root/a") },
        RawEvent::Rescan,
    ];
    assert_eq!(translate(&s("/root"), &raws), vec![]);
    let mut sup = Supervisor::new(false);
    watched(&mut sup, 1, 10, "/root");
    assert_eq!(sup.notify(&raws), vec![]);
}

#[test]
fn unresolved_root_is_refused() {
    let mut sup = Supervisor::new(true);
    let step = sup.handle_request(Request::Watch {
        request_id: 5,
        watch_id: 1,
        root: Err(s("No such file or directory")),
    });
    assert_eq!(step, reply_error(5, "No such file or directory"));
    assert!(sup.is_idle());
    assert_eq!(sup.roots(), Vec::<String>::new());
}

#[test]
fn failed_watch_registers_nothing() {
    let mut sup = Supervisor::new(true);
    assert_eq!(watch(&mut sup, 1, 10, "/a"), call_watch("/a"));
    assert!(!sup.is_idle());
    assert_eq!(sup.resume(failed("denied", "Io(denied)")), reply_error(1, "denied"));
    assert!(sup.is_idle());
    assert_eq!(sup.roots(), Vec::<String>::new());
}

#[test]
fn shared_root_scenario() {
    let mut sup = Supervisor::new(true);
    assert_eq!(watch(&mut sup, 1, 10, "/tmp/x"), call_watch("/tmp/x"));
    assert_eq!(sup.resume(ok()), reply_ok(1));
    assert_eq!(watch(&mut sup, 2, 11, "/tmp/x"), reply_ok(2));
    assert_eq!(sup.roots(), vec![s("/tmp/x")]);
    assert_eq!(sup.ids_for(&s("/tmp/x")), Some(vec![10, 11]));

    let messages = sup.notify(&vec![RawEvent::Create { path: s("/tmp/x/new") }]);
    let created = vec![Event::Created { path: s("/tmp/x/new") }];
    assert_eq!(
        messages,
        vec![
            Outgoing::WatchEvents { watch_id: 10, events: created.clone() },
            Outgoing::WatchEvents { watch_id: 11, events: created },
        ]
    );

    assert_eq!(sup.handle_request(Request::Unwatch { request_id: 3, watch_id: 10 }), reply_ok(3));
    assert_eq!(sup.ids_for(&s("/tmp/x")), Some(vec![11]));
    assert_eq!(
        sup.handle_request(Request::Unwatch { request_id: 4, watch_id: 11 }),
        call_unwatch("/tmp/x")
    );
    assert_eq!(sup.resume(ok()), reply_ok(4));
    assert_eq!(sup.roots(), Vec::<String>::new());
}

#[test]
fn unknown_id_is_refused() {
    let mut sup = Supervisor::new(true);
    watched(&mut sup, 1, 10, "/a");
    assert_eq!(
        sup.handle_request(Request::Unwatch { request_id: 2, watch_id: 1234 }),
        reply_error(2, "No watch found for id: 1234")
    );
    assert_eq!(
        sup.handle_request(Request::Unwatch { request_id: 3, watch_id: 0 }),
        reply_error(3, "No watch found for id: 0")
    );
    assert_eq!(sup.roots(), vec![s("/a")]);
    assert_eq!(sup.ids_for(&s("/a")), Some(vec![10]));
}

#[test]
fn unwatch_all_unwatches_each_root() {
    let mut sup = Supervisor::new(true);
    watched(&mut sup, 1, 10, "/a");
    watched(&mut sup, 2, 11, "/b");
    watched(&mut sup, 3, 12, "/a");
    assert_eq!(sup.handle_request(Request::UnwatchAll { request_id: 4 }), call_unwatch("/a"));
    assert_eq!(sup.roots(), Vec::<String>::new());
    assert_eq!(sup.resume(ok()), call_unwatch("/b"));
    assert_eq!(sup.resume(ok()), reply_ok(4));
    assert!(sup.is_idle());
}

#[test]
fn unwatch_all_of_nothing_is_ok() {
    let mut sup = Supervisor::new(true);
    assert_eq!(sup.handle_request(Request::UnwatchAll { request_id: 9 }), reply_ok(9));
}

#[test]
fn unwatch_all_stops_at_first_failure() {
    let mut sup = Supervisor::new(true);
    watched(&mut sup, 1, 10, "/a");
    watched(&mut sup, 2, 11, "/b");
    assert_eq!(sup.handle_request(Request::UnwatchAll { request_id: 4 }), call_unwatch("/a"));
    assert_eq!(
        sup.resume(failed("gone", "WatchNotFound")),
        reply_error(4, "Error unwatching \"/a\": WatchNotFound")
    );
    assert!(sup.is_idle());
    assert_eq!(sup.roots(), Vec::<String>::new());
}

#[test]
fn descendants_are_rewatched() {
    let mut sup = Supervisor::new(true);
    watched(&mut sup, 1, 10, "/a");
    watched(&mut sup, 2, 11, "/a/b");
    watched(&mut sup, 3, 12, "/c");
    watched(&mut sup, 4, 13, "/a/d");
    assert_eq!(sup.handle_request(Request::Unwatch { request_id: 5, watch_id: 10 }), call_unwatch("/a"));
    assert_eq!(sup.resume(ok()), call_watch("/a/b"));
    assert_eq!(sup.resume(ok()), call_watch("/a/d"));
    assert_eq!(sup.resume(ok()), reply_ok(5));
    assert_eq!(sup.roots(), vec![s("/a/b"), s("/c"), s("/a/d")]);
}

#[test]
fn descendants_are_left_alone_without_the_quirk() {
    let mut sup = Supervisor::new(false);
    watched(&mut sup, 1, 10, "/a");
    watched(&mut sup, 2, 11, "/a/b");
    assert_eq!(sup.handle_request(Request::Unwatch { request_id: 5, watch_id: 10 }), call_unwatch("/a"));
    assert_eq!(sup.resume(ok()), reply_ok(5));
}

#[test]
fn failed_unwatch_still_removes_and_rewatches() {
    let mut sup = Supervisor::new(true);
    watched(&mut sup, 1, 10, "/a");
    watched(&mut sup, 2, 11, "/a/b");
    assert_eq!(sup.handle_request(Request::Unwatch { request_id: 5, watch_id: 10 }), call_unwatch("/a"));
    assert_eq!(sup.resume(failed("x", "Generic(\"x\")")), call_watch("/a/b"));
    assert_eq!(sup.resume(ok()), reply_error(5, "Error unwatching: Generic(\"x\")"));
    assert_eq!(sup.roots(), vec![s("/a/b")]);
}

#[test]
fn failed_rewatch_is_reported_and_entry_kept() {
    let mut sup = Supervisor::new(true);
    watched(&mut sup, 1, 10, "/a");
    watched(&mut sup, 2, 11, "/a/b");
    watched(&mut sup, 3, 12, "/a/c");
    assert_eq!(sup.handle_request(Request::Unwatch { request_id: 5, watch_id: 10 }), call_unwatch("/a"));
    assert_eq!(sup.resume(ok()), call_watch("/a/b"));
    assert_eq!(
        sup.resume(failed("y", "Io(y)")),
        reply_error(5, "Error re-watching descendant of unwatched directory: Io(y)")
    );
    assert!(sup.is_idle());
    assert_eq!(sup.roots(), vec![s("/a/b"), s("/a/c")]);
}

#[test]
fn unscoped_errors_are_process_wide() {
    let mut sup = Supervisor::new(true);
    watched(&mut sup, 1, 10, "/a");
    let messages = sup.notify(&vec![
        RawEvent::Error { description: s("overflow"), path: None },
        RawEvent::Write { path: s("/a/f") },
    ]);
    assert_eq!(
        messages,
        vec![
            Outgoing::WatchEvents { watch_id: 10, events: vec![Event::Modified { path: s("/a/f") }] },
            Outgoing::WatcherError { description: s("overflow") },
        ]
    );
}

#[test]
fn entry_fans_out_to_each_identifier() {
    let entry = WatchEntry { root: s("/r"), ids: vec![1, 2, 3] };
    let mut out = vec![Outgoing::OkResponse { request_id: 0 }];
    entry.notify(
        &vec![RawEvent::Create { path: s("/r/a") }, RawEvent::Remove { path: s("/q/a") }],
        &mut out,
    );
    let events = vec![Event::Created { path: s("/r/a") }];
    assert_eq!(
        out,
        vec![
            Outgoing::OkResponse { request_id: 0 },
            Outgoing::WatchEvents { watch_id: 1, events: events.clone() },
            Outgoing::WatchEvents { watch_id: 2, events: events.clone() },
            Outgoing::WatchEvents { watch_id: 3, events },
        ]
    );
    let mut none = Vec::new();
    entry.notify(&vec![RawEvent::Remove { path: s("/q/a") }], &mut none);
    assert_eq!(none, vec![]);
}
