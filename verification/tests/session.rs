use c2rust_core::loader::FileSource;
use c2rust_core::message::{MarkInfo, NodeSpan, ToClient, ToServer};
use c2rust_core::session::InteractState;
use c2rust_core::work::{CommandOutcome, Handled, Outcome, PickedNode, Work, WorkResult};

fn span(file: &str, start_line: u32, start_col: u32, end_line: u32, end_col: u32) -> NodeSpan {
    NodeSpan { file: file.to_string(), start_line, start_col, end_line, end_col }
}

fn add_mark(file: &str, line: u32, col: u32, kind: &str, label: &str) -> ToServer {
    ToServer::AddMark {
        file: file.to_string(),
        line,
        col,
        kind: kind.to_string(),
        label: label.to_string(),
    }
}

fn picked(id: usize, s: NodeSpan) -> WorkResult {
    WorkResult::Picked { node: Some(PickedNode { id, span: s }) }
}

#[test]
fn add_mark_replies_with_the_new_label_only() {
    let mut state = InteractState::new(vec!["a.rs".to_string()]);
    let msg = add_mark("a.rs", 3, 5, "Item", "x");
    assert_eq!(
        state.work_for(&msg),
        Work::PickNode { file: "a.rs".to_string(), line: 3, col: 5, kind: "Item".to_string() }
    );
    let out = state.handle_one(msg, picked(7, span("a.rs", 3, 1, 5, 2)));
    assert_eq!(out.outcome, Outcome::Done);
    assert_eq!(
        out.replies,
        vec![ToClient::Mark {
            info: MarkInfo {
                id: 7,
                file: "a.rs".to_string(),
                start_line: 3,
                start_col: 1,
                end_line: 5,
                end_col: 2,
                labels: vec!["x".to_string()],
            },
        }]
    );
    let again = state.handle_one(add_mark("a.rs", 3, 5, "Item", "target"), picked(7, span("a.rs", 3, 1, 5, 2)));
    match &again.replies[0] {
        ToClient::Mark { info } => assert_eq!(info.labels, vec!["target".to_string()]),
        other => panic!("unexpected reply {:?}", other),
    }
}

#[test]
fn add_mark_without_a_node_faults_and_keeps_the_marks() {
    let mut state = InteractState::new(vec![]);
    state.handle_one(add_mark("a.rs", 3, 5, "Item", "x"), picked(7, span("a.rs", 3, 1, 5, 2)));
    let replies = state.serve(add_mark("b.rs", 10, 2, "Expr", "y"), WorkResult::Picked { node: None });
    assert_eq!(replies, vec![ToClient::Error { text: "no Expr node at b.rs:10:2".to_string() }]);
    let list = state.serve(
        ToServer::GetMarkList,
        WorkResult::Spans { spans: vec![(7, span("a.rs", 3, 1, 5, 2))] },
    );
    assert_eq!(
        list,
        vec![ToClient::MarkList {
            infos: vec![MarkInfo {
                id: 7,
                file: "a.rs".to_string(),
                start_line: 3,
                start_col: 1,
                end_line: 5,
                end_col: 2,
                labels: vec!["x".to_string()],
            }],
        }]
    );
}

#[test]
fn command_that_changes_program_and_marks_sends_text_then_list() {
    let mut state = InteractState::new(vec![]);
    state.handle_one(add_mark("a.rs", 3, 5, "Item", "target"), picked(7, span("a.rs", 3, 1, 5, 2)));
    let msg = ToServer::RunCommand {
        name: "rename_item".to_string(),
        args: vec!["x".to_string(), "new_name".to_string()],
    };
    assert_eq!(
        state.work_for(&msg),
        Work::RunCommand {
            name: "rename_item".to_string(),
            args: vec!["x".to_string(), "new_name".to_string()],
            marks: vec![(7, "target".to_string())],
        }
    );
    let outcome = CommandOutcome {
        rewrites: Some(vec![
            ("<std macros>".to_string(), "ignored".to_string()),
            ("a.rs".to_string(), "fn new_name() {}\n".to_string()),
        ]),
        marks: Some(vec![(9, "target".to_string())]),
        spans: vec![(9, span("a.rs", 1, 0, 1, 16))],
    };
    let out: Handled = state.handle_one(msg, WorkResult::Command { outcome });
    assert_eq!(out.outcome, Outcome::Done);
    assert_eq!(
        out.replies,
        vec![
            ToClient::NewBufferText {
                file: "a.rs".to_string(),
                content: "fn new_name() {}\n".to_string(),
            },
            ToClient::MarkList {
                infos: vec![MarkInfo {
                    id: 9,
                    file: "a.rs".to_string(),
                    start_line: 1,
                    start_col: 0,
                    end_line: 1,
                    end_col: 16,
                    labels: vec!["target".to_string()],
                }],
            },
        ]
    );
    assert_eq!(state.current_marks().snapshot(), vec![(9, "target".to_string())]);
}

fn mark(id: usize, file: &str, labels: &[&str]) -> MarkInfo {
    MarkInfo {
        id,
        file: file.to_string(),
        start_line: 1,
        start_col: 0,
        end_line: 2,
        end_col: 0,
        labels: labels.iter().map(|l| l.to_string()).collect(),
    }
}

fn spans_for(ids: &[usize], file: &str) -> WorkResult {
    WorkResult::Spans { spans: ids.iter().map(|id| (*id, span(file, 1, 0, 2, 0))).collect() }
}

#[test]
fn labels_added_in_several_calls_come_back_sorted_and_once() {
    let mut state = InteractState::new(vec![]);
    for label in ["target", "dest", "target", "a", "dest"] {
        state.handle_one(add_mark("a.rs", 1, 1, "Item", label), picked(4, span("a.rs", 1, 0, 2, 0)));
    }
    state.handle_one(add_mark("a.rs", 9, 1, "Item", "zz"), picked(5, span("a.rs", 9, 0, 9, 4)));
    let msg = ToServer::GetMarkInfo { id: 4 };
    assert_eq!(state.work_for(&msg), Work::ResolveSpans { ids: vec![4] });
    let replies = state.serve(msg, spans_for(&[4], "a.rs"));
    assert_eq!(replies, vec![ToClient::Mark { info: mark(4, "a.rs", &["a", "dest", "target"]) }]);
}

#[test]
fn removed_node_has_no_labels_and_leaves_the_list() {
    let mut state = InteractState::new(vec![]);
    state.handle_one(add_mark("a.rs", 1, 1, "Item", "x"), picked(4, span("a.rs", 1, 0, 2, 0)));
    state.handle_one(add_mark("a.rs", 1, 1, "Item", "y"), picked(4, span("a.rs", 1, 0, 2, 0)));
    state.handle_one(add_mark("b.rs", 1, 1, "Item", "x"), picked(2, span("b.rs", 1, 0, 2, 0)));
    let msg = ToServer::RemoveMark { id: 4 };
    assert_eq!(state.work_for(&msg), Work::Nothing);
    let out = state.handle_one(msg, WorkResult::Nothing);
    assert_eq!(out, Handled { replies: vec![], outcome: Outcome::Done });
    let info = state.serve(ToServer::GetMarkInfo { id: 4 }, spans_for(&[4], "a.rs"));
    assert_eq!(info, vec![ToClient::Mark { info: mark(4, "a.rs", &[]) }]);
    assert_eq!(state.work_for(&ToServer::GetMarkList), Work::ResolveSpans { ids: vec![2] });
    let list = state.serve(ToServer::GetMarkList, spans_for(&[2], "b.rs"));
    assert_eq!(list, vec![ToClient::MarkList { infos: vec![mark(2, "b.rs", &["x"])] }]);
}

#[test]
fn mark_list_is_sorted_by_node_and_by_label() {
    let mut state = InteractState::new(vec![]);
    state.handle_one(add_mark("a.rs", 1, 1, "Item", "b"), picked(30, span("a.rs", 1, 0, 2, 0)));
    state.handle_one(add_mark("a.rs", 1, 1, "Item", "ab"), picked(3, span("a.rs", 1, 0, 2, 0)));
    state.handle_one(add_mark("a.rs", 1, 1, "Item", "a"), picked(3, span("a.rs", 1, 0, 2, 0)));
    state.handle_one(add_mark("a.rs", 1, 1, "Item", "B"), picked(3, span("a.rs", 1, 0, 2, 0)));
    assert_eq!(state.work_for(&ToServer::GetMarkList), Work::ResolveSpans { ids: vec![3, 30] });
    let list = state.serve(ToServer::GetMarkList, spans_for(&[30, 3], "a.rs"));
    assert_eq!(
        list,
        vec![ToClient::MarkList {
            infos: vec![mark(3, "a.rs", &["B", "a", "ab"]), mark(30, "a.rs", &["b"])],
        }]
    );
    assert_eq!(
        state.collect_mark_infos(&vec![(3, span("a.rs", 1, 0, 2, 0))]),
        Err(30)
    );
}

#[test]
fn the_first_span_given_for_a_node_is_used() {
    let mut state = InteractState::new(vec![]);
    state.handle_one(add_mark("a.rs", 1, 1, "Item", "x"), picked(3, span("a.rs", 1, 0, 2, 0)));
    let spans = vec![(9, span("z.rs", 7, 7, 7, 7)), (3, span("a.rs", 1, 2, 3, 4)), (3, span("b.rs", 5, 6, 7, 8))];
    let replies = state.serve(ToServer::GetMarkInfo { id: 3 }, WorkResult::Spans { spans });
    assert_eq!(
        replies,
        vec![ToClient::Mark {
            info: MarkInfo {
                id: 3,
                file: "a.rs".to_string(),
                start_line: 1,
                start_col: 2,
                end_line: 3,
                end_col: 4,
                labels: vec!["x".to_string()],
            },
        }]
    );
}

#[test]
fn set_buffers_available_replaces_the_set_and_is_idempotent() {
    let mut state = InteractState::new(vec![]);
    let files = vec!["a.rs".to_string(), "missing.rs".to_string(), "./b.rs".to_string()];
    let msg = ToServer::SetBuffersAvailable { files: files.clone() };
    assert_eq!(state.work_for(&msg), Work::Canonicalize { files: files.clone() });
    let paths = vec![Some("/w/a.rs".to_string()), None, Some("/w/b.rs".to_string())];
    let out = state.handle_one(msg.clone(), WorkResult::Canonical { paths: paths.clone() });
    assert_eq!(out, Handled { replies: vec![], outcome: Outcome::Done });
    let loader = state.make_file_loader();
    assert_eq!(loader.source_for(&"/w/a.rs".to_string()), FileSource::Editor);
    assert_eq!(loader.source_for(&"/w/b.rs".to_string()), FileSource::Editor);
    assert_eq!(loader.source_for(&"missing.rs".to_string()), FileSource::Disk);
    assert_eq!(loader.source_for(&"a.rs".to_string()), FileSource::Disk);
    let again = state.handle_one(msg, WorkResult::Canonical { paths });
    assert_eq!(again, Handled { replies: vec![], outcome: Outcome::Done });
    let same = state.make_file_loader();
    assert_eq!(same.source_for(&"/w/a.rs".to_string()), FileSource::Editor);
    assert_eq!(same.source_for(&"/w/b.rs".to_string()), FileSource::Editor);
    assert_eq!(same.source_for(&"/w/c.rs".to_string()), FileSource::Disk);
    state.handle_one(
        ToServer::SetBuffersAvailable { files: vec!["c.rs".to_string()] },
        WorkResult::Canonical { paths: vec![Some("/w/c.rs".to_string())] },
    );
    assert_eq!(loader.source_for(&"/w/a.rs".to_string()), FileSource::Editor);
    let replaced = state.make_file_loader();
    assert_eq!(replaced.source_for(&"/w/a.rs".to_string()), FileSource::Disk);
    assert_eq!(replaced.source_for(&"/w/c.rs".to_string()), FileSource::Editor);
}

fn rename(from: &str, to: &str) -> ToServer {
    ToServer::RunCommand {
        name: "rename_item".to_string(),
        args: vec![from.to_string(), to.to_string()],
    }
}

#[test]
fn replies_to_two_commands_keep_the_order_of_the_requests() {
    let first = CommandOutcome {
        rewrites: Some(vec![
            ("a.rs".to_string(), "one".to_string()),
            ("b.rs".to_string(), "two".to_string()),
        ]),
        marks: Some(vec![(1, "m".to_string())]),
        spans: vec![(1, span("a.rs", 1, 0, 2, 0))],
    };
    let second = CommandOutcome {
        rewrites: Some(vec![("a.rs".to_string(), "three".to_string())]),
        marks: None,
        spans: vec![],
    };
    let mut state = InteractState::new(vec![]);
    let replies = state.run_loop(vec![
        (rename("x", "y"), WorkResult::Command { outcome: first.clone() }),
        (rename("y", "z"), WorkResult::Command { outcome: second.clone() }),
    ]);
    assert_eq!(
        replies,
        vec![
            ToClient::NewBufferText { file: "a.rs".to_string(), content: "one".to_string() },
            ToClient::NewBufferText { file: "b.rs".to_string(), content: "two".to_string() },
            ToClient::MarkList { infos: vec![mark(1, "a.rs", &["m"])] },
            ToClient::NewBufferText { file: "a.rs".to_string(), content: "three".to_string() },
        ]
    );
    let mut one_by_one = InteractState::new(vec![]);
    let mut sent = one_by_one.serve(rename("x", "y"), WorkResult::Command { outcome: first });
    sent.extend(one_by_one.serve(rename("y", "z"), WorkResult::Command { outcome: second }));
    assert_eq!(sent, replies);
    assert_eq!(one_by_one.current_marks().snapshot(), state.current_marks().snapshot());
}

#[test]
fn a_command_that_changes_nothing_sends_nothing() {
    let mut state = InteractState::new(vec![]);
    state.handle_one(add_mark("a.rs", 1, 1, "Item", "x"), picked(3, span("a.rs", 1, 0, 2, 0)));
    let outcome = CommandOutcome { rewrites: None, marks: None, spans: vec![] };
    let out = state.handle_one(rename("x", "y"), WorkResult::Command { outcome });
    assert_eq!(out, Handled { replies: vec![], outcome: Outcome::Done });
    assert_eq!(state.current_marks().snapshot(), vec![(3, "x".to_string())]);
    let cleared = CommandOutcome { rewrites: None, marks: Some(vec![]), spans: vec![] };
    let out = state.handle_one(rename("x", "y"), WorkResult::Command { outcome: cleared });
    assert_eq!(
        out,
        Handled { replies: vec![ToClient::MarkList { infos: vec![] }], outcome: Outcome::Done }
    );
    assert_eq!(state.current_marks().snapshot(), vec![]);
}

#[test]
fn a_command_whose_marks_have_no_span_sends_the_texts_and_then_faults() {
    let mut state = InteractState::new(vec![]);
    let outcome = CommandOutcome {
        rewrites: Some(vec![("a.rs".to_string(), "text".to_string())]),
        marks: Some(vec![(12, "m".to_string()), (11, "m".to_string()), (12, "m".to_string())]),
        spans: vec![(11, span("a.rs", 1, 0, 2, 0))],
    };
    let out = state.handle_one(rename("x", "y"), WorkResult::Command { outcome: outcome.clone() });
    assert_eq!(
        out,
        Handled {
            replies: vec![ToClient::NewBufferText {
                file: "a.rs".to_string(),
                content: "text".to_string(),
            }],
            outcome: Outcome::Fault { message: Some("no span for node 12".to_string()) },
        }
    );
    assert_eq!(
        out.into_replies(),
        vec![
            ToClient::NewBufferText { file: "a.rs".to_string(), content: "text".to_string() },
            ToClient::Error { text: "no span for node 12".to_string() },
        ]
    );
    assert_eq!(
        state.current_marks().snapshot(),
        vec![(11, "m".to_string()), (12, "m".to_string())]
    );
}

#[test]
fn faults_become_error_replies_and_the_session_goes_on() {
    let mut state = InteractState::new(vec![]);
    state.handle_one(add_mark("a.rs", 1, 1, "Item", "x"), picked(3, span("a.rs", 1, 0, 2, 0)));
    let reserved = ToServer::BufferText { file: "a.rs".to_string(), content: "t".to_string() };
    assert_eq!(state.work_for(&reserved), Work::Nothing);
    assert_eq!(
        state.serve(reserved, WorkResult::Nothing),
        vec![ToClient::Error { text: "internal error: entered unreachable code".to_string() }]
    );
    assert_eq!(
        state.serve(rename("x", "y"), WorkResult::Panicked { message: Some("bad args".to_string()) }),
        vec![ToClient::Error { text: "bad args".to_string() }]
    );
    assert_eq!(
        state.serve(rename("x", "y"), WorkResult::Panicked { message: None }),
        vec![ToClient::Error { text: "An error occurred of unknown type".to_string() }]
    );
    assert_eq!(
        state.serve(ToServer::GetMarkList, WorkResult::Nothing),
        vec![ToClient::Error { text: "the work done does not answer the request".to_string() }]
    );
    assert_eq!(
        state.serve(ToServer::GetMarkInfo { id: 3 }, spans_for(&[4], "a.rs")),
        vec![ToClient::Error { text: "no span for node 3".to_string() }]
    );
    assert_eq!(
        state.serve(ToServer::GetMarkList, spans_for(&[3], "a.rs")),
        vec![ToClient::MarkList { infos: vec![mark(3, "a.rs", &["x"])] }]
    );
}

#[test]
fn new_state_holds_the_arguments_and_nothing_else() {
    let state = InteractState::new(vec!["--edition".to_string(), "2018".to_string()]);
    assert_eq!(state.rustc_args(), &vec!["--edition".to_string(), "2018".to_string()]);
    assert_eq!(state.current_marks().snapshot(), vec![]);
    assert_eq!(state.make_file_loader().source_for(&"/a.rs".to_string()), FileSource::Disk);
    assert_eq!(state.collect_mark_infos(&vec![]), Ok(vec![]));
}
