use c2rust_core::backend::{select_backend, Backend};
use c2rust_core::loader::{BufferSet, FileSource, InteractiveFileLoader};
use c2rust_core::message::ToServer;
use c2rust_core::worker::{ToWorker, WorkerAction, WorkerState};

fn text(file: &str, content: &str) -> ToWorker {
    ToWorker::InputMessage {
        msg: ToServer::BufferText { file: file.to_string(), content: content.to_string() },
    }
}

fn need(path: &str, responder: u64) -> ToWorker {
    ToWorker::NeedFile { path: path.to_string(), responder }
}

#[test]
fn the_text_of_a_buffer_goes_to_the_loader_that_asked_once() {
    let mut worker = WorkerState::new();
    assert_eq!(worker.pending(), 0);
    assert_eq!(worker.handle_one(need("/w/a.rs", 1)), WorkerAction::AskClient { file: "/w/a.rs".to_string() });
    assert_eq!(worker.pending(), 1);
    assert_eq!(
        worker.handle_one(text("/w/a.rs", "fn main() {}")),
        WorkerAction::Respond { responder: 1, content: "fn main() {}".to_string() }
    );
    assert_eq!(worker.pending(), 0);
    assert_eq!(worker.handle_one(text("/w/a.rs", "again")), WorkerAction::Nothing);
}

#[test]
fn requests_for_one_file_are_answered_oldest_first() {
    let mut worker = WorkerState::new();
    worker.handle_one(need("/w/a.rs", 1));
    worker.handle_one(need("/w/b.rs", 2));
    worker.handle_one(need("/w/a.rs", 3));
    assert_eq!(worker.handle_one(text("/w/c.rs", "c")), WorkerAction::Nothing);
    assert_eq!(worker.pending(), 3);
    assert_eq!(
        worker.handle_one(text("/w/a.rs", "first")),
        WorkerAction::Respond { responder: 1, content: "first".to_string() }
    );
    assert_eq!(
        worker.handle_one(text("/w/a.rs", "second")),
        WorkerAction::Respond { responder: 3, content: "second".to_string() }
    );
    assert_eq!(
        worker.handle_one(text("/w/b.rs", "b")),
        WorkerAction::Respond { responder: 2, content: "b".to_string() }
    );
    assert_eq!(worker.pending(), 0);
}

#[test]
fn requests_of_the_client_go_to_the_session() {
    let mut worker = WorkerState::new();
    worker.handle_one(need("/w/a.rs", 1));
    for msg in [
        ToServer::GetMarkList,
        ToServer::RemoveMark { id: 3 },
        ToServer::SetBuffersAvailable { files: vec!["/w/a.rs".to_string()] },
    ] {
        assert_eq!(
            worker.handle_one(ToWorker::InputMessage { msg: msg.clone() }),
            WorkerAction::ToMain { msg }
        );
    }
    assert_eq!(worker.pending(), 1);
}

#[test]
fn backend_is_chosen_by_the_first_argument() {
    assert_eq!(select_backend(&vec![]), Backend::Plain);
    assert_eq!(select_backend(&vec!["vim8".to_string()]), Backend::Vim8);
    assert_eq!(select_backend(&vec!["vim8".to_string(), "x".to_string()]), Backend::Vim8);
    assert_eq!(select_backend(&vec!["plain".to_string()]), Backend::Plain);
    assert_eq!(select_backend(&vec!["Vim8".to_string()]), Backend::Plain);
    assert_eq!(select_backend(&vec!["x".to_string(), "vim8".to_string()]), Backend::Plain);
}

#[test]
fn loader_reads_from_the_editor_what_the_editor_holds() {
    let empty = InteractiveFileLoader::new(BufferSet::new());
    assert_eq!(empty.source_for(&"/w/a.rs".to_string()), FileSource::Disk);
    let set = BufferSet::from_canonical(vec![
        None,
        Some("/w/a.rs".to_string()),
        Some("/w/a.rs".to_string()),
        None,
    ]);
    assert!(set.contains(&"/w/a.rs".to_string()));
    assert!(!set.contains(&"/w/A.rs".to_string()));
    assert!(!set.contains(&"".to_string()));
    let copy = set.snapshot();
    let loader = InteractiveFileLoader::new(set);
    assert_eq!(loader.source_for(&"/w/a.rs".to_string()), FileSource::Editor);
    assert_eq!(loader.source_for(&"/w/b.rs".to_string()), FileSource::Disk);
    assert!(copy.contains(&"/w/a.rs".to_string()));
}
