//! The worker between the transport and the session: it hands requests on
//! to the session and answers the file loader from the editor's buffers.
use crate::message::{ToServer, ToServerView};
use vstd::prelude::*;

verus! {

/// A message to the worker.
#[derive(Clone, Debug, PartialEq, Eq)]
pub enum ToWorker {
    /// A message of the client arrived on the transport.
    InputMessage { msg: ToServer },
    /// The file loader waits for the text of a file; `responder` names the
    /// one-shot channel on which it waits.
    NeedFile { path: String, responder: u64 },
}

/// The model of a [`ToWorker`].
pub enum ToWorkerView {
    InputMessage { msg: ToServerView },
    NeedFile { path: Seq<char>, responder: u64 },
}

impl DeepView for ToWorker {
    type V = ToWorkerView;

    open spec fn deep_view(&self) -> ToWorkerView {
        match self {
            ToWorker::InputMessage { msg } => ToWorkerView::InputMessage { msg: msg.deep_view() },
            ToWorker::NeedFile { path, responder } => ToWorkerView::NeedFile {
                path: path@,
                responder: *responder,
            },
        }
    }
}

/// What the worker does with one message.
#[derive(Clone, Debug, PartialEq, Eq)]
pub enum WorkerAction {
    /// Hand the request on to the session.
    ToMain { msg: ToServer },
    /// Ask the client for the text that it holds of the file.
    AskClient { file: String },
    /// Send the text on the responder, which is then used up.
    Respond { responder: u64, content: String },
    /// Nothing: a text arrived for which nobody waits.
    Nothing,
}

/// The model of a [`WorkerAction`].
pub enum WorkerActionView {
    ToMain { msg: ToServerView },
    AskClient { file: Seq<char> },
    Respond { responder: u64, content: Seq<char> },
    Nothing,
}

impl DeepView for WorkerAction {
    type V = WorkerActionView;

    open spec fn deep_view(&self) -> WorkerActionView {
        match self {
            WorkerAction::ToMain { msg } => WorkerActionView::ToMain { msg: msg.deep_view() },
            WorkerAction::AskClient { file } => WorkerActionView::AskClient { file: file@ },
            WorkerAction::Respond { responder, content } => WorkerActionView::Respond {
                responder: *responder,
                content: content@,
            },
            WorkerAction::Nothing => WorkerActionView::Nothing,
        }
    }
}

/// The place of the oldest request for `file` among `pending`, if there is one.
pub open spec fn oldest_request(pending: Seq<(Seq<char>, u64)>, file: Seq<char>) -> Option<int>
    decreases pending.len(),
{
    if pending.len() == 0 {
        None
    } else if pending[0].0 == file {
        Some(0int)
    } else {
        match oldest_request(pending.skip(1), file) {
            Some(k) => Some(k + 1),
            None => None,
        }
    }
}

/// What the worker does with `msg` when the requests `pending` wait for an
/// answer: the requests that wait afterwards, and the action.
pub open spec fn route(pending: Seq<(Seq<char>, u64)>, msg: ToWorkerView) -> (
    Seq<(Seq<char>, u64)>,
    WorkerActionView,
) {
    match msg {
        ToWorkerView::NeedFile { path, responder } => (
            pending.push((path, responder)),
            WorkerActionView::AskClient { file: path },
        ),
        ToWorkerView::InputMessage { msg: ToServerView::BufferText { file, content } } => {
            match oldest_request(pending, file) {
                Some(k) => (
                    pending.remove(k),
                    WorkerActionView::Respond { responder: pending[k].1, content },
                ),
                None => (pending, WorkerActionView::Nothing),
            }
        },
        ToWorkerView::InputMessage { msg } => (pending, WorkerActionView::ToMain { msg }),
    }
}

/// Where the oldest request for a file is, there is a request for it, and none before.
pub proof fn lemma_oldest_request(pending: Seq<(Seq<char>, u64)>, file: Seq<char>)
    ensures
        match oldest_request(pending, file) {
            Some(k) => 0 <= k < pending.len() && pending[k].0 == file && forall|j: int|
                0 <= j < k ==> (#[trigger] pending[j]).0 != file,
            None => forall|j: int| 0 <= j < pending.len() ==> (#[trigger] pending[j]).0 != file,
        },
    decreases pending.len(),
{
    if pending.len() > 0 && pending[0].0 != file {
        let rest = pending.skip(1);
        lemma_oldest_request(rest, file);
        match oldest_request(rest, file) {
            Some(k) => {
                assert forall|j: int| 0 <= j < k + 1 implies (#[trigger] pending[j]).0 != file by {
                    if j > 0 {
                        assert(rest[j - 1].0 != file);
                    }
                }
            },
            None => {
                assert forall|j: int| 0 <= j < pending.len() implies (#[trigger] pending[j]).0
                    != file by {
                    if j > 0 {
                        assert(rest[j - 1].0 != file);
                    }
                }
            },
        }
    }
}

/// The text that the client sends for a file goes to the loader that asked
/// for it, once: where no request for `path` waits, a request for it
/// followed by the client's text has the worker ask the client, then send
/// exactly that text on the request's responder, and leaves no request
/// behind, so a second text for the file reaches nobody.
pub proof fn lemma_text_reaches_requester(
    pending: Seq<(Seq<char>, u64)>,
    path: Seq<char>,
    responder: u64,
    content: Seq<char>,
)
    requires
        oldest_request(pending, path) is None,
    ensures
        ({
            let need = ToWorkerView::NeedFile { path, responder };
            let text = ToWorkerView::InputMessage {
                msg: ToServerView::BufferText { file: path, content },
            };
            let asked = route(pending, need);
            let answered = route(asked.0, text);
            &&& asked.1 == WorkerActionView::AskClient { file: path }
            &&& answered.1 == WorkerActionView::Respond { responder, content }
            &&& answered.0 == pending
            &&& route(answered.0, text).1 == WorkerActionView::Nothing
        }),
{
    let waiting = pending.push((path, responder));
    lemma_oldest_request(pending, path);
    lemma_oldest_request(waiting, path);
    let k = oldest_request(waiting, path);
    assert(waiting[pending.len() as int].0 == path);
    assert(k is Some);
    if k->0 < pending.len() {
        assert(pending[k->0] == waiting[k->0]);
    }
    assert(k->0 == pending.len());
    assert(waiting.remove(k->0) =~= pending);
}

/// The worker's state: the requests of the file loader that wait for an
/// answer of the client, oldest first.
pub struct WorkerState {
    pending_files: Vec<(String, u64)>,
}

impl View for WorkerState {
    type V = Seq<(Seq<char>, u64)>;

    closed spec fn view(&self) -> Seq<(Seq<char>, u64)> {
        self.pending_files.deep_view()
    }
}

impl WorkerState {
    /// The state of a worker that begins: no request waits.
    pub fn new() -> (w: WorkerState)
        ensures
            w@ == Seq::<(Seq<char>, u64)>::empty(),
    {
        let w = WorkerState { pending_files: Vec::new() };
        assert(w.pending_files.deep_view() =~= Seq::<(Seq<char>, u64)>::empty());
        w
    }

    /// How many requests wait.
    pub fn pending(&self) -> (n: usize)
        ensures
            n == self@.len(),
    {
        self.pending_files.len()
    }

    /// Takes one message: a request of the loader is noted and the client
    /// asked; a text of the client answers the oldest request for its
    /// file; every other message of the client goes to the session.
    pub fn handle_one(&mut self, msg: ToWorker) -> (action: WorkerAction)
        ensures
            (final(self)@, action.deep_view()) == route(old(self)@, msg.deep_view()),
    {
        match msg {
            ToWorker::NeedFile { path, responder } => {
                let ghost before = self.pending_files;
                let file = path.clone();
                self.pending_files.push((path, responder));
                assert(self.pending_files.deep_view() =~= before.deep_view().push(
                    (path@, responder),
                ));
                WorkerAction::AskClient { file }
            },
            ToWorker::InputMessage { msg: ToServer::BufferText { file, content } } => {
                let ghost pending = self.pending_files.deep_view();
                let n = self.pending_files.len();
                let mut i: usize = 0;
                assert(pending.skip(0) =~= pending);
                while i < n
                    invariant
                        n == self.pending_files.len(),
                        i <= n,
                        self.pending_files.deep_view() == pending,
                        pending == old(self)@,
                        msg.deep_view() == (ToWorkerView::InputMessage {
                            msg: ToServerView::BufferText { file: file@, content: content@ },
                        }),
                        oldest_request(pending, file@) == (match oldest_request(
                            pending.skip(i as int),
                            file@,
                        ) {
                            Some(k) => Some(k + i),
                            None => None,
                        }),
                    decreases n - i,
                {
                    assert(pending.skip(i as int).skip(1) =~= pending.skip(i + 1));
                    assert(pending.skip(i as int)[0] == pending[i as int]);
                    if self.pending_files[i].0 == file {
                        assert(oldest_request(pending, file@) == Some(i as int));
                        let waiting = self.pending_files.remove(i);
                        assert(waiting.1 == pending[i as int].1);
                        assert(self.pending_files.deep_view() =~= pending.remove(i as int));
                        return WorkerAction::Respond { responder: waiting.1, content };
                    }
                    i += 1;
                }
                WorkerAction::Nothing
            },
            ToWorker::InputMessage { msg } => WorkerAction::ToMain { msg },
        }
    }
}

} // verus!
