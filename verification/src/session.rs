//! The session: its state, the work that it needs for each request, and
//! how it answers once that work is done.
use crate::loader::{BufferSet, InteractiveFileLoader};
use crate::marks::MarkRegistry;
use crate::message::{MarkInfo, NodeSpan, ToClient, ToServer};
use crate::protocol::{
    add_mark, buffer_replies, first_unresolved, get_mark_info, get_mark_list, handle, id_list,
    info_of, is_synthetic, mark_list, no_node_text, no_span_text, run, run_command, sent, span_of,
    work_needed, SessionView,
};
use crate::text::push_digits;
use crate::views::{copy_texts, lemma_deep_append, lemma_deep_empty, lemma_deep_push, reversed};
use crate::work::{CommandOutcome, Handled, Outcome, PickedNode, Work, WorkResult};
use vstd::prelude::*;
use vstd::string::*;

verus! {

/// The first entry of `spans` for the node `id`.
pub fn find_span(spans: &Vec<(usize, NodeSpan)>, id: usize) -> (found: Option<&NodeSpan>)
    ensures
        found.deep_view() == span_of(spans.deep_view(), id),
{
    let ghost all = spans.deep_view();
    let n = spans.len();
    let mut i: usize = 0;
    assert(all.skip(0) =~= all);
    while i < n
        invariant
            n == spans.len(),
            i <= n,
            spans.deep_view() == all,
            span_of(all, id) == span_of(all.skip(i as int), id),
        decreases n - i,
    {
        assert(all.skip(i as int).skip(1) =~= all.skip(i + 1));
        if spans[i].0 == id {
            return Some(&spans[i].1);
        }
        i += 1;
    }
    None
}

/// Whether a file name stands for no real file.
pub fn synthetic(name: &String) -> (r: bool)
    ensures
        r == is_synthetic(name@),
{
    name.as_str().unicode_len() > 0 && name.as_str().get_char(0) == '<'
}

/// The replies that carry the new text of the changed files.
pub fn new_buffer_texts(files: &Vec<(String, String)>) -> (replies: Vec<ToClient>)
    ensures
        replies.deep_view() == buffer_replies(files.deep_view()),
{
    let ghost all = files.deep_view();
    let mut replies: Vec<ToClient> = Vec::new();
    let n = files.len();
    let mut i: usize = 0;
    proof {
        lemma_deep_empty(replies);
    }
    while i < n
        invariant
            n == files.len(),
            i <= n,
            files.deep_view() == all,
            replies.deep_view() == buffer_replies(all.take(i as int)),
        decreases n - i,
    {
        assert(all.take(i + 1).drop_last() =~= all.take(i as int));
        if !synthetic(&files[i].0) {
            let ghost before = replies;
            let reply = ToClient::NewBufferText {
                file: files[i].0.clone(),
                content: files[i].1.clone(),
            };
            replies.push(reply);
            proof {
                lemma_deep_push(before, replies, reply);
            }
        }
        i += 1;
    }
    assert(all.take(n as int) =~= all);
    replies
}

/// The text of the fault for an `AddMark` that finds no node.
pub fn no_node_message(kind: &String, file: &String, line: u32, col: u32) -> (text: String)
    ensures
        text@ == no_node_text(kind@, file@, line, col),
{
    let mut text = String::from_str("no ");
    text.append(kind.as_str());
    text.append(" node at ");
    text.append(file.as_str());
    text.append(":");
    push_digits(&mut text, line as u64, 10);
    text.append(":");
    push_digits(&mut text, col as u64, 10);
    text
}

/// The text of the fault for a marked node without a span.
pub fn no_span_message(id: usize) -> (text: String)
    ensures
        text@ == no_span_text(id),
{
    let mut text = String::from_str("no span for node ");
    push_digits(&mut text, id as u64, 10);
    text
}

/// The state of a session. One thread owns it from start to end.
pub struct InteractState {
    rustc_args: Vec<String>,
    buffers_available: BufferSet,
    current_marks: MarkRegistry,
}

impl View for InteractState {
    type V = SessionView;

    closed spec fn view(&self) -> SessionView {
        SessionView {
            rustc_args: self.rustc_args.deep_view(),
            buffers_available: self.buffers_available@,
            current_marks: self.current_marks@,
        }
    }
}

impl InteractState {
    /// The state is valid: the registry is.
    pub closed spec fn wf(&self) -> bool {
        self.current_marks.wf()
    }

    /// A session holds finitely many marks.
    pub proof fn lemma_marks_finite(&self)
        ensures
            self@.current_marks.finite(),
    {
        self.current_marks.lemma_finite();
    }

    /// The state of a session that begins: no marks, and no file in a buffer.
    pub fn new(rustc_args: Vec<String>) -> (s: InteractState)
        ensures
            s.wf(),
            s@ == (SessionView {
                rustc_args: rustc_args.deep_view(),
                buffers_available: Set::empty(),
                current_marks: Set::empty(),
            }),
    {
        InteractState {
            rustc_args,
            buffers_available: BufferSet::new(),
            current_marks: MarkRegistry::new(),
        }
    }

    /// The arguments that every compiler run is given.
    pub fn rustc_args(&self) -> (args: &Vec<String>)
        ensures
            args.deep_view() == self@.rustc_args,
    {
        &self.rustc_args
    }

    /// The marks.
    pub fn current_marks(&self) -> (marks: &MarkRegistry)
        requires
            self.wf(),
        ensures
            marks.wf(),
            marks@ == self@.current_marks,
    {
        &self.current_marks
    }

    /// The file loader for one compiler run: it holds a copy of the set of
    /// buffers, which later requests do not change.
    pub fn make_file_loader(&self) -> (loader: InteractiveFileLoader)
        ensures
            loader@ == self@.buffers_available,
    {
        InteractiveFileLoader::new(self.buffers_available.snapshot())
    }

    /// The work that `msg` needs before it can be handled.
    pub fn work_for(&self, msg: &ToServer) -> (work: Work)
        requires
            self.wf(),
        ensures
            work.deep_view() == work_needed(self@, msg.deep_view()),
    {
        match msg {
            ToServer::AddMark { file, line, col, kind, label } => Work::PickNode {
                file: file.clone(),
                line: *line,
                col: *col,
                kind: kind.clone(),
            },
            ToServer::RemoveMark { id } => Work::Nothing,
            ToServer::GetMarkInfo { id } => {
                let mut ids: Vec<usize> = Vec::new();
                ids.push(*id);
                assert(ids@ =~= seq![*id]);
                Work::ResolveSpans { ids }
            },
            ToServer::GetMarkList => Work::ResolveSpans { ids: self.current_marks.ids() },
            ToServer::SetBuffersAvailable { files } => Work::Canonicalize {
                files: copy_texts(files),
            },
            ToServer::RunCommand { name, args } => Work::RunCommand {
                name: name.clone(),
                args: copy_texts(args),
                marks: self.current_marks.snapshot(),
            },
            ToServer::BufferText { file, content } => Work::Nothing,
        }
    }

    /// What the client is told of every marked node, where `spans` says
    /// where each of them lies; otherwise the first marked node of which
    /// it does not.
    pub fn collect_mark_infos(&self, spans: &Vec<(usize, NodeSpan)>) -> (r: Result<
        Vec<MarkInfo>,
        usize,
    >)
        requires
            self.wf(),
        ensures
            match r {
                Ok(infos) => first_unresolved(id_list(self@.current_marks), spans.deep_view())
                    is None && infos.deep_view() == mark_list(
                    self@.current_marks,
                    spans.deep_view(),
                ),
                Err(id) => first_unresolved(id_list(self@.current_marks), spans.deep_view())
                    == Some(id),
            },
    {
        let ids = self.current_marks.ids();
        let ghost marks = self@.current_marks;
        let ghost places = spans.deep_view();
        let mut infos: Vec<MarkInfo> = Vec::new();
        let n = ids.len();
        let mut i: usize = 0;
        assert(ids@.skip(0) =~= ids@);
        while i < n
            invariant
                n == ids.len(),
                i <= n,
                self.wf(),
                marks == self@.current_marks,
                places == spans.deep_view(),
                ids@ == id_list(marks),
                first_unresolved(ids@, places) == first_unresolved(ids@.skip(i as int), places),
                infos.len() == i,
                forall|k: int|
                    0 <= k < i ==> (#[trigger] infos.deep_view()[k]) == info_of(
                        marks,
                        places,
                        ids@[k],
                    ),
            decreases n - i,
        {
            assert(ids@.skip(i as int).skip(1) =~= ids@.skip(i + 1));
            let id = ids[i];
            match find_span(spans, id) {
                None => {
                    return Err(id);
                },
                Some(span) => {
                    let labels = self.current_marks.get(id);
                    let ghost before = infos;
                    let info = MarkInfo::new(id, span, labels);
                    infos.push(info);
                    proof {
                        lemma_deep_push(before, infos, info);
                    }
                },
            }
            i += 1;
        }
        assert(infos.deep_view() =~= mark_list(marks, places));
        Ok(infos)
    }

    /// Answers `AddMark`, given the node that was found at the place, if any.
    pub fn add_mark(
        &mut self,
        file: &String,
        line: u32,
        col: u32,
        kind: &String,
        label: String,
        node: Option<PickedNode>,
    ) -> (out: Handled)
        requires
            old(self).wf(),
        ensures
            final(self).wf(),
            (final(self)@, out.deep_view()) == add_mark(
                old(self)@,
                file@,
                line,
                col,
                kind@,
                label@,
                node.deep_view(),
            ),
    {
        match node {
            Some(n) => {
                let mut labels: Vec<String> = Vec::new();
                labels.push(label.clone());
                assert(labels.deep_view() =~= seq![label@]);
                let info = MarkInfo::new(n.id, &n.span, labels);
                self.current_marks.add(n.id, label);
                let mut replies: Vec<ToClient> = Vec::new();
                let reply = ToClient::Mark { info };
                replies.push(reply);
                assert(replies.deep_view() =~= seq![reply.deep_view()]);
                Handled::done(replies)
            },
            None => Handled::fault(Some(no_node_message(kind, file, line, col))),
        }
    }

    /// Answers `GetMarkInfo`, given where the nodes lie.
    pub fn get_mark_info(&self, id: usize, spans: &Vec<(usize, NodeSpan)>) -> (out: Handled)
        requires
            self.wf(),
        ensures
            (self@, out.deep_view()) == get_mark_info(self@, id, spans.deep_view()),
    {
        match find_span(spans, id) {
            Some(span) => {
                let labels = self.current_marks.get(id);
                let info = MarkInfo::new(id, span, labels);
                let mut replies: Vec<ToClient> = Vec::new();
                let reply = ToClient::Mark { info };
                replies.push(reply);
                assert(replies.deep_view() =~= seq![reply.deep_view()]);
                Handled::done(replies)
            },
            None => Handled::fault(Some(no_span_message(id))),
        }
    }

    /// Answers `GetMarkList`, given where the nodes lie.
    pub fn get_mark_list(&self, spans: &Vec<(usize, NodeSpan)>) -> (out: Handled)
        requires
            self.wf(),
        ensures
            (self@, out.deep_view()) == get_mark_list(self@, spans.deep_view()),
    {
        match self.collect_mark_infos(spans) {
            Ok(infos) => {
                let mut replies: Vec<ToClient> = Vec::new();
                let reply = ToClient::MarkList { infos };
                replies.push(reply);
                assert(replies.deep_view() =~= seq![reply.deep_view()]);
                Handled::done(replies)
            },
            Err(id) => Handled::fault(Some(no_span_message(id))),
        }
    }

    /// Answers `RunCommand`, given what the command left behind.
    pub fn run_command(&mut self, outcome: CommandOutcome) -> (out: Handled)
        requires
            old(self).wf(),
        ensures
            final(self).wf(),
            (final(self)@, out.deep_view()) == run_command(old(self)@, outcome.deep_view()),
    {
        let mut replies: Vec<ToClient> = match &outcome.rewrites {
            Some(files) => new_buffer_texts(files),
            None => {
                let none: Vec<ToClient> = Vec::new();
                proof {
                    lemma_deep_empty(none);
                }
                none
            },
        };
        match &outcome.marks {
            None => Handled::done(replies),
            Some(marks) => {
                self.current_marks = MarkRegistry::from_pairs(marks);
                match self.collect_mark_infos(&outcome.spans) {
                    Ok(infos) => {
                        let ghost before = replies;
                        let reply = ToClient::MarkList { infos };
                        replies.push(reply);
                        proof {
                            lemma_deep_push(before, replies, reply);
                        }
                        Handled::done(replies)
                    },
                    Err(id) => Handled {
                        replies,
                        outcome: Outcome::Fault { message: Some(no_span_message(id)) },
                    },
                }
            },
        }
    }

    /// Handles one request, given the result of the work that it needed:
    /// changes the state as the request asks, and gives the replies to send.
    /// A request that fails leaves a fault in place of a reply and the
    /// state as it was when the fault arose.
    pub fn handle_one(&mut self, msg: ToServer, result: WorkResult) -> (out: Handled)
        requires
            old(self).wf(),
        ensures
            final(self).wf(),
            (final(self)@, out.deep_view()) == handle(
                old(self)@,
                msg.deep_view(),
                result.deep_view(),
            ),
    {
        match (msg, result) {
            (_, WorkResult::Panicked { message }) => Handled::fault(message),
            (ToServer::BufferText { file, content }, _) => Handled::fault(
                Some(String::from_str("internal error: entered unreachable code")),
            ),
            (
                ToServer::AddMark { file, line, col, kind, label },
                WorkResult::Picked { node },
            ) => self.add_mark(&file, line, col, &kind, label, node),
            (ToServer::RemoveMark { id }, WorkResult::Nothing) => {
                self.current_marks.remove(id);
                let replies: Vec<ToClient> = Vec::new();
                proof {
                    lemma_deep_empty(replies);
                }
                Handled::done(replies)
            },
            (ToServer::GetMarkInfo { id }, WorkResult::Spans { spans }) => self.get_mark_info(
                id,
                &spans,
            ),
            (ToServer::GetMarkList, WorkResult::Spans { spans }) => self.get_mark_list(&spans),
            (ToServer::SetBuffersAvailable { files }, WorkResult::Canonical { paths }) => {
                self.buffers_available = BufferSet::from_canonical(paths);
                let replies: Vec<ToClient> = Vec::new();
                proof {
                    lemma_deep_empty(replies);
                }
                Handled::done(replies)
            },
            (ToServer::RunCommand { name, args }, WorkResult::Command { outcome }) => {
                self.run_command(outcome)
            },
            _ => Handled::fault(
                Some(String::from_str("the work done does not answer the request")),
            ),
        }
    }

    /// Handles one request within the fault boundary: the replies to send
    /// for it, which end with an `Error` where the handling failed.
    pub fn serve(&mut self, msg: ToServer, result: WorkResult) -> (replies: Vec<ToClient>)
        requires
            old(self).wf(),
        ensures
            final(self).wf(),
            final(self)@ == handle(old(self)@, msg.deep_view(), result.deep_view()).0,
            replies.deep_view() == sent(
                handle(old(self)@, msg.deep_view(), result.deep_view()).1,
            ),
    {
        self.handle_one(msg, result).into_replies()
    }

    /// Serves the requests of `inbox` one after another, each to its end
    /// before the next begins, and gives all replies in the order in which
    /// they are sent.
    pub fn run_loop(&mut self, inbox: Vec<(ToServer, WorkResult)>) -> (replies: Vec<ToClient>)
        requires
            old(self).wf(),
        ensures
            final(self).wf(),
            (final(self)@, replies.deep_view()) == run(old(self)@, inbox.deep_view()),
    {
        let ghost all = inbox.deep_view();
        let ghost items = inbox@;
        let ghost start = self@;
        let mut rest = reversed(inbox);
        let mut replies: Vec<ToClient> = Vec::new();
        proof {
            lemma_deep_empty(replies);
        }
        while rest.len() > 0
            invariant
                self.wf(),
                all.len() == items.len(),
                forall|k: int| 0 <= k < items.len() ==> all[k] == #[trigger] items[k].deep_view(),
                rest.len() <= items.len(),
                forall|k: int| 0 <= k < rest.len() ==> rest@[k] == items[items.len() - 1 - k],
                (self@, replies.deep_view()) == run(start, all.take(items.len() - rest.len())),
            decreases rest.len(),
        {
            let ghost served = items.len() - rest.len();
            let (msg, result) = match rest.pop() {
                Some(next) => next,
                None => vstd::pervasive::unreached(),
            };
            proof {
                assert((msg, result) == items[served]);
                assert(all[served] == items[served].deep_view());
                assert(all.take(served + 1).drop_last() =~= all.take(served));
                assert(all.take(served + 1).last() == all[served]);
            }
            let mut batch = self.serve(msg, result);
            let ghost before = replies;
            let ghost more = batch;
            replies.append(&mut batch);
            proof {
                lemma_deep_append(before, more, replies);
            }
        }
        proof {
            assert(all.take(items.len() as int) =~= all);
        }
        replies
    }
}

} // verus!
