//! What the session does with a request, stated over the models of its
//! state and of the messages.
use crate::listing::listing;
use crate::loader::canonical_set;
use crate::marks::{id_order, labels_of, mark_order, marked_ids, without};
use crate::message::{mark_info, MarkInfoView, NodeSpanView, ToClientView, ToServerView};
use crate::text::{digits, label_order};
use crate::work::{
    CommandOutcomeView, HandledView, OutcomeView, PickedNodeView, WorkResultView, WorkView,
};
use vstd::prelude::*;

verus! {

/// The text of the fault for an `AddMark` that finds no node.
pub open spec fn no_node_text(kind: Seq<char>, file: Seq<char>, line: u32, col: u32) -> Seq<char> {
    "no "@ + kind + " node at "@ + file + ":"@ + digits(line as nat, 10) + ":"@ + digits(
        col as nat,
        10,
    )
}

/// The text of the fault for a marked node whose span the compiler did not give.
pub open spec fn no_span_text(id: usize) -> Seq<char> {
    "no span for node "@ + digits(id as nat, 10)
}

/// The text of the fault for a message that must never reach the session.
pub open spec fn reserved_text() -> Seq<char> {
    "internal error: entered unreachable code"@
}

/// The text of the fault for work that does not belong to the request.
pub open spec fn mismatch_text() -> Seq<char> {
    "the work done does not answer the request"@
}

/// The text of the reply for a fault that left no message.
pub open spec fn unknown_fault_text() -> Seq<char> {
    "An error occurred of unknown type"@
}

/// A handling that failed with the given message and sent nothing.
pub open spec fn fault(message: Option<Seq<char>>) -> HandledView {
    HandledView { replies: Seq::empty(), outcome: OutcomeView::Fault { message } }
}

/// A handling that went well and sent `replies`.
pub open spec fn done(replies: Seq<ToClientView>) -> HandledView {
    HandledView { replies, outcome: OutcomeView::Done }
}

/// The span that `spans` gives for the node `id`: that of the first entry for it.
pub open spec fn span_of(spans: Seq<(usize, NodeSpanView)>, id: usize) -> Option<NodeSpanView>
    decreases spans.len(),
{
    if spans.len() == 0 {
        None
    } else if spans[0].0 == id {
        Some(spans[0].1)
    } else {
        span_of(spans.skip(1), id)
    }
}

/// The first of `ids` for which `spans` gives no span.
pub open spec fn first_unresolved(ids: Seq<usize>, spans: Seq<(usize, NodeSpanView)>) -> Option<
    usize,
>
    decreases ids.len(),
{
    if ids.len() == 0 {
        None
    } else if span_of(spans, ids[0]) is None {
        Some(ids[0])
    } else {
        first_unresolved(ids.skip(1), spans)
    }
}

/// The marked nodes in increasing order.
pub open spec fn id_list(marks: Set<(usize, Seq<char>)>) -> Seq<usize> {
    listing(marked_ids(marks), id_order())
}

/// The labels of a node in lexicographic order.
pub open spec fn label_list(marks: Set<(usize, Seq<char>)>, id: usize) -> Seq<Seq<char>> {
    listing(labels_of(marks, id), label_order())
}

/// What the client is told of the node `id`.
pub open spec fn info_of(
    marks: Set<(usize, Seq<char>)>,
    spans: Seq<(usize, NodeSpanView)>,
    id: usize,
) -> MarkInfoView {
    mark_info(id, span_of(spans, id).unwrap(), label_list(marks, id))
}

/// The list of all marked nodes: one entry for each, by increasing id, each
/// with its labels in lexicographic order.
pub open spec fn mark_list(
    marks: Set<(usize, Seq<char>)>,
    spans: Seq<(usize, NodeSpanView)>,
) -> Seq<MarkInfoView> {
    let ids = id_list(marks);
    Seq::new(ids.len(), |i: int| info_of(marks, spans, ids[i]))
}

/// A file name that stands for no real file.
pub open spec fn is_synthetic(name: Seq<char>) -> bool {
    name.len() > 0 && name[0] == '<'
}

/// The replies that carry the new text of the changed files: one for each
/// real file, in the order given.
pub open spec fn buffer_replies(files: Seq<(Seq<char>, Seq<char>)>) -> Seq<ToClientView>
    decreases files.len(),
{
    if files.len() == 0 {
        Seq::empty()
    } else {
        let rest = buffer_replies(files.drop_last());
        let f = files.last();
        if is_synthetic(f.0) {
            rest
        } else {
            rest.push(ToClientView::NewBufferText { file: f.0, content: f.1 })
        }
    }
}

/// The model of the session's state.
pub struct SessionView {
    /// The arguments that every compiler run is given.
    pub rustc_args: Seq<Seq<char>>,
    /// The canonical paths of the files that the editor holds.
    pub buffers_available: Set<Seq<char>>,
    /// The marks.
    pub current_marks: Set<(usize, Seq<char>)>,
}

/// The work that the request `msg` needs in the state `s`.
pub open spec fn work_needed(s: SessionView, msg: ToServerView) -> WorkView {
    match msg {
        ToServerView::AddMark { file, line, col, kind, label } => WorkView::PickNode {
            file,
            line,
            col,
            kind,
        },
        ToServerView::RemoveMark { id } => WorkView::Nothing,
        ToServerView::GetMarkInfo { id } => WorkView::ResolveSpans { ids: seq![id] },
        ToServerView::GetMarkList => WorkView::ResolveSpans { ids: id_list(s.current_marks) },
        ToServerView::SetBuffersAvailable { files } => WorkView::Canonicalize { files },
        ToServerView::RunCommand { name, args } => WorkView::RunCommand {
            name,
            args,
            marks: listing(s.current_marks, mark_order()),
        },
        ToServerView::BufferText { file, content } => WorkView::Nothing,
    }
}

/// The answer to `GetMarkInfo`.
pub open spec fn get_mark_info(s: SessionView, id: usize, spans: Seq<(usize, NodeSpanView)>) -> (
    SessionView,
    HandledView,
) {
    match span_of(spans, id) {
        Some(span) => (
            s,
            done(
                seq![
                    ToClientView::Mark {
                        info: mark_info(id, span, label_list(s.current_marks, id)),
                    },
                ],
            ),
        ),
        None => (s, fault(Some(no_span_text(id)))),
    }
}

/// The answer to `GetMarkList`.
pub open spec fn get_mark_list(s: SessionView, spans: Seq<(usize, NodeSpanView)>) -> (
    SessionView,
    HandledView,
) {
    match first_unresolved(id_list(s.current_marks), spans) {
        Some(id) => (s, fault(Some(no_span_text(id)))),
        None => (s, done(seq![ToClientView::MarkList { infos: mark_list(s.current_marks, spans) }])),
    }
}

/// The answer to `AddMark`.
pub open spec fn add_mark(
    s: SessionView,
    file: Seq<char>,
    line: u32,
    col: u32,
    kind: Seq<char>,
    label: Seq<char>,
    node: Option<PickedNodeView>,
) -> (SessionView, HandledView) {
    match node {
        Some(n) => (
            SessionView { current_marks: s.current_marks.insert((n.id, label)), ..s },
            done(seq![ToClientView::Mark { info: mark_info(n.id, n.span, seq![label]) }]),
        ),
        None => (s, fault(Some(no_node_text(kind, file, line, col)))),
    }
}

/// The answer to `RunCommand`.
pub open spec fn run_command(s: SessionView, outcome: CommandOutcomeView) -> (
    SessionView,
    HandledView,
) {
    let texts = match outcome.rewrites {
        Some(files) => buffer_replies(files),
        None => Seq::empty(),
    };
    match outcome.marks {
        None => (s, done(texts)),
        Some(marks) => {
            let after = SessionView { current_marks: marks.to_set(), ..s };
            match first_unresolved(id_list(marks.to_set()), outcome.spans) {
                Some(id) => (
                    after,
                    HandledView {
                        replies: texts,
                        outcome: OutcomeView::Fault { message: Some(no_span_text(id)) },
                    },
                ),
                None => (
                    after,
                    done(
                        texts.push(
                            ToClientView::MarkList { infos: mark_list(marks.to_set(), outcome.spans) },
                        ),
                    ),
                ),
            }
        },
    }
}

/// What handling the request `msg` does in the state `s`, once the work that
/// it needed has given `result`: the state afterwards, the replies and the outcome.
pub open spec fn handle(s: SessionView, msg: ToServerView, result: WorkResultView) -> (
    SessionView,
    HandledView,
) {
    match (msg, result) {
        (_, WorkResultView::Panicked { message }) => (s, fault(message)),
        (ToServerView::BufferText { file, content }, _) => (s, fault(Some(reserved_text()))),
        (
            ToServerView::AddMark { file, line, col, kind, label },
            WorkResultView::Picked { node },
        ) => add_mark(s, file, line, col, kind, label, node),
        (ToServerView::RemoveMark { id }, WorkResultView::Nothing) => (
            SessionView { current_marks: without(s.current_marks, id), ..s },
            done(Seq::empty()),
        ),
        (ToServerView::GetMarkInfo { id }, WorkResultView::Spans { spans }) => get_mark_info(
            s,
            id,
            spans,
        ),
        (ToServerView::GetMarkList, WorkResultView::Spans { spans }) => get_mark_list(s, spans),
        (ToServerView::SetBuffersAvailable { files }, WorkResultView::Canonical { paths }) => (
            SessionView { buffers_available: canonical_set(paths), ..s },
            done(Seq::empty()),
        ),
        (ToServerView::RunCommand { name, args }, WorkResultView::Command { outcome }) => run_command(
            s,
            outcome,
        ),
        _ => (s, fault(Some(mismatch_text()))),
    }
}

/// The replies that are sent for one handled request: those that it
/// produced and, where it failed, one `Error` after them.
pub open spec fn sent(h: HandledView) -> Seq<ToClientView> {
    match h.outcome {
        OutcomeView::Done => h.replies,
        OutcomeView::Fault { message } => h.replies.push(
            ToClientView::Error {
                text: match message {
                    Some(text) => text,
                    None => unknown_fault_text(),
                },
            },
        ),
    }
}

/// What the session does with the requests of `inbox`, one after another,
/// each with the result of the work that it needed: the state at the end,
/// and all replies in the order in which they are sent.
pub open spec fn run(s: SessionView, inbox: Seq<(ToServerView, WorkResultView)>) -> (
    SessionView,
    Seq<ToClientView>,
)
    decreases inbox.len(),
{
    if inbox.len() == 0 {
        (s, Seq::empty())
    } else {
        let earlier = run(s, inbox.drop_last());
        let last = handle(earlier.0, inbox.last().0, inbox.last().1);
        (last.0, earlier.1 + sent(last.1))
    }
}

} // verus!
