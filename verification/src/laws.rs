//! What holds of the registry and of the session whatever the requests are.
use crate::listing::{
    increasing, lemma_increasing_distinct, lemma_listing_exists, lemma_listing_is,
};
use crate::loader::{canonical_set, source_of, FileSource};
use crate::marks::{
    id_order, labels_of, lemma_id_order, lemma_label_order, marked_ids, without,
};
use crate::message::{mark_info, NodeSpanView, ToClientView, ToServerView};
use crate::protocol::{
    done, handle, id_list, label_list, mark_list, no_node_text, run, sent, span_of, SessionView,
};
use crate::work::{PickedNodeView, WorkResultView};
use crate::text::label_order;
use crate::worker::{oldest_request, route, ToWorkerView, WorkerActionView};
use vstd::prelude::*;

verus! {

/// The marks after each of `labels` was added to the node `id`, one call after another.
pub open spec fn add_all(marks: Set<(usize, Seq<char>)>, id: usize, labels: Seq<Seq<char>>) -> Set<
    (usize, Seq<char>),
>
    decreases labels.len(),
{
    if labels.len() == 0 {
        marks
    } else {
        add_all(marks, id, labels.drop_last()).insert((id, labels.last()))
    }
}

/// The labels of a node of a finite registry are finitely many.
pub proof fn lemma_labels_finite(marks: Set<(usize, Seq<char>)>, id: usize)
    requires
        marks.finite(),
    ensures
        labels_of(marks, id).finite(),
{
    let second = |m: (usize, Seq<char>)| m.1;
    marks.lemma_map_finite(second);
    assert forall|l: Seq<char>| labels_of(marks, id).contains(l) implies marks.map(second).contains(
        l,
    ) by {
        assert(marks.contains((id, l)) && second((id, l)) == l);
    }
    vstd::set_lib::lemma_set_subset_finite(marks.map(second), labels_of(marks, id));
}

/// The marked nodes of a finite registry are finitely many.
pub proof fn lemma_ids_finite(marks: Set<(usize, Seq<char>)>)
    requires
        marks.finite(),
    ensures
        marked_ids(marks).finite(),
{
    let first = |m: (usize, Seq<char>)| m.0;
    marks.lemma_map_finite(first);
    assert forall|id: usize| marked_ids(marks).contains(id) implies marks.map(first).contains(
        id,
    ) by {
        let l = choose|l: Seq<char>| marks.contains((id, l));
        assert(marks.contains((id, l)) && first((id, l)) == id);
    }
    vstd::set_lib::lemma_set_subset_finite(marks.map(first), marked_ids(marks));
}

/// Adding labels to a node, in any number of calls, adds them to the
/// node's labels and changes nothing else.
pub proof fn lemma_add_all(marks: Set<(usize, Seq<char>)>, id: usize, labels: Seq<Seq<char>>)
    requires
        marks.finite(),
    ensures
        add_all(marks, id, labels).finite(),
        labels_of(add_all(marks, id, labels), id) == labels_of(marks, id).union(labels.to_set()),
        forall|other: usize|
            other != id ==> #[trigger] labels_of(add_all(marks, id, labels), other) == labels_of(
                marks,
                other,
            ),
    decreases labels.len(),
{
    let after = add_all(marks, id, labels);
    if labels.len() == 0 {
        assert(labels_of(after, id) =~= labels_of(marks, id).union(labels.to_set()));
    } else {
        let earlier = labels.drop_last();
        lemma_add_all(marks, id, earlier);
        let mid = add_all(marks, id, earlier);
        assert forall|l: Seq<char>| labels_of(after, id).contains(l) <==> labels_of(
            marks,
            id,
        ).union(labels.to_set()).contains(l) by {
            if labels.contains(l) {
                let k = choose|k: int| 0 <= k < labels.len() && labels[k] == l;
                if k < earlier.len() {
                    assert(earlier[k] == l);
                    assert(earlier.to_set().contains(l));
                    assert(labels_of(mid, id).contains(l));
                }
            }
            if labels_of(mid, id).contains(l) {
                if earlier.contains(l) {
                    let k = choose|k: int| 0 <= k < earlier.len() && earlier[k] == l;
                    assert(labels[k] == l);
                }
            }
            if l == labels.last() {
                assert(labels[labels.len() - 1] == l);
            }
        }
        assert(labels_of(after, id) =~= labels_of(marks, id).union(labels.to_set()));
        assert forall|other: usize| other != id implies #[trigger] labels_of(after, other)
            == labels_of(marks, other) by {
            assert(labels_of(mid, other) == labels_of(marks, other));
            assert(labels_of(after, other) =~= labels_of(mid, other));
        }
    }
}

/// The labels that a node was given in several calls are all listed for
/// it, together with those that it had: each once, however often it was
/// added, and in lexicographic order.
pub proof fn lemma_added_labels_listed(
    marks: Set<(usize, Seq<char>)>,
    id: usize,
    labels: Seq<Seq<char>>,
)
    requires
        marks.finite(),
    ensures
        label_list(add_all(marks, id, labels), id).to_set() == labels_of(marks, id).union(
            labels.to_set(),
        ),
        increasing(label_list(add_all(marks, id, labels), id), label_order()),
        label_list(add_all(marks, id, labels), id).no_duplicates(),
{
    let after = add_all(marks, id, labels);
    lemma_add_all(marks, id, labels);
    lemma_labels_finite(after, id);
    lemma_label_order();
    lemma_listing_exists(labels_of(after, id), label_order());
    lemma_increasing_distinct(label_list(after, id), label_order());
}

/// Once the marks of a node are removed it has no label and is not among
/// the marked nodes, so no list of marks names it; every other node keeps
/// its labels.
pub proof fn lemma_removed_node_unmarked(
    marks: Set<(usize, Seq<char>)>,
    id: usize,
    spans: Seq<(usize, NodeSpanView)>,
)
    requires
        marks.finite(),
    ensures
        label_list(without(marks, id), id) == Seq::<Seq<char>>::empty(),
        !marked_ids(without(marks, id)).contains(id),
        !id_list(without(marks, id)).contains(id),
        forall|k: int|
            0 <= k < mark_list(without(marks, id), spans).len() ==> (#[trigger] mark_list(
                without(marks, id),
                spans,
            )[k]).id != id,
        forall|other: usize|
            other != id ==> #[trigger] labels_of(without(marks, id), other) == labels_of(
                marks,
                other,
            ),
{
    let rest = without(marks, id);
    lemma_label_order();
    lemma_id_order();
    assert(labels_of(rest, id) =~= Set::<Seq<char>>::empty());
    let none = Seq::<Seq<char>>::empty();
    assert(none.to_set() =~= Set::<Seq<char>>::empty());
    lemma_listing_is(none, labels_of(rest, id), label_order());
    vstd::set_lib::lemma_set_subset_finite(marks, rest);
    lemma_ids_finite(rest);
    lemma_listing_exists(marked_ids(rest), id_order());
    let ids = id_list(rest);
    assert forall|k: int| 0 <= k < ids.len() implies ids[k] != id by {
        assert(ids.to_set().contains(ids[k]));
    }
    assert forall|other: usize| other != id implies #[trigger] labels_of(rest, other) == labels_of(
        marks,
        other,
    ) by {
        assert(labels_of(rest, other) =~= labels_of(marks, other));
    }
}

/// The requests that add each of `labels`, in order, to the node that is
/// found at one place, each with the result of looking for the node.
pub open spec fn add_requests(
    file: Seq<char>,
    line: u32,
    col: u32,
    kind: Seq<char>,
    node: PickedNodeView,
    labels: Seq<Seq<char>>,
) -> Seq<(ToServerView, WorkResultView)> {
    Seq::new(
        labels.len(),
        |i: int|
            (
                ToServerView::AddMark { file, line, col, kind, label: labels[i] },
                WorkResultView::Picked { node: Some(node) },
            ),
    )
}

/// After `AddMark` requests have given a node labels, in any number of
/// calls, `GetMarkInfo` replies with the node's labels of before and the
/// new ones together: each once, in lexicographic order.
pub proof fn lemma_get_mark_info_after_adds(
    s: SessionView,
    file: Seq<char>,
    line: u32,
    col: u32,
    kind: Seq<char>,
    node: PickedNodeView,
    labels: Seq<Seq<char>>,
    spans: Seq<(usize, NodeSpanView)>,
)
    requires
        s.current_marks.finite(),
        span_of(spans, node.id) is Some,
    ensures
        ({
            let after = run(s, add_requests(file, line, col, kind, node, labels)).0;
            let listed = label_list(after.current_marks, node.id);
            &&& after.current_marks == add_all(s.current_marks, node.id, labels)
            &&& handle(
                after,
                ToServerView::GetMarkInfo { id: node.id },
                WorkResultView::Spans { spans },
            ).1 == done(
                seq![
                    ToClientView::Mark {
                        info: mark_info(node.id, span_of(spans, node.id)->0, listed),
                    },
                ],
            )
            &&& listed.to_set() == labels_of(s.current_marks, node.id).union(labels.to_set())
            &&& increasing(listed, label_order())
            &&& listed.no_duplicates()
        }),
{
    lemma_add_requests(s, file, line, col, kind, node, labels);
    lemma_added_labels_listed(s.current_marks, node.id, labels);
}

/// `AddMark` requests for one node add their labels to the node's marks
/// and change nothing else of the session.
pub proof fn lemma_add_requests(
    s: SessionView,
    file: Seq<char>,
    line: u32,
    col: u32,
    kind: Seq<char>,
    node: PickedNodeView,
    labels: Seq<Seq<char>>,
)
    ensures
        run(s, add_requests(file, line, col, kind, node, labels)).0 == (SessionView {
            current_marks: add_all(s.current_marks, node.id, labels),
            ..s
        }),
    decreases labels.len(),
{
    let inbox = add_requests(file, line, col, kind, node, labels);
    if labels.len() > 0 {
        let earlier = labels.drop_last();
        assert(inbox.drop_last() =~= add_requests(file, line, col, kind, node, earlier));
        lemma_add_requests(s, file, line, col, kind, node, earlier);
    }
}

/// After `RemoveMark` for a node, `GetMarkInfo` replies with no label for
/// it, and the list that `GetMarkList` replies with does not name it.
pub proof fn lemma_replies_after_remove(
    s: SessionView,
    id: usize,
    spans: Seq<(usize, NodeSpanView)>,
)
    requires
        s.current_marks.finite(),
    ensures
        ({
            let removed = handle(s, ToServerView::RemoveMark { id }, WorkResultView::Nothing);
            let info = handle(
                removed.0,
                ToServerView::GetMarkInfo { id },
                WorkResultView::Spans { spans },
            ).1;
            let list = handle(removed.0, ToServerView::GetMarkList, WorkResultView::Spans { spans }).1;
            &&& removed.1 == done(Seq::<ToClientView>::empty())
            &&& removed.0.current_marks == without(s.current_marks, id)
            &&& span_of(spans, id) matches Some(span) ==> info == done(
                seq![ToClientView::Mark { info: mark_info(id, span, Seq::<Seq<char>>::empty()) }],
            )
            &&& list.outcome is Done ==> list.replies.len() == 1 && (list.replies[0] matches ToClientView::MarkList {
                infos,
            } && forall|k: int| 0 <= k < infos.len() ==> (#[trigger] infos[k]).id != id)
        }),
{
    lemma_removed_node_unmarked(s.current_marks, id, spans);
}

/// A request that fails before it changes anything leaves the session as it
/// was and sends one `Error` and nothing else: so it is where the work for
/// the request failed, whatever the request, and where `AddMark` found no
/// node of the kind at the place.
pub proof fn lemma_failed_request_changes_nothing(
    s: SessionView,
    msg: ToServerView,
    message: Option<Seq<char>>,
)
    ensures
        handle(s, msg, WorkResultView::Panicked { message }).0 == s,
        sent(handle(s, msg, WorkResultView::Panicked { message }).1).len() == 1,
        sent(handle(s, msg, WorkResultView::Panicked { message }).1)[0] is Error,
        msg is AddMark ==> {
            let none = WorkResultView::Picked { node: None };
            &&& handle(s, msg, none).0 == s
            &&& sent(handle(s, msg, none).1) == seq![
                ToClientView::Error {
                    text: no_node_text(
                        msg->AddMark_kind,
                        msg->AddMark_file,
                        msg->AddMark_line,
                        msg->AddMark_col,
                    ),
                },
            ]
        },
{
    if msg is AddMark {
        let none = WorkResultView::Picked { node: None };
        assert(sent(handle(s, msg, none).1) =~= seq![
            ToClientView::Error {
                text: no_node_text(
                    msg->AddMark_kind,
                    msg->AddMark_file,
                    msg->AddMark_line,
                    msg->AddMark_col,
                ),
            },
        ]);
    }
}

/// `SetBuffersAvailable` replaces the set of buffers by the paths that
/// have a canonical form, whatever the set was before; a path without one
/// is left out and raises no fault. Handling the same request again, with
/// the same canonical paths, leaves the state as it is.
pub proof fn lemma_set_buffers_idempotent(
    s: SessionView,
    files: Seq<Seq<char>>,
    paths: Seq<Option<Seq<char>>>,
)
    ensures
        ({
            let msg = ToServerView::SetBuffersAvailable { files };
            let result = WorkResultView::Canonical { paths };
            let once = handle(s, msg, result);
            let twice = handle(once.0, msg, result);
            &&& once.1 == done(Seq::<ToClientView>::empty())
            &&& once.0.buffers_available == canonical_set(paths)
            &&& once.0.current_marks == s.current_marks
            &&& twice == once
        }),
{
}

/// A file that the editor holds is read from the editor and never from
/// disk, and the reader gets the text that the client sends in answer to
/// its request: the loader turns to the editor; the worker asks the client
/// and hands exactly the client's text to the reader that waits.
pub proof fn lemma_buffer_read_from_editor(
    s: SessionView,
    pending: Seq<(Seq<char>, u64)>,
    path: Seq<char>,
    responder: u64,
    content: Seq<char>,
)
    requires
        s.buffers_available.contains(path),
        oldest_request(pending, path) is None,
    ensures
        source_of(s.buffers_available, path) == FileSource::Editor,
        ({
            let asked = route(pending, ToWorkerView::NeedFile { path, responder });
            let answered = route(
                asked.0,
                ToWorkerView::InputMessage {
                    msg: ToServerView::BufferText { file: path, content },
                },
            );
            &&& asked.1 == WorkerActionView::AskClient { file: path }
            &&& answered.1 == WorkerActionView::Respond { responder, content }
            &&& answered.0 == pending
        }),
{
    crate::worker::lemma_text_reaches_requester(pending, path, responder, content);
}

/// The replies to earlier requests are all sent before the first reply to
/// a later request: what the session sends for two batches of requests,
/// one after the other, is what it sends for the first followed by what it
/// sends for the second.
pub proof fn lemma_replies_in_request_order(
    s: SessionView,
    first: Seq<(ToServerView, WorkResultView)>,
    second: Seq<(ToServerView, WorkResultView)>,
)
    ensures
        run(s, first + second).0 == run(run(s, first).0, second).0,
        run(s, first + second).1 == run(s, first).1 + run(run(s, first).0, second).1,
    decreases second.len(),
{
    if second.len() == 0 {
        assert(first + second =~= first);
        assert(run(s, first).1 + Seq::<ToClientView>::empty() =~= run(s, first).1);
    } else {
        let all = first + second;
        assert(all.drop_last() =~= first + second.drop_last());
        assert(all.last() == second.last());
        lemma_replies_in_request_order(s, first, second.drop_last());
        let mid = run(s, first);
        let earlier = run(mid.0, second.drop_last());
        let last = handle(earlier.0, second.last().0, second.last().1);
        assert(mid.1 + (earlier.1 + sent(last.1)) =~= (mid.1 + earlier.1)
            + sent(last.1));
    }
}

} // verus!
