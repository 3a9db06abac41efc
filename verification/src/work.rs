//! The work that the session asks for, the results that it is handed, and
//! what the handling of a request gives.
use crate::message::{NodeSpan, NodeSpanView, ToClient, ToClientView};
use crate::protocol::{done, fault, sent};
use crate::views::{lemma_deep_empty, lemma_deep_push};
use vstd::prelude::*;
use vstd::string::*;

verus! {

/// A node that was found at a place in the source.
#[derive(Clone, Debug, PartialEq, Eq)]
pub struct PickedNode {
    pub id: usize,
    pub span: NodeSpan,
}

/// The model of a [`PickedNode`].
pub struct PickedNodeView {
    pub id: usize,
    pub span: NodeSpanView,
}

impl DeepView for PickedNode {
    type V = PickedNodeView;

    open spec fn deep_view(&self) -> PickedNodeView {
        PickedNodeView { id: self.id, span: self.span.deep_view() }
    }
}

/// What a command left behind when it ran.
#[derive(Clone, Debug, PartialEq, Eq)]
pub struct CommandOutcome {
    /// Where the command changed the program: each changed file, by name,
    /// with its whole new text.
    pub rewrites: Option<Vec<(String, String)>>,
    /// Where the command changed the marks: the marks that now hold.
    pub marks: Option<Vec<(usize, String)>>,
    /// The spans of the marked nodes, as the compiler saw them in this run.
    pub spans: Vec<(usize, NodeSpan)>,
}

/// The model of a [`CommandOutcome`].
pub struct CommandOutcomeView {
    pub rewrites: Option<Seq<(Seq<char>, Seq<char>)>>,
    pub marks: Option<Seq<(usize, Seq<char>)>>,
    pub spans: Seq<(usize, NodeSpanView)>,
}

impl DeepView for CommandOutcome {
    type V = CommandOutcomeView;

    open spec fn deep_view(&self) -> CommandOutcomeView {
        CommandOutcomeView {
            rewrites: self.rewrites.deep_view(),
            marks: self.marks.deep_view(),
            spans: self.spans.deep_view(),
        }
    }
}

/// The work outside the session that a request needs before it can be answered.
#[derive(Clone, Debug, PartialEq, Eq)]
pub enum Work {
    /// None: the request is answered from the session's state alone.
    Nothing,
    /// Make each of these paths canonical.
    Canonicalize { files: Vec<String> },
    /// Run the compiler far enough for node lookup, and look for the
    /// innermost node of the given kind at the given place.
    PickNode { file: String, line: u32, col: u32, kind: String },
    /// Run the compiler and say where each of these nodes lies.
    ResolveSpans { ids: Vec<usize> },
    /// Run the named command on these marks, and say where the nodes lie
    /// that are marked afterwards.
    RunCommand { name: String, args: Vec<String>, marks: Vec<(usize, String)> },
}

/// The model of a [`Work`].
pub enum WorkView {
    Nothing,
    Canonicalize { files: Seq<Seq<char>> },
    PickNode { file: Seq<char>, line: u32, col: u32, kind: Seq<char> },
    ResolveSpans { ids: Seq<usize> },
    RunCommand { name: Seq<char>, args: Seq<Seq<char>>, marks: Seq<(usize, Seq<char>)> },
}

impl DeepView for Work {
    type V = WorkView;

    open spec fn deep_view(&self) -> WorkView {
        match self {
            Work::Nothing => WorkView::Nothing,
            Work::Canonicalize { files } => WorkView::Canonicalize { files: files.deep_view() },
            Work::PickNode { file, line, col, kind } => WorkView::PickNode {
                file: file@,
                line: *line,
                col: *col,
                kind: kind@,
            },
            Work::ResolveSpans { ids } => WorkView::ResolveSpans { ids: ids@ },
            Work::RunCommand { name, args, marks } => WorkView::RunCommand {
                name: name@,
                args: args.deep_view(),
                marks: marks.deep_view(),
            },
        }
    }
}

/// What came of the work that a request needed.
#[derive(Clone, Debug, PartialEq, Eq)]
pub enum WorkResult {
    /// There was nothing to do.
    Nothing,
    /// The canonical form of each path, or `None` where it has none.
    Canonical { paths: Vec<Option<String>> },
    /// The node that was found, if any.
    Picked { node: Option<PickedNode> },
    /// Where the nodes lie.
    Spans { spans: Vec<(usize, NodeSpan)> },
    /// The command ran.
    Command { outcome: CommandOutcome },
    /// The work failed; the message says why, where a message was left.
    Panicked { message: Option<String> },
}

/// The model of a [`WorkResult`].
pub enum WorkResultView {
    Nothing,
    Canonical { paths: Seq<Option<Seq<char>>> },
    Picked { node: Option<PickedNodeView> },
    Spans { spans: Seq<(usize, NodeSpanView)> },
    Command { outcome: CommandOutcomeView },
    Panicked { message: Option<Seq<char>> },
}

impl DeepView for WorkResult {
    type V = WorkResultView;

    open spec fn deep_view(&self) -> WorkResultView {
        match self {
            WorkResult::Nothing => WorkResultView::Nothing,
            WorkResult::Canonical { paths } => WorkResultView::Canonical {
                paths: paths.deep_view(),
            },
            WorkResult::Picked { node } => WorkResultView::Picked { node: node.deep_view() },
            WorkResult::Spans { spans } => WorkResultView::Spans { spans: spans.deep_view() },
            WorkResult::Command { outcome } => WorkResultView::Command {
                outcome: outcome.deep_view(),
            },
            WorkResult::Panicked { message } => WorkResultView::Panicked {
                message: message.deep_view(),
            },
        }
    }
}

/// How the handling of one request ended.
#[derive(Clone, Debug, PartialEq, Eq)]
pub enum Outcome {
    /// The request was handled.
    Done,
    /// The request failed; the session goes on.
    Fault { message: Option<String> },
}

/// The model of an [`Outcome`].
pub enum OutcomeView {
    Done,
    Fault { message: Option<Seq<char>> },
}

impl DeepView for Outcome {
    type V = OutcomeView;

    open spec fn deep_view(&self) -> OutcomeView {
        match self {
            Outcome::Done => OutcomeView::Done,
            Outcome::Fault { message } => OutcomeView::Fault { message: message.deep_view() },
        }
    }
}

/// What the handling of one request gave: the replies that it produced, in
/// order, and how it ended.
#[derive(Clone, Debug, PartialEq, Eq)]
pub struct Handled {
    pub replies: Vec<ToClient>,
    pub outcome: Outcome,
}

/// The model of a [`Handled`].
pub struct HandledView {
    pub replies: Seq<ToClientView>,
    pub outcome: OutcomeView,
}

impl DeepView for Handled {
    type V = HandledView;

    open spec fn deep_view(&self) -> HandledView {
        HandledView { replies: self.replies.deep_view(), outcome: self.outcome.deep_view() }
    }
}

impl Handled {
    /// A handling that went well and produced `replies`.
    pub fn done(replies: Vec<ToClient>) -> (h: Handled)
        ensures
            h.deep_view() == done(replies.deep_view()),
    {
        Handled { replies, outcome: Outcome::Done }
    }

    /// A handling that failed before it produced a reply.
    pub fn fault(message: Option<String>) -> (h: Handled)
        ensures
            h.deep_view() == fault(message.deep_view()),
    {
        let replies: Vec<ToClient> = Vec::new();
        proof {
            lemma_deep_empty(replies);
        }
        Handled { replies, outcome: Outcome::Fault { message } }
    }

    /// The replies to send: those produced and, after a fault, one `Error`
    /// with the fault's message, or with a general text where it left none.
    pub fn into_replies(self) -> (replies: Vec<ToClient>)
        ensures
            replies.deep_view() == sent(self.deep_view()),
    {
        let mut replies = self.replies;
        match self.outcome {
            Outcome::Done => {},
            Outcome::Fault { message } => {
                let text = match message {
                    Some(text) => text,
                    None => String::from_str("An error occurred of unknown type"),
                };
                let ghost before = replies;
                let reply = ToClient::Error { text };
                replies.push(reply);
                proof {
                    lemma_deep_push(before, replies, reply);
                }
            },
        }
        replies
    }
}

} // verus!
