//! The messages that the editor client and the server exchange.
use vstd::prelude::*;

verus! {

/// The stretch of source text that a node covers, as the compiler reports it.
#[derive(Clone, Debug, PartialEq, Eq)]
pub struct NodeSpan {
    pub file: String,
    pub start_line: u32,
    pub start_col: u32,
    pub end_line: u32,
    pub end_col: u32,
}

/// The model of a [`NodeSpan`].
pub struct NodeSpanView {
    pub file: Seq<char>,
    pub start_line: u32,
    pub start_col: u32,
    pub end_line: u32,
    pub end_col: u32,
}

impl DeepView for NodeSpan {
    type V = NodeSpanView;

    open spec fn deep_view(&self) -> NodeSpanView {
        NodeSpanView {
            file: self.file@,
            start_line: self.start_line,
            start_col: self.start_col,
            end_line: self.end_line,
            end_col: self.end_col,
        }
    }
}

/// What the client is told of one marked node: where it lies and which
/// labels it carries. It is made anew for each reply and never stored.
#[derive(Clone, Debug, PartialEq, Eq)]
pub struct MarkInfo {
    pub id: usize,
    pub file: String,
    pub start_line: u32,
    pub start_col: u32,
    pub end_line: u32,
    pub end_col: u32,
    pub labels: Vec<String>,
}

/// The model of a [`MarkInfo`].
pub struct MarkInfoView {
    pub id: usize,
    pub file: Seq<char>,
    pub start_line: u32,
    pub start_col: u32,
    pub end_line: u32,
    pub end_col: u32,
    pub labels: Seq<Seq<char>>,
}

impl DeepView for MarkInfo {
    type V = MarkInfoView;

    open spec fn deep_view(&self) -> MarkInfoView {
        MarkInfoView {
            id: self.id,
            file: self.file@,
            start_line: self.start_line,
            start_col: self.start_col,
            end_line: self.end_line,
            end_col: self.end_col,
            labels: self.labels.deep_view(),
        }
    }
}

/// The information on the node `id` that lies at `span` and carries `labels`.
pub open spec fn mark_info(id: usize, span: NodeSpanView, labels: Seq<Seq<char>>) -> MarkInfoView {
    MarkInfoView {
        id,
        file: span.file,
        start_line: span.start_line,
        start_col: span.start_col,
        end_line: span.end_line,
        end_col: span.end_col,
        labels,
    }
}

impl MarkInfo {
    /// Puts together the information on one node.
    pub fn new(id: usize, span: &NodeSpan, labels: Vec<String>) -> (info: MarkInfo)
        ensures
            info.deep_view() == mark_info(id, span.deep_view(), labels.deep_view()),
    {
        MarkInfo {
            id,
            file: span.file.clone(),
            start_line: span.start_line,
            start_col: span.start_col,
            end_line: span.end_line,
            end_col: span.end_col,
            labels,
        }
    }
}

/// A request of the client.
#[derive(Clone, Debug, PartialEq, Eq)]
pub enum ToServer {
    /// Mark the innermost node of the given kind at a place in a file.
    AddMark { file: String, line: u32, col: u32, kind: String, label: String },
    /// Drop every mark of a node.
    RemoveMark { id: usize },
    /// Ask for one node's marks.
    GetMarkInfo { id: usize },
    /// Ask for all marked nodes.
    GetMarkList,
    /// Say which files the editor holds in buffers.
    SetBuffersAvailable { files: Vec<String> },
    /// Run a named transformation.
    RunCommand { name: String, args: Vec<String> },
    /// The text of a buffer, in answer to the file loader. The worker
    /// consumes it; it is never meant to reach the session.
    BufferText { file: String, content: String },
}

/// The model of a [`ToServer`].
pub enum ToServerView {
    AddMark { file: Seq<char>, line: u32, col: u32, kind: Seq<char>, label: Seq<char> },
    RemoveMark { id: usize },
    GetMarkInfo { id: usize },
    GetMarkList,
    SetBuffersAvailable { files: Seq<Seq<char>> },
    RunCommand { name: Seq<char>, args: Seq<Seq<char>> },
    BufferText { file: Seq<char>, content: Seq<char> },
}

impl DeepView for ToServer {
    type V = ToServerView;

    open spec fn deep_view(&self) -> ToServerView {
        match self {
            ToServer::AddMark { file, line, col, kind, label } => ToServerView::AddMark {
                file: file@,
                line: *line,
                col: *col,
                kind: kind@,
                label: label@,
            },
            ToServer::RemoveMark { id } => ToServerView::RemoveMark { id: *id },
            ToServer::GetMarkInfo { id } => ToServerView::GetMarkInfo { id: *id },
            ToServer::GetMarkList => ToServerView::GetMarkList,
            ToServer::SetBuffersAvailable { files } => ToServerView::SetBuffersAvailable {
                files: files.deep_view(),
            },
            ToServer::RunCommand { name, args } => ToServerView::RunCommand {
                name: name@,
                args: args.deep_view(),
            },
            ToServer::BufferText { file, content } => ToServerView::BufferText {
                file: file@,
                content: content@,
            },
        }
    }
}

/// A reply of the server.
#[derive(Clone, Debug, PartialEq, Eq)]
pub enum ToClient {
    /// One marked node.
    Mark { info: MarkInfo },
    /// All marked nodes.
    MarkList { infos: Vec<MarkInfo> },
    /// The whole new text of a file that a command changed.
    NewBufferText { file: String, content: String },
    /// A request failed; the session goes on.
    Error { text: String },
}

/// The model of a [`ToClient`].
pub enum ToClientView {
    Mark { info: MarkInfoView },
    MarkList { infos: Seq<MarkInfoView> },
    NewBufferText { file: Seq<char>, content: Seq<char> },
    Error { text: Seq<char> },
}

impl DeepView for ToClient {
    type V = ToClientView;

    open spec fn deep_view(&self) -> ToClientView {
        match self {
            ToClient::Mark { info } => ToClientView::Mark { info: info.deep_view() },
            ToClient::MarkList { infos } => ToClientView::MarkList { infos: infos.deep_view() },
            ToClient::NewBufferText { file, content } => ToClientView::NewBufferText {
                file: file@,
                content: content@,
            },
            ToClient::Error { text } => ToClientView::Error { text: text@ },
        }
    }
}

} // verus!
