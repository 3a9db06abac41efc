//! The choice of the transport between server and client.
use vstd::prelude::*;
use vstd::string::*;

verus! {

/// A protocol in which server and client talk.
#[derive(Clone, Copy, Debug, PartialEq, Eq)]
pub enum Backend {
    /// The plain protocol, one message to a line.
    Plain,
    /// The protocol of the editor's channels.
    Vim8,
}

/// The backend that the start-up arguments name: the editor's own where
/// the first argument asks for it, the plain one otherwise.
pub open spec fn backend_named(args: Seq<Seq<char>>) -> Backend {
    if args.len() > 0 && args[0] == "vim8"@ {
        Backend::Vim8
    } else {
        Backend::Plain
    }
}

/// Chooses the backend from the start-up arguments.
pub fn select_backend(args: &Vec<String>) -> (backend: Backend)
    ensures
        backend == backend_named(args.deep_view()),
{
    if args.len() > 0 && args[0] == String::from_str("vim8") {
        Backend::Vim8
    } else {
        Backend::Plain
    }
}

} // verus!
