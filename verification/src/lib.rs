//! Two parts of a toolchain that moves C programs to Rust and refactors the result.
//!
//! The first is the session of an interactive refactoring server that
//! sits behind an editor: the messages between client and server
//! ([`message`]), the registry of marks ([`marks`]), the session's state
//! ([`session`]), the work that it asks for ([`work`]) and what it does with
//! each request ([`protocol`]), the worker between the
//! transport and the session ([`worker`]), the choice between the editor's
//! buffers and the disk ([`loader`]), and the choice of the transport
//! ([`backend`]). What holds of them for every request is proved in [`laws`].
//!
//! The second is the translation of C literals and initializer lists into
//! Rust expressions ([`translator`]).
//!
//! Nothing here reads a file, waits on a channel or runs a compiler: the
//! session says what work it needs done and is handed the result.
pub mod backend;
pub mod laws;
pub mod listing;
pub mod loader;
pub mod marks;
pub mod message;
pub mod protocol;
pub mod session;
pub mod text;
pub mod translator;
pub mod views;
pub mod work;
pub mod worker;
