//! Translation of C literals and initializer lists into Rust expressions.
pub mod c_ast;
pub mod init_list;
pub mod literals;
pub mod rust_ast;
