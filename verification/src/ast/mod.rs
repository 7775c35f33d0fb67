pub mod binary;
pub mod compiler;
pub mod expr;
pub mod model;
pub mod oper;
pub mod parse;

pub use binary::Binary;
pub use compiler::{Compile, Compiler, Emit};
pub use expr::{Expr, Tree};
pub use oper::Operator;
