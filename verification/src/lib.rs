//! A static type checker for a small expression language with integers,
//! booleans, let-bindings, and single-argument functions. Given an
//! already-parsed syntax tree, it answers whether the tree obeys the
//! language's type discipline and, if so, what its type is.
pub mod ast;
pub mod typechecker;
