pub mod text;
pub mod value;
pub mod node;
pub mod debug;
pub mod lexer;
pub mod parser;
pub mod lang_lexer;
pub mod metamath;
pub mod metamath_lexer;
pub mod lang_parser;
pub mod scope;
pub mod internal_types;
pub mod semantics;
pub mod ast;
pub mod cut;
pub mod bytecode;
pub mod compiler;
pub mod vm;
pub mod fir;
pub mod lower;
