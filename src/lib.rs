pub mod text;
pub mod number;
pub mod span;
pub mod value;
pub mod chunk;
pub mod vm;
pub mod scanner;
pub mod parser;
pub mod compiler;
pub mod driver;
pub mod debug;
