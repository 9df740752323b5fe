pub mod render_terminal;
pub mod replay;
pub mod screen;
pub mod shell;
pub mod text;
pub mod tokenizer;
