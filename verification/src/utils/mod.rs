pub mod iter_to_reader;
pub mod line_info;
pub mod read_slice;
pub mod string;
pub mod tokenizer;

pub use iter_to_reader::IterToReader;
pub use line_info::LineInfo;
pub use read_slice::ReadSlice;
pub use tokenizer::Tokenizer;
