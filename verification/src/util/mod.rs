pub mod idented_writer;
pub mod identifier;
pub mod number_text;
pub mod pow2;
pub mod sig_safe;
