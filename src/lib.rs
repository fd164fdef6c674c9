//! Case conversion of text into `SCREAMING_SNAKE_CASE`, with a test for
//! strings that are already in that form.
pub mod cases;
pub mod text;
