//! Turns plain lyric text into a LaTeX beamer slide deck.
//!
//! Blank lines (two newlines in a row) separate slides; each line of a slide
//! is set large and centered, and each slide shows a small preview of the
//! first line of the slide after it.
pub mod document;
pub mod escape;
pub mod report;
pub mod text;
