//! Recursive discovery of files under a root directory and extraction of
//! named attributes from every file that opens as a DICOM object.

pub mod text;
pub mod tags;
pub mod discover;
pub mod scanner;
