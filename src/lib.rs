//! Line-set differences between two text files, and the export of a
//! difference result as text, CSV or JSON.

mod chars;
pub mod filereader;
pub mod vector_comparer;
pub mod vector_exporter;
pub mod view;
