//! The decisions of the comparison window: what each user event changes, and
//! which outside work it calls for.

use vstd::prelude::*;

use crate::vector_comparer::{differences, IVectorComparer, VectorComparer};
use crate::vector_exporter::{format_for_path, ExportType, IVectorExporter, VectorExporter};

verus! {

/// What the user did in the window.
#[derive(Debug, Clone)]
pub enum Message {
    FirstFileInputChanged(String),
    SecondFileInputChanged(String),
    SelectFirstFilePressed,
    SelectSecondFilePressed,
    ComparePressed,
    ClearComparePressed,
    ExportPressed,
}

/// The outside work an event calls for.
#[derive(Debug, Clone, Copy, PartialEq, Eq, Structural)]
pub enum Action {
    Nothing,
    /// Ask for a file, and make it the first one.
    PickFirstFile,
    /// Ask for a file, and make it the second one.
    PickSecondFile,
    /// Warn that two files are needed before comparing.
    WarnMissingFiles,
    /// Read both files, and hand their lines to `Session::compared`.
    ReadFiles,
    /// Ask for a destination, and export `Session::exporter` there.
    PickExportDestination,
}

/// The state of the window apart from its widgets.
#[derive(Debug, Clone)]
pub struct Session {
    pub first_file: String,
    pub second_file: String,
    pub differences: Vec<String>,
    pub has_compared: bool,
}

impl Session {
    /// No files chosen, nothing compared.
    pub fn new() -> (r: Session)
        ensures
            r.first_file@.len() == 0,
            r.second_file@.len() == 0,
            r.differences@.len() == 0,
            !r.has_compared,
    {
        Session {
            first_file: String::new(),
            second_file: String::new(),
            differences: Vec::new(),
            has_compared: false,
        }
    }

    /// Applies one user event, and says what outside work it calls for.
    pub fn update(&mut self, message: Message) -> (a: Action)
        ensures
            match message {
                Message::FirstFileInputChanged(d) => {
                    &&& *final(self) == (Session { first_file: d, ..*old(self) })
                    &&& a == Action::Nothing
                },
                Message::SecondFileInputChanged(d) => {
                    &&& *final(self) == (Session { second_file: d, ..*old(self) })
                    &&& a == Action::Nothing
                },
                Message::SelectFirstFilePressed => {
                    &&& *final(self) == *old(self)
                    &&& a == Action::PickFirstFile
                },
                Message::SelectSecondFilePressed => {
                    &&& *final(self) == *old(self)
                    &&& a == Action::PickSecondFile
                },
                Message::ComparePressed => {
                    &&& *final(self) == *old(self)
                    &&& a == if old(self).first_file@.len() == 0 || old(self).second_file@.len()
                        == 0 {
                        Action::WarnMissingFiles
                    } else {
                        Action::ReadFiles
                    }
                },
                Message::ClearComparePressed => {
                    &&& final(self).first_file@.len() == 0
                    &&& final(self).second_file@.len() == 0
                    &&& final(self).differences@.len() == 0
                    &&& !final(self).has_compared
                    &&& a == Action::Nothing
                },
                Message::ExportPressed => {
                    &&& *final(self) == *old(self)
                    &&& a == Action::PickExportDestination
                },
            },
    {
        match message {
            Message::FirstFileInputChanged(d) => {
                self.first_file = d;
                Action::Nothing
            },
            Message::SecondFileInputChanged(d) => {
                self.second_file = d;
                Action::Nothing
            },
            Message::SelectFirstFilePressed => Action::PickFirstFile,
            Message::SelectSecondFilePressed => Action::PickSecondFile,
            Message::ComparePressed => {
                if self.first_file.as_str().is_empty() || self.second_file.as_str().is_empty() {
                    Action::WarnMissingFiles
                } else {
                    Action::ReadFiles
                }
            },
            Message::ClearComparePressed => {
                *self = Session::new();
                Action::Nothing
            },
            Message::ExportPressed => Action::PickExportDestination,
        }
    }

    /// Takes the lines read from the two files and records their differences.
    pub fn compared(&mut self, first: Vec<String>, second: Vec<String>)
        ensures
            final(self).first_file == old(self).first_file,
            final(self).second_file == old(self).second_file,
            final(self).differences.deep_view() == differences(
                first.deep_view(),
                second.deep_view(),
            ),
            final(self).has_compared,
    {
        let comparer: VectorComparer<String> = IVectorComparer::<String>::new(first, second);
        self.differences = comparer.get_differences();
        self.has_compared = true;
    }

    /// The export of the recorded differences to `path`, in the format its
    /// extension calls for.
    pub fn exporter(&self, path: &str) -> (r: VectorExporter<String>)
        ensures
            r.vec.deep_view() == self.differences.deep_view(),
            r.export_type == format_for_path(path@),
            r.export_path@ == path@,
    {
        let format = ExportType::from_path(path);
        IVectorExporter::<String>::new(self.differences.clone(), format, path)
    }
}

} // verus!
