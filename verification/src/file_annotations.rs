//! Annotations of files, as workflow commands.

use crate::numbers::{decimal_digits, push_decimal};
use crate::text::{append, to_chars, to_string};
use vstd::prelude::*;

verus! {

/// How grave an annotation is.
#[derive(Debug, PartialEq, Eq, Structural, Clone, Copy)]
pub enum AnnotationLevel {
    Debug,
    Notice,
    Warning,
    Error,
}

impl Default for AnnotationLevel {
    fn default() -> (level: Self)
        ensures
            level == AnnotationLevel::Notice,
    {
        AnnotationLevel::Notice
    }
}

/// A message about a file, or about a place in it.
#[derive(Debug)]
pub struct FileAnnotation {
    /// How grave the message is.
    pub severity: AnnotationLevel,
    /// The file's path from the root of the repository, with `/` between its
    /// parts and none at its start. Blank for a message about the whole run.
    pub path: String,
    /// The line at which the annotation starts, counted from one. Without it
    /// the annotation is about the whole file.
    pub start_line: Option<usize>,
    /// The line at which the annotation ends, if that is a later line.
    pub end_line: Option<usize>,
    /// The column at which the annotation starts, counted from one.
    pub start_column: Option<usize>,
    /// The column at which the annotation ends. It counts only with an end
    /// line, and only where it lies after the start column.
    pub end_column: Option<usize>,
    /// The title of the annotation.
    pub title: Option<String>,
    /// The message, on one line.
    pub message: String,
}

impl Default for FileAnnotation {
    fn default() -> (annotation: Self)
        ensures
            annotation.severity == AnnotationLevel::Notice,
            annotation.path@.len() == 0,
            annotation.start_line is None,
            annotation.end_line is None,
            annotation.start_column is None,
            annotation.end_column is None,
            annotation.title is None,
            annotation.message@.len() == 0,
    {
        FileAnnotation {
            severity: AnnotationLevel::Notice,
            path: String::new(),
            start_line: None,
            end_line: None,
            start_column: None,
            end_column: None,
            title: None,
            message: String::new(),
        }
    }
}

/// The name of a level in a workflow command.
pub open spec fn level_name(level: AnnotationLevel) -> Seq<char> {
    match level {
        AnnotationLevel::Debug => "debug"@,
        AnnotationLevel::Notice => "notice"@,
        AnnotationLevel::Warning => "warning"@,
        AnnotationLevel::Error => "error"@,
    }
}

/// A line or column number as it is written: at least one.
pub open spec fn at_least_one(n: usize) -> nat {
    if n < 1 {
        1
    } else {
        n as nat
    }
}

impl FileAnnotation {
    /// The end column counts: there is one, and it lies after the start
    /// column, if there is one.
    pub open spec fn end_column_counts(&self) -> bool {
        self.end_column matches Some(end) && (self.start_column matches Some(start) ==> at_least_one(
            start,
        ) < at_least_one(end))
    }

    /// The part of the command about the end of the span: the end line, where
    /// it is a later line than `start_line`, and the end column, where it counts.
    pub open spec fn end_part(&self, start_line: usize) -> Seq<char> {
        match self.end_line {
            Some(end) if at_least_one(end) > start_line => ",endline="@ + decimal_digits(
                at_least_one(end),
            ) + if self.end_column_counts() {
                ",endColumn="@ + decimal_digits(at_least_one(self.end_column->0))
            } else {
                Seq::empty()
            },
            _ => Seq::empty(),
        }
    }

    /// The part of the command about the place in the file: the start line,
    /// the start column, and the end.
    pub open spec fn place_part(&self) -> Seq<char> {
        match self.start_line {
            Some(line) => ",line="@ + decimal_digits(line as nat) + match self.start_column {
                Some(column) => ",col="@ + decimal_digits(at_least_one(column)),
                None => Seq::empty(),
            } + self.end_part(line),
            None => Seq::empty(),
        }
    }

    /// The part of the command about the file: nothing for a blank path.
    pub open spec fn file_part(&self) -> Seq<char> {
        if self.path@.len() == 0 {
            Seq::empty()
        } else {
            " file="@ + self.path@ + self.place_part()
        }
    }

    /// The part of the command about the title.
    pub open spec fn title_part(&self) -> Seq<char> {
        match self.title {
            Some(title) => ",title="@ + title@,
            None => Seq::empty(),
        }
    }

    /// The workflow command that stands for the annotation:
    /// `::level file=..,line=..,col=..,endline=..,endColumn=..,title=..::message`.
    pub open spec fn command(&self) -> Seq<char> {
        "::"@ + level_name(self.severity) + self.file_part() + self.title_part() + "::"@
            + self.message@
    }

    /// Writes the annotation as a workflow command.
    pub fn to_string(&self) -> (text: String)
        ensures
            text@ == self.command(),
    {
        let mut out: Vec<char> = to_chars("::");
        let level = match self.severity {
            AnnotationLevel::Debug => to_chars("debug"),
            AnnotationLevel::Notice => to_chars("notice"),
            AnnotationLevel::Warning => to_chars("warning"),
            AnnotationLevel::Error => to_chars("error"),
        };
        append(&mut out, &level);
        let path = to_chars(self.path.as_str());
        if path.len() > 0 {
            append(&mut out, &to_chars(" file="));
            append(&mut out, &path);
            let mut place: Vec<char> = Vec::new();
            match self.start_line {
                Some(line) => {
                    append(&mut place, &to_chars(",line="));
                    push_decimal(&mut place, line as u64);
                    let column: Option<usize> = match self.start_column {
                        Some(c) => Some(if c < 1 {
                            1
                        } else {
                            c
                        }),
                        None => None,
                    };
                    match column {
                        Some(c) => {
                            append(&mut place, &to_chars(",col="));
                            push_decimal(&mut place, c as u64);
                        },
                        None => {},
                    }
                    let mut end: Vec<char> = Vec::new();
                    match self.end_line {
                        Some(end_line) => {
                            let end_line: usize = if end_line < 1 {
                                1
                            } else {
                                end_line
                            };
                            if end_line > line {
                                append(&mut end, &to_chars(",endline="));
                                push_decimal(&mut end, end_line as u64);
                                match self.end_column {
                                    Some(end_column) => {
                                        let end_column: usize = if end_column < 1 {
                                            1
                                        } else {
                                            end_column
                                        };
                                        let counts = match column {
                                            Some(c) => c < end_column,
                                            None => true,
                                        };
                                        if counts {
                                            append(&mut end, &to_chars(",endColumn="));
                                            push_decimal(&mut end, end_column as u64);
                                        }
                                    },
                                    None => {},
                                }
                            }
                        },
                        None => {},
                    }
                    append(&mut place, &end);
                    assert(place@ == self.place_part());
                },
                None => {},
            }
            append(&mut out, &place);
            assert(out@ == "::"@ + level_name(self.severity) + self.file_part());
        }
        match &self.title {
            Some(title) => {
                let mut part = to_chars(",title=");
                append(&mut part, &to_chars(title.as_str()));
                append(&mut out, &part);
            },
            None => {},
        }
        append(&mut out, &to_chars("::"));
        append(&mut out, &to_chars(self.message.as_str()));
        to_string(&out)
    }
}

} // verus!
