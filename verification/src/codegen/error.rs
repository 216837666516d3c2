//! What can go wrong when code is written out.

use vstd::prelude::*;
use vstd::string::*;

use crate::text::{append_int, dec_text};

verus! {

/// An error and the place in the compiler that met it.
pub struct Error {
    pub kind: ErrorKind,
    pub loc: Location,
}

pub enum ErrorKind {
    /// the output could not be written; the field holds what the system
    /// said
    Io(String),
}

/// A place in the compiler: a file and a line.
pub struct Location {
    pub file: &'static str,
    pub line: u32,
}

impl Error {
    pub fn new(kind: ErrorKind, loc: Location) -> (e: Error)
        ensures
            e.kind == kind,
            e.loc == loc,
    {
        Self { kind, loc }
    }
}

impl ErrorKind {
    /// How the kind of error is shown.
    pub open spec fn text(self) -> Seq<char> {
        match self {
            ErrorKind::Io(kind) => "io: "@ + kind@,
        }
    }

    pub fn to_string(&self) -> (s: String)
        ensures
            s@ == self.text(),
    {
        match self {
            ErrorKind::Io(kind) => {
                let mut s = "io: ".to_owned();
                s.append(kind.as_str());
                s
            },
        }
    }
}

impl Error {
    /// How the error is shown: the file, the line, and the kind of error.
    pub open spec fn text(self) -> Seq<char> {
        self.loc.file@ + ":"@ + dec_text(self.loc.line as int) + " - "@ + self.kind.text()
    }

    pub fn to_string(&self) -> (s: String)
        ensures
            s@ == self.text(),
    {
        let mut s = self.loc.file.to_owned();
        s.append(":");
        append_int(&mut s, self.loc.line as i64);
        s.append(" - ");
        let kind = self.kind.to_string();
        s.append(kind.as_str());
        s
    }
}

impl Location {
    pub fn new(file: &'static str, line: u32) -> (l: Location)
        ensures
            l.file == file,
            l.line == line,
    {
        Self { file, line }
    }
}

} // verus!
