//! What can go wrong when a command is run.

use vstd::prelude::*;
use vstd::string::*;

use crate::text::{append_int, dec_text};

verus! {

/// An error and the place in the compiler that met it.
pub struct Error {
    pub kind: ErrorKind,
    pub loc: Location,
}

pub enum ErrorKind {
    /// the command line named no program
    EmptyCmd,
    /// the command ran and failed: `code` is its exit status, or `None`
    /// where a signal ended it
    CmdFailure { cmd: String, code: Option<i32> },
    /// the command could not be started; the field holds what the system
    /// said
    Io(String),
}

/// A place in the compiler: a file and a line.
pub struct Location {
    pub file: &'static str,
    pub line: u32,
}

impl Error {
    pub fn new(kind: ErrorKind, loc: Location) -> (e: Error)
        ensures
            e.kind == kind,
            e.loc == loc,
    {
        Self { kind, loc }
    }
}

impl ErrorKind {
    /// How the kind of error is shown.
    pub open spec fn text(self) -> Seq<char> {
        match self {
            ErrorKind::Io(kind) => "io: "@ + kind@,
            ErrorKind::CmdFailure { cmd, code } => match code {
                Some(code) => "cmd failure: cmd `"@ + cmd@ + "` exited with status code `"@
                    + dec_text(code as int) + "`"@,
                None => "cmd failure: process "@ + cmd@ + " terminated by signal"@,
            },
            ErrorKind::EmptyCmd => "cmd empty"@,
        }
    }

    pub fn to_string(&self) -> (s: String)
        ensures
            s@ == self.text(),
    {
        match self {
            ErrorKind::Io(kind) => {
                let mut s = "io: ".to_owned();
                s.append(kind.as_str());
                s
            },
            ErrorKind::CmdFailure { cmd, code } => match code {
                Some(code) => {
                    let mut s = "cmd failure: cmd `".to_owned();
                    s.append(cmd.as_str());
                    s.append("` exited with status code `");
                    append_int(&mut s, *code as i64);
                    s.append("`");
                    s
                },
                None => {
                    let mut s = "cmd failure: process ".to_owned();
                    s.append(cmd.as_str());
                    s.append(" terminated by signal");
                    s
                },
            },
            ErrorKind::EmptyCmd => "cmd empty".to_owned(),
        }
    }
}

impl Error {
    /// How the error is shown: the file, the line, and the kind of error.
    pub open spec fn text(self) -> Seq<char> {
        self.loc.file@ + ":"@ + dec_text(self.loc.line as int) + " - "@ + self.kind.text()
    }

    pub fn to_string(&self) -> (s: String)
        ensures
            s@ == self.text(),
    {
        let mut s = self.loc.file.to_owned();
        s.append(":");
        append_int(&mut s, self.loc.line as i64);
        s.append(" - ");
        let kind = self.kind.to_string();
        s.append(kind.as_str());
        s
    }
}

impl Location {
    pub fn new(file: &'static str, line: u32) -> (l: Location)
        ensures
            l.file == file,
            l.line == line,
    {
        Self { file, line }
    }
}

} // verus!
