//! Command lines for the tools that turn assembly into an executable.

use vstd::prelude::*;
use vstd::string::*;

pub mod error;

verus! {

/// A command line that is being put together: the program, then its
/// arguments.
pub struct Cmd {
    pub inner: Vec<String>,
    pub quiet: bool,
}

pub struct CmdView {
    pub inner: Seq<Seq<char>>,
    pub quiet: bool,
}

impl View for Cmd {
    type V = CmdView;

    open spec fn view(&self) -> CmdView {
        CmdView { inner: self.inner@.map_values(|s: String| s@), quiet: self.quiet }
    }
}

/// The words of a command line with blanks between them.
pub open spec fn joined(words: Seq<Seq<char>>) -> Seq<char>
    decreases words.len(),
{
    if words.len() == 0 {
        Seq::empty()
    } else if words.len() == 1 {
        words[0]
    } else {
        joined(words.drop_last()) + " "@ + words.last()
    }
}

impl Cmd {
    /// An empty command line.
    pub fn new(quiet: bool) -> (c: Cmd)
        ensures
            c@ == (CmdView { inner: Seq::empty(), quiet }),
    {
        let c = Self { inner: Vec::new(), quiet };
        assert(c@.inner =~= Seq::empty());
        c
    }

    /// Adds one word to the command line.
    pub fn append(&mut self, cmd: &str) -> (r: &mut Self)
        ensures
            r@ == (CmdView { inner: old(self)@.inner.push(cmd@), ..old(self)@ }),
            *final(self) == *final(r),
    {
        self.inner.push(cmd.to_owned());
        assert(self@.inner =~= old(self)@.inner.push(cmd@));
        self
    }

    /// Whether the command line names a program.
    pub fn is_complete(&self) -> (r: bool)
        ensures
            r == (self@.inner.len() > 0),
    {
        self.inner.len() > 0
    }

    /// The command line in one string, its words parted by blanks.
    pub fn line(&self) -> (s: String)
        ensures
            s@ == joined(self@.inner),
    {
        let mut s = String::new();
        let mut i: usize = 0;
        while i < self.inner.len()
            invariant
                i <= self.inner@.len(),
                s@ == joined(self@.inner.subrange(0, i as int)),
            decreases self.inner@.len() - i,
        {
            if i > 0 {
                s.append(" ");
            }
            s.append(self.inner[i].as_str());
            proof {
                let now = self@.inner.subrange(0, i + 1);
                assert(now.drop_last() =~= self@.inner.subrange(0, i as int));
                assert(now.last() == self.inner@[i as int]@);
            }
            i += 1;
        }
        assert(self@.inner.subrange(0, i as int) =~= self@.inner);
        s
    }

    /// Empties the command line for the next command.
    pub fn reset(&mut self)
        ensures
            final(self)@ == (CmdView { inner: Seq::empty(), ..old(self)@ }),
    {
        self.inner.clear();
        assert(self@.inner =~= Seq::empty());
    }
}

} // verus!
