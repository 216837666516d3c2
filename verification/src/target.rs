//! The machines that the compiler can produce code for.

use vstd::prelude::*;

use crate::text::str_eq;

verus! {

#[derive(Clone, Copy, Debug, PartialEq, Eq, Structural)]
pub enum Target {
    AArch64Darwin,
}

/// The number of targets.
pub const TARGET_COUNT: usize = 1;

/// The target at place `i` in the order in which names are looked up.
pub fn target_at(i: usize) -> (t: Target)
    requires
        i < TARGET_COUNT,
    ensures
        t == Target::AArch64Darwin,
{
    Target::AArch64Darwin
}

impl Target {
    pub open spec fn spec_file_ext(self) -> Seq<char> {
        match self {
            Target::AArch64Darwin => ""@,
        }
    }

    pub open spec fn spec_name(self) -> Seq<char> {
        match self {
            Target::AArch64Darwin => "aarch64-darwin"@,
        }
    }

    /// What the target puts behind the name of an executable.
    pub fn file_ext(self) -> (s: &'static str)
        ensures
            s@ == self.spec_file_ext(),
    {
        match self {
            Target::AArch64Darwin => "",
        }
    }

    /// The name by which the command line selects the target.
    pub fn name(self) -> (s: &'static str)
        ensures
            s@ == self.spec_name(),
    {
        match self {
            Target::AArch64Darwin => "aarch64-darwin",
        }
    }

    /// The target that `name` selects.
    pub fn by_name(name: &str) -> (r: Option<Target>)
        ensures
            match r {
                Some(t) => t.spec_name() == name@,
                None => forall|t: Target| t.spec_name() != name@,
            },
    {
        let mut i: usize = 0;
        while i < TARGET_COUNT
            invariant
                i <= TARGET_COUNT,
                i == 0 || Target::AArch64Darwin.spec_name() != name@,
            decreases TARGET_COUNT - i,
        {
            let t = target_at(i);
            if str_eq(t.name(), name) {
                return Some(t);
            }
            i += 1;
        }
        assert forall|t: Target| t.spec_name() != name@ by {
            assert(t == Target::AArch64Darwin);
        }
        None
    }
}

} // verus!
