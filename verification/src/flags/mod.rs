//! What the command line asks of the compiler.

use vstd::prelude::*;
use vstd::string::*;

verus! {

pub struct Flags {
    pub program_path: String,
    pub output_path: Option<String>,
    pub source_files: Vec<String>,
    pub target_name: Option<String>,
    pub quiet: bool,
    pub run: bool,
}

/// How the reading of the command line ended.
pub enum FlagsResult {
    /// the flags were read
    Parsed(Flags),
    /// the command line cannot be read; the field says why
    InvalidFlags(String),
    /// the command line asks for the help text
    Help(HelpString),
}

/// The help text, for the name under which the compiler was started.
pub struct HelpString(pub String);

/// The text that explains the options.
pub open spec fn options_text() -> Seq<char> {
    "    -h, --help      show this message!\n    -o, --output    the path to the output file to produce\n    -t, --target    the targeted architecture\n    -r, --run       run the program after compilation\n    -q, --quiet     quiet the steps of compilation and run\n"@
}

/// The help text for a compiler that was started as `program_path`.
pub open spec fn usage(program_path: Seq<char>) -> Seq<char> {
    "USAGE:\n    "@ + program_path + " [OPTIONS] [...]\n\nOPTIONS:\n"@ + options_text()
}

/// Whether `name` ends like a source file does.
pub open spec fn is_source_file(name: Seq<char>) -> bool {
    let bytes = vstd::utf8::encode_utf8(name);
    let suffix = ".hsl".spec_bytes();
    bytes.len() >= suffix.len() && bytes.subrange(bytes.len() - suffix.len(), bytes.len() as int)
        == suffix
}

/// Those of `names` that end like a source file does, in their order.
pub open spec fn source_files(names: Seq<Seq<char>>) -> Seq<Seq<char>>
    decreases names.len(),
{
    if names.len() == 0 {
        Seq::empty()
    } else if is_source_file(names.last()) {
        source_files(names.drop_last()).push(names.last())
    } else {
        source_files(names.drop_last())
    }
}

/// Whether `name` ends like a source file does.
pub fn ends_like_source(name: &str) -> (r: bool)
    ensures
        r == is_source_file(name@),
{
    let bytes = name.as_bytes();
    let suffix = ".hsl".as_bytes();
    if bytes.len() < suffix.len() {
        return false;
    }
    let start = bytes.len() - suffix.len();
    let mut i: usize = 0;
    while i < suffix.len()
        invariant
            i <= suffix@.len(),
            bytes@ == vstd::utf8::encode_utf8(name@),
            suffix@ == ".hsl".spec_bytes(),
            bytes@.len() <= usize::MAX,
            start + suffix@.len() == bytes@.len(),
            forall|k: int| 0 <= k < i ==> bytes@[start + k] == suffix@[k],
        decreases suffix@.len() - i,
    {
        if bytes[start + i] != suffix[i] {
            proof {
                let tail = bytes@.subrange(bytes@.len() - suffix@.len(), bytes@.len() as int);
                assert(tail[i as int] == bytes@[start + i]);
            }
            return false;
        }
        i += 1;
    }
    assert(bytes@.subrange(bytes@.len() - suffix@.len(), bytes@.len() as int) =~= suffix@);
    true
}

impl Flags {
    /// The flags that the matched options and the free arguments give: the
    /// target is the one that was asked for, else the default; the source
    /// files are the free arguments that end in `.hsl`.
    pub fn deduce(
        program_path: &str,
        default_target: Option<String>,
        output_path: Option<String>,
        target_name: Option<String>,
        run: bool,
        quiet: bool,
        frees: &Vec<String>,
    ) -> (flags: Flags)
        ensures
            flags.program_path@ == program_path@,
            flags.output_path == output_path,
            flags.target_name == if target_name is Some {
                target_name
            } else {
                default_target
            },
            flags.run == run,
            flags.quiet == quiet,
            flags.source_files@.map_values(|s: String| s@) == source_files(
                frees@.map_values(|s: String| s@),
            ),
    {
        let mut sources: Vec<String> = Vec::new();
        let mut i: usize = 0;
        while i < frees.len()
            invariant
                i <= frees@.len(),
                sources@.map_values(|s: String| s@) == source_files(
                    frees@.map_values(|s: String| s@).subrange(0, i as int),
                ),
            decreases frees@.len() - i,
        {
            let ghost names = frees@.map_values(|s: String| s@);
            proof {
                assert(names.subrange(0, i + 1).drop_last() =~= names.subrange(0, i as int));
            }
            if ends_like_source(frees[i].as_str()) {
                let ghost before = sources@.map_values(|s: String| s@);
                sources.push(frees[i].clone());
                assert(sources@.map_values(|s: String| s@) =~= before.push(names[i as int]));
            }
            i += 1;
        }
        proof {
            let names = frees@.map_values(|s: String| s@);
            assert(names.subrange(0, i as int) =~= names);
        }
        Flags {
            program_path: program_path.to_owned(),
            output_path,
            source_files: sources,
            target_name: match target_name {
                Some(t) => Some(t),
                None => default_target,
            },
            quiet,
            run,
        }
    }

    /// The help text for the name under which the compiler was started.
    pub fn help_string(&self) -> (h: HelpString)
        ensures
            h.0@ == self.program_path@,
    {
        HelpString(self.program_path.clone())
    }
}

impl HelpString {
    /// The name under which the compiler was started.
    pub open spec fn text(self) -> Seq<char> {
        self.0@
    }

    /// The help text, where the command line asked for it: `help_count` is
    /// the number of times that it did.
    pub fn deduce(program_path: &str, help_count: usize) -> (r: Option<HelpString>)
        ensures
            help_count > 0 ==> r is Some && r.unwrap().text() == program_path@,
            help_count == 0 ==> r is None,
    {
        if help_count > 0 {
            Some(HelpString(program_path.to_owned()))
        } else {
            None
        }
    }

    /// The help text.
    pub fn to_string(&self) -> (s: String)
        ensures
            s@ == usage(self.0@),
    {
        let mut s = "USAGE:\n    ".to_owned();
        s.append(self.0.as_str());
        s.append(" [OPTIONS] [...]\n\nOPTIONS:\n");
        s.append(
            "    -h, --help      show this message!\n    -o, --output    the path to the output file to produce\n    -t, --target    the targeted architecture\n    -r, --run       run the program after compilation\n    -q, --quiet     quiet the steps of compilation and run\n",
        );
        s
    }
}

} // verus!
