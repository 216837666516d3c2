//! One run of the compiler: what was asked for, and the program read so far.

use vstd::prelude::*;
use vstd::string::*;

use crate::codegen::aarch64::{gen_program, program_resolved, Codegen, CodegenView};
use crate::flags::Flags;
use crate::fs::{extension, get_file_extension, stem, strip_extension};
use crate::ir::{Program, ProgramView};
use crate::parser::slt::{Builder, NavigableSlt, SltView, SymbolLookupTable};
use crate::parser::{Parser, ParserView};
use crate::semantic::{fns_errors, resolved, together, validate};
use crate::target::Target;

verus! {

pub struct Compiler {
    pub flags: Flags,
    pub target: Target,
    pub program: Program,
    /// where the executable goes
    pub program_path: String,
    /// where the object file goes
    pub object_path: String,
    /// where the assembly goes
    pub output_path: String,
}

impl Compiler {
    /// A compiler for the target that the flags name, without a program
    /// yet; `None` where the flags name no target that is known.
    pub fn new(flags: Flags, program_path: String, object_path: String, output_path: String) -> (r:
        Option<Compiler>)
        ensures
            match r {
                Some(c) => {
                    &&& flags.target_name is Some
                    &&& c.target.spec_name() == flags.target_name->0@
                    &&& c.flags == flags
                    &&& c.program@ == (ProgramView { func: Seq::empty(), extrn: Seq::empty() })
                    &&& c.program_path == program_path
                    &&& c.object_path == object_path
                    &&& c.output_path == output_path
                },
                None => flags.target_name is None || forall|t: Target|
                    t.spec_name() != flags.target_name->0@,
            },
    {
        let target = match &flags.target_name {
            Some(name) => match Target::by_name(name.as_str()) {
                Some(t) => t,
                None => {
                    return None;
                },
            },
            None => {
                return None;
            },
        };

        Some(
            Self { flags, target, program: Program::new(), program_path, object_path, output_path },
        )
    }

    /// Calls `func` with each source file in turn, up to the first for
    /// which it fails; the error of that call is handed on.
    pub fn try_for_each_source_files<F, E>(&mut self, func: F) -> (r: Result<(), E>)
        where F: Fn(&String) -> Result<(), E>
        requires
            forall|i: int|
                0 <= i < old(self).flags.source_files@.len() ==> call_requires(
                    func,
                    (&#[trigger] old(self).flags.source_files@[i],),
                ),
        ensures
            *final(self) == *old(self),
            match r {
                Ok(_) => forall|i: int|
                    0 <= i < old(self).flags.source_files@.len() ==> call_ensures(
                        func,
                        (&#[trigger] old(self).flags.source_files@[i],),
                        Ok::<(), E>(()),
                    ),
                Err(e) => exists|k: int|
                    0 <= k < old(self).flags.source_files@.len() && call_ensures(
                        func,
                        (&#[trigger] old(self).flags.source_files@[k],),
                        Err::<(), E>(e),
                    ) && forall|i: int|
                        0 <= i < k ==> call_ensures(
                            func,
                            (&#[trigger] old(self).flags.source_files@[i],),
                            Ok::<(), E>(()),
                        ),
            },
    {
        let mut i: usize = 0;
        while i < self.flags.source_files.len()
            invariant
                i <= self.flags.source_files@.len(),
                *self == *old(self),
                forall|j: int|
                    0 <= j < self.flags.source_files@.len() ==> call_requires(
                        func,
                        (&#[trigger] self.flags.source_files@[j],),
                    ),
                forall|j: int|
                    0 <= j < i ==> call_ensures(
                        func,
                        (&#[trigger] self.flags.source_files@[j],),
                        Ok::<(), E>(()),
                    ),
            decreases self.flags.source_files@.len() - i,
        {
            let called = func(&self.flags.source_files[i]);
            match called {
                Ok(u) => {
                    assert(u == ());
                    assert(called == Ok::<(), E>(()));
                },
                Err(e) => {
                    return Err(e);
                },
            }
            i += 1;
        }
        Ok(())
    }

    /// The program, to add to it.
    pub fn program_mut(&mut self) -> (p: &mut Program)
        ensures
            *p == old(self).program,
            final(self).program == *final(p),
            final(self).flags == old(self).flags,
            final(self).target == old(self).target,
            final(self).program_path == old(self).program_path,
            final(self).object_path == old(self).object_path,
            final(self).output_path == old(self).output_path,
    {
        &mut self.program
    }
}


/// Why a program was not compiled.
#[derive(Debug, PartialEq, Eq)]
pub enum CompileError {
    /// the source files hold no program that can be compiled; the field
    /// is the number of errors that were counted while the files were read
    /// and the calls checked
    Errors(usize),
    /// the program uses a variable that no scope around the use declares
    Unresolved,
}

/// What was read from the source files so far.
pub struct Parsed {
    pub program: ProgramView,
    /// the number of scopes made so far
    pub regions: u32,
    /// the root of the symbol lookup table
    pub slt: SltView,
    /// the number of errors counted so far
    pub errors: usize,
    /// whether every file was read to its end
    pub complete: bool,
}

impl Parsed {
    /// The start of a run: the program as given, a root scope without
    /// declarations, no error.
    pub open spec fn initial(program: ProgramView) -> Parsed {
        Parsed { program, regions: 1, slt: SltView::empty(0, 0), errors: 0, complete: true }
    }

    /// What was read once the text `source` was read too. Its functions
    /// join the program and the root scope; its errors are added to the
    /// count.
    pub open spec fn source(self, source: Seq<char>) -> Parsed {
        let r = ParserView::initial(vstd::utf8::encode_utf8(source)).parse(
            self.program,
            self.regions,
            self.slt,
        );
        Parsed {
            program: r.2,
            regions: r.3,
            slt: r.4,
            errors: together(self.errors, r.1.err_cpt),
            complete: self.complete && r.0,
        }
    }

    /// What was read once the texts from the `i`th on were read too.
    pub open spec fn sources(self, sources: Seq<Seq<char>>, i: nat) -> Parsed
        decreases sources.len() - i,
    {
        if i >= sources.len() {
            self
        } else {
            self.source(sources[i as int]).sources(sources, i + 1)
        }
    }
}

/// The assembly of the program that the texts `sources` hold, added to
/// `program`. The errors of all texts and of all calls are counted before
/// the run ends with them; a program without such errors in which a name
/// does not resolve is refused too.
pub open spec fn compiled(program: ProgramView, sources: Seq<Seq<char>>) -> Result<
    Seq<u8>,
    CompileError,
> {
    let p = Parsed::initial(program).sources(sources, 0);
    let errors = together(p.errors, fns_errors(0, p.program.func, seq![p.slt], 0, 0));
    if errors > 0 || !p.complete {
        Err(CompileError::Errors(errors))
    } else if !program_resolved(p.program, seq![p.slt], 0) {
        Err(CompileError::Unresolved)
    } else {
        Ok(gen_program(CodegenView::initial(), p.program, seq![p.slt], 0).out)
    }
}

impl Compiler {
    /// Compiles the texts of the source files, in their order, to
    /// assembly. The functions that were read stay in the program of the
    /// compiler.
    pub fn compile(&mut self, sources: &Vec<String>) -> (r: Result<Vec<u8>, CompileError>)
        ensures
            match r {
                Ok(out) => compiled(old(self).program@, sources@.map_values(|s: String| s@)) == Ok::<
                    Seq<u8>,
                    CompileError,
                >(out@),
                Err(e) => compiled(old(self).program@, sources@.map_values(|s: String| s@)) == Err::<
                    Seq<u8>,
                    CompileError,
                >(e),
            },
            final(self).program@ == Parsed::initial(old(self).program@).sources(
                sources@.map_values(|s: String| s@),
                0,
            ).program,
            final(self).flags == old(self).flags,
            final(self).target == old(self).target,
            final(self).program_path == old(self).program_path,
            final(self).object_path == old(self).object_path,
            final(self).output_path == old(self).output_path,
    {
        let ghost texts = sources@.map_values(|s: String| s@);
        let mut slt_builder = Builder::new();
        let mut slt = slt_builder.region();
        let mut err_cpt: usize = 0;
        let mut complete = true;

        let mut i: usize = 0;
        while i < sources.len()
            invariant
                i <= sources@.len(),
                texts == sources@.map_values(|s: String| s@),
                slt.wf(),
                self.flags == old(self).flags,
                self.target == old(self).target,
                self.program_path == old(self).program_path,
                self.object_path == old(self).object_path,
                self.output_path == old(self).output_path,
                (Parsed {
                    program: self.program@,
                    regions: slt_builder.region_count,
                    slt: slt@,
                    errors: err_cpt,
                    complete,
                }).sources(texts, i as nat) == Parsed::initial(old(self).program@).sources(texts, 0),
            decreases sources@.len() - i,
        {
            let mut parser = Parser::new(sources[i].as_str());
            let read = parser.parse(&mut self.program, &mut slt_builder, &mut slt);
            if read.is_none() {
                complete = false;
            }
            err_cpt = match err_cpt.checked_add(parser.err_cpt) {
                Some(sum) => sum,
                None => usize::MAX,
            };
            i += 1;
        }

        let nav = NavigableSlt::root(&slt);
        let found = validate(&self.program, &nav);
        err_cpt = match err_cpt.checked_add(found) {
            Some(sum) => sum,
            None => usize::MAX,
        };
        if err_cpt != 0 || !complete {
            return Err(CompileError::Errors(err_cpt));
        }
        if !resolved(&self.program, &nav) {
            return Err(CompileError::Unresolved);
        }
        let mut childs = nav.childs();
        let mut codegen = Codegen::new(&*self);
        codegen.generate_program(&self.program, &nav, &mut childs);
        Ok(codegen.out)
    }
}


/// The path of the executable: the path that was asked for, with the
/// extension of the target where it has none of its own; where no path was
/// asked for, the path of the source file with the extension of the target
/// in place of its own.
pub open spec fn program_path(output_path: Option<Seq<char>>, source_file: Seq<char>, target: Target) -> Seq<
    char,
> {
    match output_path {
        Some(path) => if extension(vstd::utf8::encode_utf8(path)).len() == 0 {
            path + target.spec_file_ext()
        } else {
            path
        },
        None => vstd::utf8::decode_utf8(stem(vstd::utf8::encode_utf8(source_file)))
            + target.spec_file_ext(),
    }
}

/// The path of the executable.
pub fn build_program_path(output_path: Option<&str>, source_file: &str, target: Target) -> (path:
    String)
    ensures
        path@ == program_path(
            match output_path {
                Some(p) => Some(p@),
                None => None,
            },
            source_file@,
            target,
        ),
{
    match output_path {
        Some(program_path) => {
            if get_file_extension(program_path).as_bytes().len() == 0 {
                let mut path = program_path.to_owned();
                path.append(target.file_ext());
                path
            } else {
                program_path.to_owned()
            }
        },
        None => {
            let stripped = strip_extension(source_file);
            proof {
                vstd::utf8::encode_utf8_decode_utf8(stripped@);
            }
            let mut path = stripped.to_owned();
            path.append(target.file_ext());
            path
        },
    }
}

} // verus!
