//! The compiler driver: what to compile, and the checks on one source text.
use vstd::prelude::*;
use crate::lexer::{byte_len, lex_from, source_fits};
use crate::classfile::{gen_class, written};
use crate::codegen::{ClassPlan, plan_for};
use crate::hir::CompilationUnit;
use crate::lowering::{LowerError, error_message};
use crate::parser::{Parse, Parser, ParseError, parse_of};
use crate::tree_lowering::{lower_compilation_unit, lowering_of};

verus! {

/// What to compile and where the class files go.
#[derive(Debug)]
pub struct CompilerConfig {
    pub source_files: Vec<String>,
    pub output_dir: String,
}

impl CompilerConfig {
    /// No source files, and the current directory as output.
    pub fn new() -> (r: CompilerConfig)
        ensures
            r.source_files@.len() == 0,
            r.output_dir@ == "."@,
    {
        CompilerConfig { source_files: Vec::new(), output_dir: String::from_str(".") }
    }
}

/// The compiler, holding its configuration.
pub struct Compiler {
    config: CompilerConfig,
}

/// `file: message`.
pub open spec fn located(filename: Seq<char>, message: Seq<char>) -> Seq<char> {
    filename + ": "@ + message
}

/// Each parse error as `file: message`, in order.
pub open spec fn located_all(filename: Seq<char>, errors: Seq<ParseError>, es: Seq<String>) -> bool {
    &&& es.len() == errors.len()
    &&& forall|i: int| 0 <= i < es.len() ==> (#[trigger] es[i])@ == located(filename, errors[i].message@)
}

/// One error, `file: message`.
pub open spec fn one_error(es: Seq<String>, filename: Seq<char>, message: Seq<char>) -> bool {
    es.len() == 1 && es[0]@ == located(filename, message)
}

/// The class file of a unit: its first class's plan, written.
pub open spec fn class_made(unit: CompilationUnit, g: Result<Vec<u8>, String>) -> bool {
    exists|plan: ClassPlan| plan_for(unit.type_decls@[0], plan) && written(plan, g)
}

/// What compiling a parsed source gives: its parse errors located, else the
/// lowering error, else the class file's error, else the class's name and bytes.
pub open spec fn compiled_from(p: Parse, filename: Seq<char>, r: Result<(String, Vec<u8>), Vec<String>>) -> bool {
    &&& p.errors@.len() > 0 ==> (r matches Err(es) && located_all(filename, p.errors@, es@))
    &&& p.errors@.len() == 0 ==> exists|l: Result<CompilationUnit, LowerError>|
        lowering_of(p.events@, l) && match l {
            Err(e) => r matches Err(es) && one_error(es@, filename, error_message(e)),
            Ok(u) => exists|g: Result<Vec<u8>, String>|
                class_made(u, g) && match g {
                    Err(m) => r matches Err(es) && one_error(es@, filename, m@),
                    Ok(b) => r matches Ok((n, b2)) && n@ == u.type_decls@[0].name@ && b2@ == b@,
                },
        }
}

/// A message of the form `file: message`.
pub open spec fn is_located(filename: Seq<char>, e: Seq<char>) -> bool {
    exists|m: Seq<char>| e == located(filename, m)
}

impl Compiler {
    pub fn new(config: CompilerConfig) -> (r: Compiler)
        ensures
            r.config() == config,
    {
        Compiler { config }
    }

    pub closed spec fn config(&self) -> CompilerConfig {
        self.config
    }

    /// The configuration the compiler was made with.
    pub fn config_ref(&self) -> (r: &CompilerConfig)
        ensures
            *r == self.config(),
    {
        &self.config
    }

    /// Parses one source text; its parse errors, each as `file: message`, in order.
    pub fn compile_source(&self, source: &str, filename: &str) -> (r: Result<(), Vec<String>>)
        ensures
            r matches Err(es) ==> es@.len() > 0,
            byte_len(source@) > u32::MAX ==> (r matches Err(es) && es@.len() == 1 && es@[0]@ == located(
                filename@,
                "source text too large"@,
            )),
            byte_len(source@) <= u32::MAX && lex_from(source@, 0).len() == 0 ==> r is Ok,
            byte_len(source@) <= u32::MAX ==> exists|p: Parse|
                parse_of(source@, p) && (p.errors@.len() == 0 ==> r is Ok) && (p.errors@.len() > 0 ==> (r matches Err(
                    es,
                ) && located_all(filename@, p.errors@, es@))),
            r matches Err(es) ==> forall|i: int| 0 <= i < es@.len() ==> is_located(filename@, (#[trigger] es@[i])@),
    {
        if !source_fits(source) {
            return Err(located_error(filename, "source text too large"));
        }
        let parse = Parser::parse(source);
        if parse.errors.len() == 0 {
            return Ok(());
        }
        let es = locate_errors(&parse.errors, filename);
        proof {
            assert forall|i: int| 0 <= i < es@.len() implies is_located(filename@, (#[trigger] es@[i])@) by {
                assert(es@[i]@ == located(filename@, parse.errors@[i].message@));
            }
        }
        Err(es)
    }
}

/// `file: message` as the one error of a failed step.
fn located_error(filename: &str, message: &str) -> (r: Vec<String>)
    ensures
        r@.len() == 1,
        r@[0]@ == located(filename@, message@),
{
    let mut m = String::from_str(filename);
    m.append(": ");
    m.append(message);
    let mut es: Vec<String> = Vec::new();
    es.push(m);
    es
}

impl Compiler {
    /// Compiles one source text to the class file of its class: parse, lower,
    /// generate, write. Parse errors come back each as `file: message`; a failed
    /// later step as its one message (`compile_source` and the pipeline's
    /// `compile` for one file). The result names the class by its internal name.
    pub fn compile_to_class(&self, source: &str, filename: &str) -> (r: Result<(String, Vec<u8>), Vec<String>>)
        ensures
            r matches Err(es) ==> es@.len() > 0,
            byte_len(source@) > u32::MAX ==> (r matches Err(es) && es@.len() == 1 && es@[0]@ == located(
                filename@,
                "source text too large"@,
            )),
            r matches Err(es) ==> forall|i: int| 0 <= i < es@.len() ==> is_located(filename@, (#[trigger] es@[i])@),
            byte_len(source@) <= u32::MAX ==> exists|p: Parse| parse_of(source@, p) && compiled_from(p, filename@, r),
    {
        if !source_fits(source) {
            return Err(located_error(filename, "source text too large"));
        }
        let parse = Parser::parse(source);
        self.compile_parsed(&parse, filename)
    }

    /// Compiles a parsed source: its parse errors, each as `file: message`, in
    /// order; else lower, generate and write its class, a failed step giving its
    /// one message. A unit of one plain class without parse errors is lowered.
    pub fn compile_parsed(&self, parse: &Parse, filename: &str) -> (r: Result<(String, Vec<u8>), Vec<String>>)
        ensures
            compiled_from(*parse, filename@, r),
            r matches Err(es) ==> es@.len() > 0,
            r matches Err(es) ==> forall|i: int| 0 <= i < es@.len() ==> is_located(filename@, (#[trigger] es@[i])@),
    {
        if parse.errors.len() > 0 {
            let es = locate_errors(&parse.errors, filename);
            proof {
                assert forall|i: int| 0 <= i < es@.len() implies is_located(filename@, (#[trigger] es@[i])@) by {
                    assert(es@[i]@ == located(filename@, parse.errors@[i].message@));
                }
            }
            return Err(es);
        }
        let lowered = lower_compilation_unit(&parse.events);
        let ghost l = lowered;
        let unit = match lowered {
            Ok(u) => u,
            Err(e) => {
                let m = e.message();
                let r = Err(located_error(filename, m.as_str()));
                proof {
                    assert(compiled_from(*parse, filename@, r));
                    assert(is_located(filename@, r->Err_0@[0]@));
                }
                return r;
            },
        };
        let made = gen_class(&unit);
        let ghost g = made;
        let bytes = match made {
            Ok(b) => b,
            Err(m) => {
                let r = Err(located_error(filename, m.as_str()));
                proof {
                    assert(class_made(unit, g));
                    assert(compiled_from(*parse, filename@, r));
                    assert(is_located(filename@, r->Err_0@[0]@));
                }
                return r;
            },
        };
        let name = unit.type_decls[0].name.clone();
        let r = Ok((name, bytes));
        proof {
            assert(class_made(unit, g));
            assert(compiled_from(*parse, filename@, r));
        }
        r
    }
}

/// Each parse error as `file: message`, in order.
pub fn locate_errors(errors: &Vec<ParseError>, filename: &str) -> (r: Vec<String>)
    ensures
        r@.len() == errors@.len(),
        forall|i: int| 0 <= i < r@.len() ==> (#[trigger] r@[i])@ == located(filename@, errors@[i].message@),
{
    let mut out: Vec<String> = Vec::new();
    let mut i: usize = 0;
    while i < errors.len()
        invariant
            i <= errors@.len(),
            out@.len() == i,
            forall|k: int| 0 <= k < i ==> (#[trigger] out@[k])@ == located(filename@, errors@[k].message@),
        decreases errors@.len() - i,
    {
        let mut m = String::from_str(filename);
        m.append(": ");
        m.append(errors[i].message.as_str());
        out.push(m);
        i = i + 1;
    }
    out
}

} // verus!
