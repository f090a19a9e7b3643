//! Supported compilers with a fixed command line.
use crate::paths::no_separator;
use crate::text::{str_eq, string_views};
use crate::time::Duration;
use vstd::prelude::*;
use vstd::string::*;

verus! {

/// Milliseconds that a compiler may run.
pub const COMPILE_MILLIS: u128 = 5000;

/// Milliseconds between two looks at a running compiler.
pub const POLL_MILLIS: u64 = 100;

/// The path that `std::path::Path::with_extension` gives for a path and an
/// extension.
pub uninterp spec fn extension_replaced(path: Seq<char>, extension: Seq<char>) -> Seq<char>;

/// The path of `origin_file` under `new_extension`, to which the file is to
/// be renamed.
///
/// Calls `std::path::Path::with_extension`. Nothing is claimed of the result
/// but that it depends on the two texts alone. An extension with a `/` in it
/// is left out, because the call panics on one.
#[verifier::external_body]
fn rename_with_new_extension(origin_file: &str, new_extension: &str) -> (new_file: String)
    requires
        no_separator(new_extension@),
    ensures
        new_file@ == extension_replaced(origin_file@, new_extension@),
{
    std::path::Path::new(origin_file).with_extension(new_extension).to_string_lossy().into_owned()
}

/// One compiler run: the source file is renamed, then the compiler is
/// started with its input and its outputs discarded, and watched.
#[derive(Debug, PartialEq)]
pub struct CompileJob {
    /// The source file as it was handed over.
    pub rename_from: String,
    /// The source file under the extension that the compiler expects.
    pub rename_to: String,
    /// Name of the compiler.
    pub program: String,
    /// Arguments of the compiler.
    pub args: Vec<String>,
}

/// What to do when the time that the compiler has run is known.
#[derive(Clone, Copy, Debug, PartialEq, Eq, Structural)]
pub enum Tick {
    /// The compiler has run too long: kill it; the compilation failed.
    Kill,
    /// Ask whether the compiler has exited.
    TryWait,
}

/// What to do when it is known whether the compiler has exited.
#[derive(Clone, Copy, Debug, PartialEq, Eq, Structural)]
pub enum Waited {
    /// The compiler has exited: the compilation succeeded or failed.
    Finished { success: bool },
    /// The compiler still runs: sleep, then look at the time again.
    Sleep { interval: Duration },
}

impl CompileJob {
    /// The step after a look at the clock. The compiler is killed once it
    /// has run for five seconds.
    pub fn on_tick(elapsed: &Duration) -> (tick: Tick)
        ensures
            tick == if elapsed@ / 1_000_000 >= COMPILE_MILLIS {
                Tick::Kill
            } else {
                Tick::TryWait
            },
    {
        if elapsed.as_millis() >= COMPILE_MILLIS {
            Tick::Kill
        } else {
            Tick::TryWait
        }
    }

    /// The step after a look at the compiler: `status` says whether it has
    /// exited, and if so, whether with success.
    pub fn on_status(status: Option<bool>) -> (waited: Waited)
        ensures
            match status {
                Some(success) => waited == (Waited::Finished { success }),
                None => waited matches Waited::Sleep { interval } && interval@ == POLL_MILLIS
                    * 1_000_000,
            },
    {
        match status {
            Some(success) => Waited::Finished { success },
            None => Waited::Sleep { interval: Duration::from_millis(POLL_MILLIS) },
        }
    }
}

/// The arguments of gcc and g++ but for the language standard.
pub open spec fn common_args(source_file: Seq<char>, executable_file: Seq<char>) -> Seq<Seq<char>> {
    seq![
        source_file,
        "-o"@,
        executable_file,
        "-O2"@,
        "-fno-asm"@,
        "-Wall"@,
        "-lm"@,
        "--static"@,
    ]
}

fn arguments(source_file: &str, executable_file: &str, standard: &str) -> (args: Vec<String>)
    ensures
        string_views(args@) == common_args(source_file@, executable_file@).push(standard@),
{
    let mut args: Vec<String> = Vec::new();
    args.push(String::from_str(source_file));
    args.push(String::from_str("-o"));
    args.push(String::from_str(executable_file));
    args.push(String::from_str("-O2"));
    args.push(String::from_str("-fno-asm"));
    args.push(String::from_str("-Wall"));
    args.push(String::from_str("-lm"));
    args.push(String::from_str("--static"));
    args.push(String::from_str(standard));
    assert(string_views(args@) =~= common_args(source_file@, executable_file@).push(standard@));
    args
}

/// The C compiler gcc.
pub struct CGcc;

impl CGcc {
    /// The extension of a C source file.
    pub fn source_suffix() -> (suffix: &'static str)
        ensures
            suffix@ == "c"@,
            no_separator(suffix@),
    {
        proof {
            reveal_strlit("c");
        }
        "c"
    }

    /// The run of gcc on a source file that already has its extension.
    pub fn job(source_file: &str, renamed: &str, executable_file: &str) -> (job: CompileJob)
        ensures
            job.rename_from@ == source_file@,
            job.rename_to@ == renamed@,
            job.program@ == "gcc"@,
            string_views(job.args@) == common_args(renamed@, executable_file@).push("--std=c99"@),
    {
        CompileJob {
            rename_from: String::from_str(source_file),
            rename_to: String::from_str(renamed),
            program: String::from_str("gcc"),
            args: arguments(renamed, executable_file, "--std=c99"),
        }
    }

    /// Compile a single file to an executable file: the source file gets
    /// the extension `c`, and gcc is run on it.
    pub fn compile(source_file: &str, executable_file: &str) -> (job: CompileJob)
        ensures
            job.rename_from@ == source_file@,
            job.rename_to@ == extension_replaced(source_file@, "c"@),
            job.program@ == "gcc"@,
            string_views(job.args@) == common_args(job.rename_to@, executable_file@).push(
                "--std=c99"@,
            ),
    {
        let renamed = rename_with_new_extension(source_file, CGcc::source_suffix());
        CGcc::job(source_file, renamed.as_str(), executable_file)
    }
}

/// The C++ compiler g++.
pub struct CppGxx;

impl CppGxx {
    /// The extension of a C++ source file.
    pub fn source_suffix() -> (suffix: &'static str)
        ensures
            suffix@ == "cpp"@,
            no_separator(suffix@),
    {
        proof {
            reveal_strlit("cpp");
        }
        "cpp"
    }

    /// The run of g++ on a source file that already has its extension.
    pub fn job(source_file: &str, renamed: &str, executable_file: &str) -> (job: CompileJob)
        ensures
            job.rename_from@ == source_file@,
            job.rename_to@ == renamed@,
            job.program@ == "g++"@,
            string_views(job.args@) == common_args(renamed@, executable_file@).push(
                "--std=c++11"@,
            ),
    {
        CompileJob {
            rename_from: String::from_str(source_file),
            rename_to: String::from_str(renamed),
            program: String::from_str("g++"),
            args: arguments(renamed, executable_file, "--std=c++11"),
        }
    }

    /// Compile a single file to an executable file: the source file gets
    /// the extension `cpp`, and g++ is run on it.
    pub fn compile(source_file: &str, executable_file: &str) -> (job: CompileJob)
        ensures
            job.rename_from@ == source_file@,
            job.rename_to@ == extension_replaced(source_file@, "cpp"@),
            job.program@ == "g++"@,
            string_views(job.args@) == common_args(job.rename_to@, executable_file@).push(
                "--std=c++11"@,
            ),
    {
        let renamed = rename_with_new_extension(source_file, CppGxx::source_suffix());
        CppGxx::job(source_file, renamed.as_str(), executable_file)
    }
}

/// The way to compile the sources of one language.
#[derive(Clone, Copy, Debug, PartialEq, Eq, Structural)]
pub enum CompileFn {
    CGcc,
    CppGxx,
}

impl CompileFn {
    /// Compile a single file to an executable file.
    pub fn compile(&self, source_file: &str, executable_file: &str) -> (job: CompileJob)
        ensures
            job.rename_from@ == source_file@,
            match *self {
                CompileFn::CGcc => {
                    &&& job.rename_to@ == extension_replaced(source_file@, "c"@)
                    &&& job.program@ == "gcc"@
                    &&& string_views(job.args@) == common_args(
                        job.rename_to@,
                        executable_file@,
                    ).push("--std=c99"@)
                },
                CompileFn::CppGxx => {
                    &&& job.rename_to@ == extension_replaced(source_file@, "cpp"@)
                    &&& job.program@ == "g++"@
                    &&& string_views(job.args@) == common_args(
                        job.rename_to@,
                        executable_file@,
                    ).push("--std=c++11"@)
                },
            },
    {
        match self {
            CompileFn::CGcc => CGcc::compile(source_file, executable_file),
            CompileFn::CppGxx => CppGxx::compile(source_file, executable_file),
        }
    }
}

/// The way to compile each language: gcc for `c.gcc`, g++ for `cpp.gxx`,
/// none for any other.
pub open spec fn compile_fn_of(language: Seq<char>) -> Option<CompileFn> {
    if language == "c.gcc"@ {
        Some(CompileFn::CGcc)
    } else if language == "cpp.gxx"@ {
        Some(CompileFn::CppGxx)
    } else {
        None
    }
}

/// The way to compile `language`, or an error where the language is not
/// supported.
pub fn get_compile_fn(language: &str) -> (r: Result<CompileFn, &'static str>)
    ensures
        match r {
            Ok(compile) => compile_fn_of(language@) == Some(compile),
            Err(message) => {
                &&& compile_fn_of(language@) is None
                &&& message@ == "Language or compiler is not support"@
            },
        },
{
    if str_eq(language, "c.gcc") {
        Ok(CompileFn::CGcc)
    } else if str_eq(language, "cpp.gxx") {
        Ok(CompileFn::CppGxx)
    } else {
        Err("Language or compiler is not support")
    }
}

} // verus!
