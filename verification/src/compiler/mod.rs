//! A simple interface to different compilers.
pub mod back_ends;
pub mod backends;

use crate::structures::Source;
use crate::text::{clone_strings, str_eq, string_views};
use crate::time::Duration;
use backends::{builtin_config, get_config, CompilerConfig, ConfigModel, Registry};
use vstd::prelude::*;
use vstd::string::*;

verus! {

/// What one argument of a configuration stands for: the token
/// `{source_file}` for the path of the source file, the token
/// `{executable_file}` for the path of the executable, any other for itself.
pub open spec fn expanded(token: Seq<char>, source_file: Seq<char>, executable_file: Seq<char>) -> Seq<
    char,
> {
    if token == "{source_file}"@ {
        source_file
    } else if token == "{executable_file}"@ {
        executable_file
    } else {
        token
    }
}

/// The arguments of a configuration with the two paths put in, in order.
pub open spec fn expanded_args(
    args: Seq<Seq<char>>,
    source_file: Seq<char>,
    executable_file: Seq<char>,
) -> Seq<Seq<char>> {
    Seq::new(args.len(), |i: int| expanded(args[i], source_file, executable_file))
}

/// The temporary file that holds a source while it is compiled.
#[derive(Debug, PartialEq)]
pub struct SourceFile {
    /// What the name of the file starts with.
    pub prefix: String,
    /// What the name of the file ends with: a dot and the suffix of the
    /// language.
    pub suffix: String,
    /// What is written to the file.
    pub content: String,
}

/// A compiler process to start, with its input and output discarded and its
/// error output captured.
#[derive(Debug, PartialEq)]
pub struct Invocation {
    /// Name or path of the compiler.
    pub program: String,
    /// Arguments of the compiler.
    pub args: Vec<String>,
    /// How long the process may run before it is killed.
    pub timeout: Duration,
}

/// How a compilation ended.
#[derive(Debug, PartialEq)]
pub struct CompileResult {
    /// The compiler exited with code zero.
    pub success: bool,
    /// What the compiler wrote to its error output.
    pub stderr: Vec<u8>,
}

impl CompileResult {
    /// The result of a compiler process that ended with `exit_code`, or
    /// without one where a signal ended it, as when it ran out of time.
    pub fn from_exit(exit_code: Option<i32>, stderr: Vec<u8>) -> (result: CompileResult)
        ensures
            result.success <==> exit_code == Some(0i32),
            result.stderr@ == stderr@,
    {
        let success = match exit_code {
            Some(code) => code == 0,
            None => false,
        };
        CompileResult { success, stderr }
    }
}

/// A simple compiler interface for compile a single file to a executable file.
pub struct Compiler {
    /// Suffix which source file should be used.
    suffix: String,
    /// Command of the compiler in system.
    command: String,
    /// Arguments of the compiler.
    args: Vec<String>,
    /// Timeout of the compiler.
    timeout: Duration,
}

impl Compiler {
    /// Suffix which source file should be used.
    pub closed spec fn suffix(&self) -> Seq<char> {
        self.suffix@
    }

    /// Command of the compiler in system.
    pub closed spec fn command(&self) -> Seq<char> {
        self.command@
    }

    /// Argument templates of the compiler.
    pub closed spec fn args(&self) -> Seq<Seq<char>> {
        string_views(self.args@)
    }

    /// Timeout of the compiler.
    pub closed spec fn timeout(&self) -> Duration {
        self.timeout
    }

    /// The compiler works as `config` says, with a timeout of as many whole
    /// seconds.
    pub open spec fn follows(&self, config: ConfigModel) -> bool {
        &&& self.suffix() == config.suffix
        &&& self.command() == config.command
        &&& self.args() == config.args
        &&& self.timeout()@ == config.timeout * 1_000_000_000
    }

    /// The compiler that a configuration describes.
    pub fn from(config: &CompilerConfig) -> (compiler: Compiler)
        ensures
            compiler.follows(config@),
    {
        Compiler {
            suffix: config.suffix.clone(),
            command: config.command.clone(),
            args: clone_strings(&config.args),
            timeout: Duration::from_secs(config.timeout),
        }
    }

    /// Generate a new compiler for `language`.
    ///
    /// Choose a configuration from backends to build
    /// a suitable compiler for the language and return it.
    /// Or return `None` if the language is not support.
    pub fn new(language: &str) -> (r: Option<Compiler>)
        ensures
            r is Some <==> builtin_config(language@) is Some,
            r matches Some(compiler) ==> compiler.follows(builtin_config(language@)->0),
    {
        match get_config(language) {
            Some(config) => Some(Compiler::from(&config)),
            None => None,
        }
    }

    /// The compiler for `language` in a registry of configurations.
    ///
    /// Returns `None` exactly when the registry has no configuration for
    /// the language.
    pub fn for_language(registry: &Registry, language: &str) -> (r: Option<Compiler>)
        ensures
            r is Some <==> registry@.dom().contains(language@),
            r matches Some(compiler) ==> compiler.follows(registry@[language@]),
    {
        match registry.get(language) {
            Some(config) => Some(Compiler::from(config)),
            None => None,
        }
    }

    /// The temporary file to create for `source`: its name starts with
    /// `source_` and ends with a dot and the suffix of the language, and it
    /// holds the code unchanged.
    pub fn source_file(&self, source: &Source) -> (file: SourceFile)
        ensures
            file.prefix@ == "source_"@,
            file.suffix@ == "."@ + self.suffix(),
            file.content@ == source.code@,
    {
        let mut suffix = String::from_str(".");
        suffix.append(self.suffix.as_str());
        SourceFile {
            prefix: String::from_str("source_"),
            suffix,
            content: source.code.clone(),
        }
    }

    /// The compiler process that turns `source_file` into `executable_file`.
    pub fn invocation(&self, source_file: &str, executable_file: &str) -> (job: Invocation)
        ensures
            job.program@ == self.command(),
            string_views(job.args@) == expanded_args(self.args(), source_file@, executable_file@),
            job.timeout == self.timeout(),
    {
        let mut args: Vec<String> = Vec::new();
        let mut i: usize = 0;
        while i < self.args.len()
            invariant
                i <= self.args@.len(),
                args@.len() == i,
                forall|k: int|
                    0 <= k < i ==> #[trigger] args@[k]@ == expanded(
                        self.args@[k]@,
                        source_file@,
                        executable_file@,
                    ),
            decreases self.args@.len() - i,
        {
            let token = self.args[i].as_str();
            if str_eq(token, "{source_file}") {
                args.push(String::from_str(source_file));
            } else if str_eq(token, "{executable_file}") {
                args.push(String::from_str(executable_file));
            } else {
                args.push(String::from_str(token));
            }
            i = i + 1;
        }
        assert(string_views(args@) =~= expanded_args(self.args(), source_file@, executable_file@));
        Invocation { program: self.command.clone(), args, timeout: self.timeout }
    }
}

} // verus!
