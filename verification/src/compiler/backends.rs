//! The registry of compiler configurations, keyed by language tag.
use crate::text::{clone_strings, str_eq, string_views};
use vstd::prelude::*;
use vstd::string::*;

verus! {

/// How to compile sources of one language.
#[derive(Clone, Debug, PartialEq)]
pub struct CompilerConfig {
    /// Extension of the file that holds the source.
    pub suffix: String,
    /// Name or path of the compiler.
    pub command: String,
    /// Arguments of the compiler. The tokens `{source_file}` and
    /// `{executable_file}` stand for the two paths.
    pub args: Vec<String>,
    /// Seconds that a compilation may take.
    pub timeout: u64,
}

/// What a configuration holds, as mathematical values.
pub struct ConfigModel {
    pub suffix: Seq<char>,
    pub command: Seq<char>,
    pub args: Seq<Seq<char>>,
    pub timeout: nat,
}

impl View for CompilerConfig {
    type V = ConfigModel;

    open spec fn view(&self) -> ConfigModel {
        ConfigModel {
            suffix: self.suffix@,
            command: self.command@,
            args: string_views(self.args@),
            timeout: self.timeout as nat,
        }
    }
}

impl CompilerConfig {
    /// A copy of the configuration.
    pub fn duplicate(&self) -> (copy: CompilerConfig)
        ensures
            copy@ == self@,
    {
        CompilerConfig {
            suffix: self.suffix.clone(),
            command: self.command.clone(),
            args: clone_strings(&self.args),
            timeout: self.timeout,
        }
    }
}

/// The configuration for C sources compiled by gcc.
pub open spec fn c_gcc_model() -> ConfigModel {
    ConfigModel {
        suffix: "c"@,
        command: "gcc"@,
        args: seq![
            "{source_file}"@,
            "-o"@,
            "{executable_file}"@,
            "-O2"@,
            "-Wall"@,
            "-lm"@,
            "--static"@,
            "--std=c99"@,
        ],
        timeout: 5,
    }
}

/// The configuration for C++ sources compiled by g++.
pub open spec fn cpp_gxx_model() -> ConfigModel {
    ConfigModel {
        suffix: "cpp"@,
        command: "g++"@,
        args: seq![
            "{source_file}"@,
            "-o"@,
            "{executable_file}"@,
            "-O2"@,
            "-Wall"@,
            "-lm"@,
            "--static"@,
            "--std=c++11"@,
        ],
        timeout: 5,
    }
}

/// The configuration that is built into the library for a language tag:
/// one for `c.gcc`, one for `cpp.g++`, and none for any other tag.
pub open spec fn builtin_config(language: Seq<char>) -> Option<ConfigModel> {
    if language == "c.gcc"@ {
        Some(c_gcc_model())
    } else if language == "cpp.g++"@ {
        Some(cpp_gxx_model())
    } else {
        None
    }
}

/// The configurations that are built into the library, by language tag.
pub open spec fn builtin_configs() -> Map<Seq<char>, ConfigModel> {
    Map::new(
        |language: Seq<char>| builtin_config(language) is Some,
        |language: Seq<char>| builtin_config(language)->0,
    )
}

fn c_gcc() -> (config: CompilerConfig)
    ensures
        config@ == c_gcc_model(),
{
    let mut args: Vec<String> = Vec::new();
    args.push(String::from_str("{source_file}"));
    args.push(String::from_str("-o"));
    args.push(String::from_str("{executable_file}"));
    args.push(String::from_str("-O2"));
    args.push(String::from_str("-Wall"));
    args.push(String::from_str("-lm"));
    args.push(String::from_str("--static"));
    args.push(String::from_str("--std=c99"));
    assert(string_views(args@) =~= c_gcc_model().args);
    CompilerConfig {
        suffix: String::from_str("c"),
        command: String::from_str("gcc"),
        args,
        timeout: 5,
    }
}

fn cpp_gxx() -> (config: CompilerConfig)
    ensures
        config@ == cpp_gxx_model(),
{
    let mut args: Vec<String> = Vec::new();
    args.push(String::from_str("{source_file}"));
    args.push(String::from_str("-o"));
    args.push(String::from_str("{executable_file}"));
    args.push(String::from_str("-O2"));
    args.push(String::from_str("-Wall"));
    args.push(String::from_str("-lm"));
    args.push(String::from_str("--static"));
    args.push(String::from_str("--std=c++11"));
    assert(string_views(args@) =~= cpp_gxx_model().args);
    CompilerConfig {
        suffix: String::from_str("cpp"),
        command: String::from_str("g++"),
        args,
        timeout: 5,
    }
}

/// A table of compiler configurations by language tag. No tag stands in it
/// twice.
pub struct Registry {
    languages: Vec<String>,
    configs: Vec<CompilerConfig>,
}

impl Registry {
    /// The table holds a configuration for each language, and each language
    /// once.
    #[verifier::type_invariant]
    pub closed spec fn wf(self) -> bool {
        &&& self.languages@.len() == self.configs@.len()
        &&& forall|i: int, j: int|
            0 <= i < j < self.languages@.len() ==> #[trigger] self.languages@[i]@
                != #[trigger] self.languages@[j]@
    }

    /// Where `language` stands in the table, if it does.
    closed spec fn position(self, language: Seq<char>) -> Option<int> {
        if exists|i: int| 0 <= i < self.languages@.len() && self.languages@[i]@ == language {
            Some(
                choose|i: int| 0 <= i < self.languages@.len() && self.languages@[i]@ == language,
            )
        } else {
            None
        }
    }

    /// The configurations of the table by language tag.
    pub closed spec fn view(self) -> Map<Seq<char>, ConfigModel> {
        Map::new(
            |language: Seq<char>| self.position(language) is Some,
            |language: Seq<char>| self.configs@[self.position(language)->0]@,
        )
    }

    /// The language at position `i` is registered with the configuration at
    /// position `i`.
    proof fn lemma_entry(self, i: int)
        requires
            self.wf(),
            0 <= i < self.languages@.len(),
        ensures
            self@.dom().contains(self.languages@[i]@),
            self@[self.languages@[i]@] == self.configs@[i]@,
    {
        let language = self.languages@[i]@;
        let p = self.position(language)->0;
        assert(0 <= p < self.languages@.len() && self.languages@[p]@ == language);
        if p < i {
            assert(self.languages@[p]@ != self.languages@[i]@);
        } else if i < p {
            assert(self.languages@[i]@ != self.languages@[p]@);
        }
    }

    /// A language that stands at no position is not registered.
    proof fn lemma_absent(self, language: Seq<char>)
        requires
            forall|i: int| 0 <= i < self.languages@.len() ==> self.languages@[i]@ != language,
        ensures
            !self@.dom().contains(language),
    {
    }

    /// A table without any configuration.
    pub fn new() -> (registry: Registry)
        ensures
            registry@ == Map::<Seq<char>, ConfigModel>::empty(),
    {
        let registry = Registry { languages: Vec::new(), configs: Vec::new() };
        assert(registry@ =~= Map::<Seq<char>, ConfigModel>::empty());
        registry
    }

    /// Where `language` stands in the table.
    fn find(&self, language: &str) -> (r: Option<usize>)
        ensures
            match r {
                Some(i) => i < self.languages@.len() && self.languages@[i as int]@ == language@,
                None => forall|i: int|
                    0 <= i < self.languages@.len() ==> self.languages@[i]@ != language@,
            },
    {
        let mut i: usize = 0;
        while i < self.languages.len()
            invariant
                i <= self.languages@.len(),
                forall|k: int| 0 <= k < i ==> self.languages@[k]@ != language@,
            decreases self.languages@.len() - i,
        {
            if str_eq(self.languages[i].as_str(), language) {
                return Some(i);
            }
            i = i + 1;
        }
        None
    }

    /// Registers `config` for `language`, in place of what was registered
    /// for it before.
    pub fn insert(&mut self, language: &str, config: CompilerConfig)
        ensures
            final(self)@ == old(self)@.insert(language@, config@),
    {
        proof {
            use_type_invariant(&*self);
        }
        let ghost before = *self;
        let ghost goal = before@.insert(language@, config@);
        let found = self.find(language);
        let mut languages: Vec<String> = clone_strings(&self.languages);
        let mut configs: Vec<CompilerConfig> = Vec::new();
        let mut i: usize = 0;
        while i < self.configs.len()
            invariant
                *self == before,
                before.wf(),
                i <= self.configs@.len(),
                configs@.len() == i,
                forall|k: int| 0 <= k < i ==> #[trigger] configs@[k]@ == if found == Some(
                    k as usize,
                ) {
                    config@
                } else {
                    self.configs@[k]@
                },
            decreases self.configs@.len() - i,
        {
            if found == Some(i) {
                configs.push(config.duplicate());
            } else {
                configs.push(self.configs[i].duplicate());
            }
            i = i + 1;
        }
        if found.is_none() {
            languages.push(String::from_str(language));
            configs.push(config);
        }
        let after = Registry { languages, configs };
        proof {
            let n = before.languages@.len() as int;
            assert forall|key: Seq<char>| #[trigger] after@.dom().contains(key)
                <==> goal.dom().contains(key) by {
                if after@.dom().contains(key) {
                    let q = after.position(key)->0;
                    if q < n {
                        before.lemma_entry(q);
                    }
                }
                if before@.dom().contains(key) {
                    let q = before.position(key)->0;
                    after.lemma_entry(q);
                }
                if key == language@ {
                    match found {
                        Some(f) => after.lemma_entry(f as int),
                        None => after.lemma_entry(n),
                    }
                }
            }
            assert forall|key: Seq<char>| after@.dom().contains(key) implies #[trigger] after@[key]
                == goal[key] by {
                let q = after.position(key)->0;
                after.lemma_entry(q);
                if q < n {
                    before.lemma_entry(q);
                }
            }
            assert(after@ =~= goal);
        }
        *self = after;
    }

    /// The configuration that is registered for `language`.
    ///
    /// Returns `None` exactly when none is registered for it.
    pub fn get(&self, language: &str) -> (r: Option<&CompilerConfig>)
        ensures
            r is Some <==> self@.dom().contains(language@),
            r matches Some(config) ==> config@ == self@[language@],
    {
        proof {
            use_type_invariant(self);
        }
        match self.find(language) {
            Some(i) => {
                proof {
                    self.lemma_entry(i as int);
                }
                Some(&self.configs[i])
            },
            None => {
                proof {
                    self.lemma_absent(language@);
                }
                None
            },
        }
    }

    /// The table of the configurations that are built into the library.
    pub fn builtin() -> (registry: Registry)
        ensures
            registry@ == builtin_configs(),
    {
        let mut registry = Registry::new();
        registry.insert("c.gcc", c_gcc());
        registry.insert("cpp.g++", cpp_gxx());
        proof {
            reveal_strlit("c.gcc");
            reveal_strlit("cpp.g++");
            assert("c.gcc"@.len() != "cpp.g++"@.len());
            assert(registry@ =~= builtin_configs());
        }
        registry
    }
}

/// The built-in configuration for `language`.
///
/// Returns `None` exactly when the library has no configuration for it.
pub fn get_config(language: &str) -> (r: Option<CompilerConfig>)
    ensures
        match r {
            Some(config) => builtin_config(language@) == Some(config@),
            None => builtin_config(language@) is None,
        },
{
    let registry = Registry::builtin();
    match registry.get(language) {
        Some(config) => Some(config.duplicate()),
        None => None,
    }
}

} // verus!
