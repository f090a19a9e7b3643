use liboj::compiler::back_ends::{
    get_compile_fn, CGcc, CompileFn, CompileJob, CppGxx, Tick, Waited,
};
use liboj::compiler::backends::{get_config, CompilerConfig, Registry};
use liboj::compiler::{CompileResult, Compiler};
use liboj::{Duration, Source};

fn strings(items: &[&str]) -> Vec<String> {
    items.iter().map(|s| s.to_string()).collect()
}

#[test]
fn builtin_config_for_c() {
    let config = get_config("c.gcc").unwrap();
    assert_eq!(config.suffix, "c");
    assert_eq!(config.command, "gcc");
    assert_eq!(
        config.args,
        strings(&[
            "{source_file}",
            "-o",
            "{executable_file}",
            "-O2",
            "-Wall",
            "-lm",
            "--static",
            "--std=c99"
        ])
    );
    assert_eq!(config.timeout, 5);
}

#[test]
fn builtin_config_for_cpp() {
    let config = get_config("cpp.g++").unwrap();
    assert_eq!(config.suffix, "cpp");
    assert_eq!(config.command, "g++");
    assert_eq!(config.args[0], "{source_file}");
    assert_eq!(config.args[7], "--std=c++11");
    assert_eq!(config.timeout, 5);
}

#[test]
fn unregistered_languages_have_no_compiler() {
    for tag in ["", "c", "gcc", "c.gcc ", "C.GCC", "cpp.gxx", "java.javac", "rust"] {
        assert!(get_config(tag).is_none(), "{:?}", tag);
        assert!(Compiler::new(tag).is_none(), "{:?}", tag);
    }
    for tag in ["c.gcc", "cpp.g++"] {
        assert!(get_config(tag).is_some());
        assert!(Compiler::new(tag).is_some());
    }
}

#[test]
fn registry_lookup() {
    let mut registry = Registry::new();
    assert!(registry.get("py").is_none());
    assert!(Compiler::for_language(&registry, "py").is_none());
    let python = CompilerConfig {
        suffix: String::from("py"),
        command: String::from("/usr/bin/python3"),
        args: strings(&["-m", "py_compile", "{source_file}"]),
        timeout: 3,
    };
    registry.insert("py", python.clone());
    assert_eq!(registry.get("py"), Some(&python));
    assert!(registry.get("py ").is_none());
    let compiler = Compiler::for_language(&registry, "py").unwrap();
    let job = compiler.invocation("/tmp/source_1.py", "/tmp/out");
    assert_eq!(job.program, "/usr/bin/python3");
    assert_eq!(job.args, strings(&["-m", "py_compile", "/tmp/source_1.py"]));
    assert_eq!(job.timeout, Duration::from_secs(3));
    assert!(Compiler::for_language(&registry, "c.gcc").is_none());
}

#[test]
fn registry_insert_replaces() {
    let mut registry = Registry::builtin();
    let other = CompilerConfig {
        suffix: String::from("c"),
        command: String::from("clang"),
        args: strings(&["{source_file}"]),
        timeout: 9,
    };
    registry.insert("c.gcc", other.clone());
    assert_eq!(registry.get("c.gcc"), Some(&other));
    assert_eq!(registry.get("cpp.g++").unwrap().command, "g++");
}

#[test]
fn c_compile_success_plan() {
    let source = Source {
        language: String::from("c.gcc"),
        code: String::from("#include<stdio.h>\nint main() { return 0; }"),
    };
    let compiler = Compiler::new(&source.language).unwrap();
    let file = compiler.source_file(&source);
    assert_eq!(file.prefix, "source_");
    assert_eq!(file.suffix, ".c");
    assert_eq!(file.content, "#include<stdio.h>\nint main() { return 0; }");
    assert_eq!(file.content.as_bytes(), source.code.as_bytes());
    let job = compiler.invocation("/tmp/source_ab12.c", "/tmp/exe");
    assert_eq!(job.program, "gcc");
    assert_eq!(
        job.args,
        strings(&[
            "/tmp/source_ab12.c",
            "-o",
            "/tmp/exe",
            "-O2",
            "-Wall",
            "-lm",
            "--static",
            "--std=c99"
        ])
    );
    assert_eq!(job.timeout, Duration::from_secs(5));
    let result = CompileResult::from_exit(Some(0), Vec::new());
    assert!(result.success);
    assert!(result.stderr.is_empty());
}

#[test]
fn c_compile_failure_plan() {
    let source = Source {
        language: String::from("c.gcc"),
        code: String::from("#include<stdio.h>\nint main() { return 0 }"),
    };
    let compiler = Compiler::new(&source.language).unwrap();
    assert_eq!(compiler.source_file(&source).content, source.code);
    let stderr = b"error: expected ';' before '}' token".to_vec();
    let result = CompileResult::from_exit(Some(1), stderr.clone());
    assert!(!result.success);
    assert_eq!(result.stderr, stderr);
}

#[test]
fn compile_result_of_each_exit() {
    assert!(CompileResult::from_exit(Some(0), vec![1, 2]).success);
    assert!(!CompileResult::from_exit(Some(1), vec![]).success);
    assert!(!CompileResult::from_exit(Some(-1), vec![]).success);
    assert!(!CompileResult::from_exit(Some(i32::MIN), vec![]).success);
    // Killed by a signal, as when the time ran out.
    let killed = CompileResult::from_exit(None, b"partial".to_vec());
    assert!(!killed.success);
    assert_eq!(killed.stderr, b"partial");
}

#[test]
fn invocation_expands_only_whole_tokens() {
    let mut registry = Registry::new();
    registry.insert(
        "x",
        CompilerConfig {
            suffix: String::from("x"),
            command: String::from("xc"),
            args: strings(&[
                "{executable_file}",
                "{source_file}",
                "{source_file}",
                "-o{executable_file}",
                " {source_file}",
                "",
            ]),
            timeout: 0,
        },
    );
    let compiler = Compiler::for_language(&registry, "x").unwrap();
    let job = compiler.invocation("S", "E");
    assert_eq!(job.args, strings(&["E", "S", "S", "-o{executable_file}", " {source_file}", ""]));
    assert_eq!(job.timeout, Duration::from_secs(0));
}

#[test]
fn fixed_back_ends() {
    assert_eq!(get_compile_fn("c.gcc"), Ok(CompileFn::CGcc));
    assert_eq!(get_compile_fn("cpp.gxx"), Ok(CompileFn::CppGxx));
    assert_eq!(get_compile_fn("cpp.g++"), Err("Language or compiler is not support"));
    assert_eq!(get_compile_fn(""), Err("Language or compiler is not support"));
    assert_eq!(CGcc::source_suffix(), "c");
    assert_eq!(CppGxx::source_suffix(), "cpp");
}

#[test]
fn gcc_job_renames_and_compiles() {
    let job = CGcc::compile("/work/c_compile_test.txt", "/work/c_compile_test.exe");
    assert_eq!(job.rename_from, "/work/c_compile_test.txt");
    assert_eq!(job.rename_to, "/work/c_compile_test.c");
    assert_eq!(job.program, "gcc");
    assert_eq!(
        job.args,
        strings(&[
            "/work/c_compile_test.c",
            "-o",
            "/work/c_compile_test.exe",
            "-O2",
            "-fno-asm",
            "-Wall",
            "-lm",
            "--static",
            "--std=c99"
        ])
    );
    let same = get_compile_fn("c.gcc")
        .unwrap()
        .compile("/work/c_compile_test.txt", "/work/c_compile_test.exe");
    assert_eq!(same, job);
}

#[test]
fn gxx_job_renames_and_compiles() {
    let job = CppGxx::compile("/work/cpp_compile_test", "/work/cpp_compile_test.exe");
    assert_eq!(job.rename_from, "/work/cpp_compile_test");
    assert_eq!(job.rename_to, "/work/cpp_compile_test.cpp");
    assert_eq!(job.program, "g++");
    assert_eq!(job.args[0], "/work/cpp_compile_test.cpp");
    assert_eq!(job.args[4], "-fno-asm");
    assert_eq!(job.args[8], "--std=c++11");
    assert_eq!(job.args.len(), 9);
    let same = get_compile_fn("cpp.gxx")
        .unwrap()
        .compile("/work/cpp_compile_test", "/work/cpp_compile_test.exe");
    assert_eq!(same, job);
}

#[test]
fn job_on_a_given_name() {
    let job = CGcc::job("a.txt", "a.c", "a.out");
    assert_eq!(job.rename_from, "a.txt");
    assert_eq!(job.rename_to, "a.c");
    assert_eq!(job.args[0], "a.c");
    assert_eq!(job.args[2], "a.out");
}

#[test]
fn poll_kills_after_five_seconds() {
    assert_eq!(CompileJob::on_tick(&Duration::from_millis(0)), Tick::TryWait);
    assert_eq!(CompileJob::on_tick(&Duration::from_millis(4_999)), Tick::TryWait);
    assert_eq!(CompileJob::on_tick(&Duration::from_nanos(4_999_999_999)), Tick::TryWait);
    assert_eq!(CompileJob::on_tick(&Duration::from_millis(5_000)), Tick::Kill);
    assert_eq!(CompileJob::on_tick(&Duration::from_secs(3_600)), Tick::Kill);
}

#[test]
fn poll_sleeps_while_the_compiler_runs() {
    assert_eq!(CompileJob::on_status(Some(true)), Waited::Finished { success: true });
    assert_eq!(CompileJob::on_status(Some(false)), Waited::Finished { success: false });
    assert_eq!(
        CompileJob::on_status(None),
        Waited::Sleep { interval: Duration::from_millis(100) }
    );
}
