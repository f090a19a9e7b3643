use liboj::{Duration, Problem, Report, Resource, Source, TestCase};

fn limit() -> Resource {
    Resource::new(Duration::from_secs(1), Duration::from_secs(2), 16 * 1024 * 1024)
}

#[test]
fn problem_len_counts_cases() {
    let case = TestCase { input: String::from("1 2"), answer: String::from("3") };
    let normal = Problem::Normal { limit: limit(), cases: vec![case.clone(), case.clone()] };
    assert_eq!(normal.len(), 2);
    assert!(!normal.is_empty());
    let special = Problem::Special {
        limit: limit(),
        cases: vec![case],
        spj: Source { language: String::from("c.gcc"), code: String::from("int main() {}") },
    };
    assert_eq!(special.len(), 1);
    assert!(!special.is_empty());
}

#[test]
fn problem_without_cases_is_empty() {
    let normal = Problem::Normal { limit: limit(), cases: vec![] };
    assert_eq!(normal.len(), 0);
    assert!(normal.is_empty());
}

#[test]
fn resource_text_lists_real_cpu_memory() {
    let usage = Resource::new(Duration::from_millis(3), Duration::from_secs(2), 4096);
    assert_eq!(usage.to_text(), "Real Time: 2000000000\nCPU Time: 3000000\nMemory: 4096\n");
}

#[test]
fn report_text_of_each_verdict() {
    let usage = Resource::new(Duration::from_nanos(0), Duration::from_nanos(17), 0);
    assert_eq!(
        Report::Accepted { resource_usage: usage }.to_text(),
        "Accepted:\nReal Time: 17\nCPU Time: 0\nMemory: 0\n\n"
    );
    assert_eq!(Report::WrongAnswer.to_text(), "Wrong Answer\n");
    assert_eq!(Report::TimeLimitExceeded.to_text(), "Time Limit Exceeded\n");
    assert_eq!(Report::MemoryLimitExceeded.to_text(), "Memory Limit Exceeded\n");
    assert_eq!(Report::RuntimeError.to_text(), "Runtime Error\n");
    assert_eq!(Report::CompileError.to_text(), "Compile Error\n");
    assert_eq!(Report::SystemError.to_text(), "System Error\n");
}

#[test]
fn resource_limit_check() {
    assert!(limit().check_limit());
    let equal = Resource::new(Duration::from_secs(1), Duration::from_secs(1), 1);
    assert!(equal.check_limit());
    let no_cpu = Resource::new(Duration::from_secs(0), Duration::from_secs(1), 1);
    assert!(!no_cpu.check_limit());
    let more_cpu = Resource::new(Duration::from_secs(2), Duration::from_secs(1), 1);
    assert!(!more_cpu.check_limit());
    let no_memory = Resource::new(Duration::from_secs(1), Duration::from_secs(1), 0);
    assert!(!no_memory.check_limit());
}
