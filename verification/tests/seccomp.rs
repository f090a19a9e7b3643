use liboj::runner::seccomp::{
    check_return_code, position, return_code_result, to_datum, Act, ArgCmp, CmpOp, Context,
    FilterError, Rule, RuleCall, Syscall,
};

#[test]
fn syscall_numbers() {
    assert_eq!(Syscall::from_raw(59).unwrap().number(), 59);
    assert_eq!(Syscall::from_raw(59).unwrap().raw(), 59);
    assert_eq!(Syscall::from_raw(0).unwrap().number(), 0);
    assert_eq!(Syscall::from_raw(i32::MAX).unwrap().number(), 0x7fff_ffff);
    // The resolver answers with a negative number for a name that it does
    // not know.
    assert_eq!(Syscall::from_raw(-1), None);
    assert_eq!(Syscall::from_raw(i32::MIN), None);
}

#[test]
fn action_and_comparison_codes() {
    assert_eq!(Act::Allow.code(), 0x7fff_0000);
    assert_eq!(Act::Kill.code(), 0);
    assert_eq!(CmpOp::NE.code(), 1);
    assert_eq!(CmpOp::LT.code(), 2);
    assert_eq!(CmpOp::LE.code(), 3);
    assert_eq!(CmpOp::EQ.code(), 4);
    assert_eq!(CmpOp::GE.code(), 5);
    assert_eq!(CmpOp::GT.code(), 6);
}

#[test]
fn datum_keeps_the_bits() {
    assert_eq!(to_datum(0), 0);
    assert_eq!(to_datum(1), 1);
    assert_eq!(to_datum(i64::MAX), 0x7fff_ffff_ffff_ffff);
    assert_eq!(to_datum(-1), u64::MAX);
    assert_eq!(to_datum(i64::MIN), 0x8000_0000_0000_0000);
    assert_eq!(position(0), 0);
    assert_eq!(position(5), 5);
}

#[test]
fn rules_collect_comparisons_in_order() {
    let execve = Syscall::from_raw(59).unwrap();
    let mut rule = Rule::new(Act::Kill, execve);
    assert_eq!(rule.act(), Act::Kill);
    assert_eq!(rule.syscall(), execve);
    assert!(rule.args().is_empty());
    assert!(rule.to_arg_cmp().is_empty());
    rule.match_arg(CmpOp::EQ, 0x7ffd_1234);
    rule.match_arg(CmpOp::NE, -1);
    rule.match_arg(CmpOp::GE, 0);
    assert_eq!(rule.args(), &vec![(CmpOp::EQ, 0x7ffd_1234), (CmpOp::NE, -1), (CmpOp::GE, 0)]);
    assert_eq!(
        rule.to_arg_cmp(),
        vec![
            ArgCmp { arg: 0, op: 4, datum_a: 0x7ffd_1234, datum_b: 0 },
            ArgCmp { arg: 1, op: 1, datum_a: u64::MAX, datum_b: 0 },
            ArgCmp { arg: 2, op: 5, datum_a: 0, datum_b: 0 },
        ]
    );
    assert_eq!(Rule::whitelist(execve).act(), Act::Allow);
    assert_eq!(Rule::blacklist(execve).act(), Act::Kill);
    let copy = rule.duplicate();
    assert_eq!(copy.args(), rule.args());
    assert_eq!(copy.act(), rule.act());
    assert_eq!(copy.syscall(), rule.syscall());
}

#[test]
fn rule_as_a_call() {
    let mut rule = Rule::whitelist(Syscall::from_raw(2).unwrap());
    rule.match_arg(CmpOp::LT, 10);
    assert_eq!(
        rule.to_call(),
        RuleCall {
            action: 0x7fff_0000,
            syscall: 2,
            arg_cnt: 1,
            args: vec![ArgCmp { arg: 0, op: 2, datum_a: 10, datum_b: 0 }],
        }
    );
}

#[test]
fn filter_keeps_rules_in_insertion_order() {
    let mut filter = Context::new(Act::Kill);
    assert_eq!(filter.default_action(), Act::Kill);
    assert_eq!(filter.len(), 0);
    let mut first = Rule::whitelist(Syscall::from_raw(1).unwrap());
    first.match_arg(CmpOp::EQ, 1);
    assert_eq!(filter.add_rule(first), Ok(()));
    assert_eq!(filter.add_rule(Rule::whitelist(Syscall::from_raw(60).unwrap())), Ok(()));
    assert_eq!(filter.add_rule(Rule::blacklist(Syscall::from_raw(57).unwrap())), Ok(()));
    assert_eq!(filter.len(), 3);
    let copy = filter.duplicate();
    let program = filter.load();
    assert_eq!(program.default_action, 0);
    assert_eq!(
        program.rules,
        vec![
            RuleCall {
                action: 0x7fff_0000,
                syscall: 1,
                arg_cnt: 1,
                args: vec![ArgCmp { arg: 0, op: 4, datum_a: 1, datum_b: 0 }],
            },
            RuleCall { action: 0x7fff_0000, syscall: 60, arg_cnt: 0, args: vec![] },
            RuleCall { action: 0, syscall: 57, arg_cnt: 0, args: vec![] },
        ]
    );
    assert_eq!(copy.load(), program);
}

#[test]
fn filter_rejects_a_rule_with_too_many_comparisons() {
    let mut filter = Context::default();
    let mut six = Rule::whitelist(Syscall::from_raw(9).unwrap());
    for i in 0..6 {
        six.match_arg(CmpOp::EQ, i);
    }
    let mut seven = six.duplicate();
    seven.match_arg(CmpOp::EQ, 6);
    assert_eq!(filter.add_rule(seven), Err(FilterError { errno: 22 }));
    assert_eq!(filter.len(), 0);
    assert_eq!(filter.add_rule(six), Ok(()));
    assert_eq!(filter.len(), 1);
    assert_eq!(filter.load().rules[0].arg_cnt, 6);
}

#[test]
fn filter_reset() {
    let mut filter = Context::default();
    assert_eq!(filter.default_action(), Act::Kill);
    filter.add_rule(Rule::whitelist(Syscall::from_raw(0).unwrap())).unwrap();
    filter.reset(Act::Allow);
    assert_eq!(filter.default_action(), Act::Allow);
    assert_eq!(filter.len(), 0);
    let program = filter.load();
    assert_eq!(program.default_action, 0x7fff_0000);
    assert!(program.rules.is_empty());
}

#[test]
fn return_codes_of_the_filter_library() {
    assert_eq!(check_return_code(0), Ok(()));
    assert_eq!(check_return_code(1), Ok(()));
    assert_eq!(check_return_code(i32::MAX), Ok(()));
    assert_eq!(check_return_code(-22), Err(FilterError { errno: 22 }));
    assert_eq!(check_return_code(-17), Err(FilterError { errno: 17 }));
    assert_eq!(check_return_code(-13), Err(FilterError { errno: 13 }));
    assert_eq!(check_return_code(-1), Err(FilterError { errno: 1 }));
    assert_eq!(check_return_code(-34), Err(FilterError { errno: 34 }));
    // No error has the number 4000.
    assert_eq!(check_return_code(-4000), Err(FilterError { errno: 0 }));
    assert_eq!(check_return_code(i32::MIN + 1), Err(FilterError { errno: 0 }));
    assert_eq!(check_return_code(i32::MIN), Err(FilterError { errno: 0 }));
    assert_eq!(return_code_result(3, 5), Ok(()));
    assert_eq!(return_code_result(-3, 5), Err(FilterError { errno: 5 }));
}

#[test]
fn default_filter_kills() {
    let filter = Context::default();
    assert_eq!(filter.default_action(), Act::Kill);
    assert_eq!(filter.len(), 0);
    let program = filter.load();
    assert_eq!(program.default_action, 0);
    assert!(program.rules.is_empty());
}
