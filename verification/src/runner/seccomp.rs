//! A model of a system call filter: a default action and a list of rules.
//!
//! The filter is put together here and handed, as plain numbers, to whoever
//! installs it in the kernel.
use vstd::prelude::*;

verus! {

/// How many arguments of a system call a rule can look at.
pub const MAX_ARGS: usize = 6;

/// The error number for an invalid argument.
pub const EINVAL: i32 = 22;

/// The number of a system call.
#[derive(Clone, Copy, Debug, PartialEq, Eq, Structural)]
pub struct Syscall {
    number: u32,
}

impl Syscall {
    /// The number is one that the name resolver can answer with: it fits
    /// in a signed 32-bit integer.
    #[verifier::type_invariant]
    pub closed spec fn wf(self) -> bool {
        self.number <= 0x7fff_ffff
    }

    /// The number of the system call.
    pub closed spec fn view(self) -> nat {
        self.number as nat
    }

    /// The system call that the name resolver answered with `raw`: a
    /// negative answer means that there is no such system call.
    pub fn from_raw(raw: i32) -> (r: Option<Syscall>)
        ensures
            r is Some <==> raw >= 0,
            r matches Some(syscall) ==> syscall@ == raw && syscall.wf(),
    {
        if raw >= 0 {
            Some(Syscall { number: raw as u32 })
        } else {
            None
        }
    }

    /// The number of the system call.
    pub fn number(&self) -> (n: u32)
        ensures
            n == self@,
            n <= 0x7fff_ffff,
    {
        proof {
            use_type_invariant(self);
        }
        self.number
    }

    /// The number of the system call as the filter library takes it.
    pub fn raw(&self) -> (n: i32)
        ensures
            n == self@,
    {
        proof {
            use_type_invariant(self);
        }
        self.number as i32
    }
}

/// What the filter does with a system call.
#[derive(Clone, Copy, Debug, PartialEq, Eq, Structural)]
pub enum Act {
    Allow,
    Kill,
}

impl Act {
    /// The number that stands for the action in the kernel's interface.
    pub open spec fn spec_code(self) -> u32 {
        match self {
            Act::Allow => 0x7fff_0000u32,
            Act::Kill => 0u32,
        }
    }

    /// The number that stands for the action in the kernel's interface.
    #[verifier::when_used_as_spec(spec_code)]
    pub fn code(self) -> (c: u32)
        ensures
            c == self.spec_code(),
    {
        match self {
            Act::Allow => 0x7fff_0000u32,
            Act::Kill => 0u32,
        }
    }
}

/// How an argument of a system call is compared with a value.
#[derive(Clone, Copy, Debug, PartialEq, Eq, Structural)]
pub enum CmpOp {
    NE,
    LT,
    LE,
    EQ,
    GE,
    GT,
}

impl CmpOp {
    /// The number that stands for the comparison in the filter library.
    pub open spec fn spec_code(self) -> u32 {
        match self {
            CmpOp::NE => 1u32,
            CmpOp::LT => 2u32,
            CmpOp::LE => 3u32,
            CmpOp::EQ => 4u32,
            CmpOp::GE => 5u32,
            CmpOp::GT => 6u32,
        }
    }

    /// The number that stands for the comparison in the filter library.
    #[verifier::when_used_as_spec(spec_code)]
    pub fn code(self) -> (c: u32)
        ensures
            c == self.spec_code(),
    {
        match self {
            CmpOp::NE => 1u32,
            CmpOp::LT => 2u32,
            CmpOp::LE => 3u32,
            CmpOp::EQ => 4u32,
            CmpOp::GE => 5u32,
            CmpOp::GT => 6u32,
        }
    }
}

/// One comparison as the filter library takes it: the position of the
/// argument, the number of the comparison, and the value to compare with.
#[derive(Clone, Copy, Debug, PartialEq, Eq, Structural)]
pub struct ArgCmp {
    pub arg: u32,
    pub op: u32,
    pub datum_a: u64,
    pub datum_b: u64,
}

/// The 64 bits of a signed value, read as an unsigned number.
pub open spec fn datum(value: i64) -> u64 {
    if value >= 0 {
        value as u64
    } else {
        (value + 0x1_0000_0000_0000_0000) as u64
    }
}

/// The 64 bits of a signed value, read as an unsigned number.
pub fn to_datum(value: i64) -> (d: u64)
    ensures
        d == datum(value),
{
    let d: u64 = #[verifier::truncate]
    (value as u64);
    assert(d == datum(value)) by (bit_vector)
        requires
            d == value as u64,
    ;
    d
}

/// The position of an argument as the filter library takes it: the low 32
/// bits of its index.
pub fn position(index: usize) -> (p: u32)
    ensures
        p == (index as int) % 0x1_0000_0000,
{
    let wide: u64 = index as u64;
    (wide % 0x1_0000_0000u64) as u32
}

/// What a rule holds, as mathematical values.
pub struct RuleModel {
    pub act: Act,
    pub syscall: Syscall,
    pub pattern: Seq<(CmpOp, i64)>,
}

/// A rule of the filter: what to do with a system call whose arguments
/// match. The comparison at position `i` of the pattern is made with
/// argument `i` of the call.
#[derive(Debug)]
pub struct Rule {
    act: Act,
    syscall: Syscall,
    pattern: Vec<(CmpOp, i64)>,
}

impl View for Rule {
    type V = RuleModel;

    closed spec fn view(&self) -> RuleModel {
        RuleModel { act: self.act, syscall: self.syscall, pattern: self.pattern@ }
    }
}

/// The comparisons of a pattern as the filter library takes them.
pub open spec fn arg_comparisons(pattern: Seq<(CmpOp, i64)>) -> Seq<ArgCmp> {
    Seq::new(
        pattern.len(),
        |i: int|
            ArgCmp {
                arg: (i % 0x1_0000_0000) as u32,
                op: pattern[i].0.spec_code(),
                datum_a: datum(pattern[i].1),
                datum_b: 0,
            },
    )
}

impl Rule {
    /// A rule without comparisons: it matches every call of `syscall`.
    pub fn new(act: Act, syscall: Syscall) -> (rule: Rule)
        ensures
            rule@ == (RuleModel { act, syscall, pattern: Seq::empty() }),
    {
        Rule { act, syscall, pattern: Vec::new() }
    }

    /// A rule that allows `syscall`.
    pub fn whitelist(syscall: Syscall) -> (rule: Rule)
        ensures
            rule@ == (RuleModel { act: Act::Allow, syscall, pattern: Seq::empty() }),
    {
        Rule::new(Act::Allow, syscall)
    }

    /// A rule that kills the caller of `syscall`.
    pub fn blacklist(syscall: Syscall) -> (rule: Rule)
        ensures
            rule@ == (RuleModel { act: Act::Kill, syscall, pattern: Seq::empty() }),
    {
        Rule::new(Act::Kill, syscall)
    }

    /// Adds a comparison for the next argument of the system call.
    pub fn match_arg(&mut self, op: CmpOp, arg: i64)
        ensures
            final(self)@ == (RuleModel {
                pattern: old(self)@.pattern.push((op, arg)),
                ..old(self)@
            }),
    {
        self.pattern.push((op, arg));
    }

    /// The comparisons of the rule, in the order of the arguments.
    pub fn args(&self) -> (pattern: &Vec<(CmpOp, i64)>)
        ensures
            pattern@ == self@.pattern,
    {
        &self.pattern
    }

    /// What the rule does with a matching call.
    pub fn act(&self) -> (act: Act)
        ensures
            act == self@.act,
    {
        self.act
    }

    /// The system call that the rule is about.
    pub fn syscall(&self) -> (syscall: Syscall)
        ensures
            syscall == self@.syscall,
    {
        self.syscall
    }

    /// A copy of the rule.
    pub fn duplicate(&self) -> (copy: Rule)
        ensures
            copy@ == self@,
    {
        let mut pattern: Vec<(CmpOp, i64)> = Vec::new();
        let mut i: usize = 0;
        while i < self.pattern.len()
            invariant
                i <= self.pattern@.len(),
                pattern@ == self.pattern@.take(i as int),
            decreases self.pattern@.len() - i,
        {
            pattern.push(self.pattern[i]);
            i = i + 1;
            assert(pattern@ =~= self.pattern@.take(i as int));
        }
        assert(self.pattern@.take(i as int) =~= self.pattern@);
        Rule { act: self.act, syscall: self.syscall, pattern }
    }

    /// The comparisons of the rule as the filter library takes them.
    pub fn to_arg_cmp(&self) -> (out: Vec<ArgCmp>)
        ensures
            out@ == arg_comparisons(self@.pattern),
    {
        let mut out: Vec<ArgCmp> = Vec::new();
        let mut i: usize = 0;
        while i < self.pattern.len()
            invariant
                i <= self.pattern@.len(),
                out@.len() == i,
                forall|k: int| 0 <= k < i ==> out@[k] == arg_comparisons(self.pattern@)[k],
            decreases self.pattern@.len() - i,
        {
            let (op, value) = self.pattern[i];
            out.push(ArgCmp { arg: position(i), op: op.code(), datum_a: to_datum(value), datum_b: 0 });
            i = i + 1;
        }
        assert(out@ =~= arg_comparisons(self.pattern@));
        out
    }

    /// The call that adds the rule to a filter of the library.
    pub fn to_call(&self) -> (call: RuleCall)
        ensures
            call@ == rule_call(self@),
    {
        let args = self.to_arg_cmp();
        RuleCall {
            action: self.act.code(),
            syscall: self.syscall.raw(),
            arg_cnt: position(self.pattern.len()),
            args,
        }
    }
}

/// An error of the filter library, by its error number. The number is zero
/// where the library answered with a number that stands for no error that
/// the system knows.
#[derive(Clone, Copy, Debug, PartialEq, Eq, Structural)]
pub struct FilterError {
    pub errno: i32,
}

/// Calls `nix::errno::Errno::from_raw` and gives the number of the error
/// that comes back. The error has the number `raw` where the system knows
/// an error of that number, as it does for 1 to 34 on Linux, and the number
/// zero where it knows none, as for every number that is not positive.
#[verifier::external_body]
fn known_errno(raw: i32) -> (number: i32)
    ensures
        number == raw || number == 0,
        1 <= raw <= 34 ==> number == raw,
        raw <= 0 ==> number == 0,
{
    nix::errno::Errno::from_raw(raw) as i32
}

/// The error that a return code of the filter library stands for, given the
/// number of the error that the system knows for it.
pub fn return_code_result(rc: i32, errno: i32) -> (r: Result<(), FilterError>)
    ensures
        r == if rc >= 0 {
            Ok::<(), FilterError>(())
        } else {
            Err::<(), FilterError>(FilterError { errno })
        },
{
    if rc >= 0 {
        Ok(())
    } else {
        Err(FilterError { errno })
    }
}

/// What a return code of the filter library means: success where it is not
/// negative, and otherwise the error whose number is the code negated.
pub fn check_return_code(rc: i32) -> (r: Result<(), FilterError>)
    ensures
        r is Ok <==> rc >= 0,
        r matches Err(e) ==> (e.errno == -rc || e.errno == 0) && (-34 <= rc ==> e.errno == -rc),
{
    if rc >= 0 {
        Ok(())
    } else if rc == i32::MIN {
        return_code_result(rc, 0)
    } else {
        return_code_result(rc, known_errno(-rc))
    }
}

/// One call that adds a rule to a filter of the library.
#[derive(Debug, PartialEq)]
pub struct RuleCall {
    /// The number of the action.
    pub action: u32,
    /// The number of the system call.
    pub syscall: i32,
    /// How many comparisons follow.
    pub arg_cnt: u32,
    /// The comparisons.
    pub args: Vec<ArgCmp>,
}

/// What a rule call holds, as mathematical values.
pub struct RuleCallModel {
    pub action: u32,
    pub syscall: i32,
    pub arg_cnt: u32,
    pub args: Seq<ArgCmp>,
}

impl View for RuleCall {
    type V = RuleCallModel;

    open spec fn view(&self) -> RuleCallModel {
        RuleCallModel {
            action: self.action,
            syscall: self.syscall,
            arg_cnt: self.arg_cnt,
            args: self.args@,
        }
    }
}

/// The call that adds a rule to a filter of the library.
pub open spec fn rule_call(rule: RuleModel) -> RuleCallModel {
    RuleCallModel {
        action: rule.act.spec_code(),
        syscall: rule.syscall@ as i32,
        arg_cnt: (rule.pattern.len() % 0x1_0000_0000) as u32,
        args: arg_comparisons(rule.pattern),
    }
}

/// A whole filter as the library takes it: the number of the default
/// action, then one call for each rule, in the order in which the rules were
/// added.
#[derive(Debug, PartialEq)]
pub struct FilterProgram {
    pub default_action: u32,
    pub rules: Vec<RuleCall>,
}

/// What a filter holds, as mathematical values.
pub struct FilterModel {
    pub default_action: Act,
    pub rules: Seq<RuleModel>,
}

/// A system call filter: a default action, and rules in the order in which
/// they were added. A rule, once added, stays.
#[derive(Debug)]
pub struct Context {
    default_action: Act,
    rules: Vec<Rule>,
}

impl View for Context {
    type V = FilterModel;

    closed spec fn view(&self) -> FilterModel {
        FilterModel {
            default_action: self.default_action,
            rules: Seq::new(self.rules@.len(), |i: int| self.rules@[i]@),
        }
    }
}

impl Default for Context {
    /// An empty filter that kills on every system call.
    fn default() -> (context: Context)
        ensures
            context@ == (FilterModel { default_action: Act::Kill, rules: Seq::empty() }),
    {
        Context::new(Act::Kill)
    }
}

impl Context {
    /// No rule of the filter looks at more arguments than a system call has.
    #[verifier::type_invariant]
    pub closed spec fn wf(self) -> bool {
        forall|i: int| 0 <= i < self.rules@.len() ==> (#[trigger] self.rules@[i])@.pattern.len()
            <= MAX_ARGS
    }

    /// No rule of a filter looks at more arguments than a system call has.
    pub open spec fn rules_fit(filter: FilterModel) -> bool {
        forall|i: int| 0 <= i < filter.rules.len() ==> (#[trigger] filter.rules[i]).pattern.len()
            <= MAX_ARGS
    }

    /// An empty filter with a default action.
    pub fn new(act: Act) -> (context: Context)
        ensures
            context@ == (FilterModel { default_action: act, rules: Seq::empty() }),
    {
        let context = Context { default_action: act, rules: Vec::new() };
        assert(context@.rules =~= Seq::empty());
        context
    }

    /// The default action of the filter.
    pub fn default_action(&self) -> (act: Act)
        ensures
            act == self@.default_action,
    {
        self.default_action
    }

    /// How many rules the filter has.
    pub fn len(&self) -> (n: usize)
        ensures
            n == self@.rules.len(),
            Context::rules_fit(self@),
    {
        proof {
            use_type_invariant(self);
        }
        self.rules.len()
    }

    /// Adds a rule behind the rules that the filter has.
    ///
    /// A rule with more than six comparisons is rejected as an invalid
    /// argument, and the filter stays as it was.
    pub fn add_rule(&mut self, rule: Rule) -> (r: Result<(), FilterError>)
        ensures
            rule@.pattern.len() <= MAX_ARGS ==> r is Ok && final(self)@ == (FilterModel {
                rules: old(self)@.rules.push(rule@),
                ..old(self)@
            }),
            rule@.pattern.len() > MAX_ARGS ==> r == Err::<(), FilterError>(
                FilterError { errno: EINVAL },
            ) && final(self)@ == old(self)@,
    {
        proof {
            use_type_invariant(&*self);
        }
        if rule.args().len() > MAX_ARGS {
            return Err(FilterError { errno: EINVAL });
        }
        let ghost before = self@;
        let mut taken = Context::new(Act::Kill);
        std::mem::swap(self, &mut taken);
        let Context { default_action, rules } = taken;
        let mut rules = rules;
        rules.push(rule);
        *self = Context { default_action, rules };
        assert(self@.rules =~= before.rules.push(rule@));
        Ok(())
    }

    /// Takes every rule out of the filter and gives it a default action.
    pub fn reset(&mut self, default_act: Act)
        ensures
            final(self)@ == (FilterModel { default_action: default_act, rules: Seq::empty() }),
    {
        *self = Context::new(default_act);
    }

    /// A copy of the filter.
    pub fn duplicate(&self) -> (copy: Context)
        ensures
            copy@ == self@,
    {
        proof {
            use_type_invariant(self);
        }
        let mut rules: Vec<Rule> = Vec::new();
        let mut i: usize = 0;
        while i < self.rules.len()
            invariant
                i <= self.rules@.len(),
                rules@.len() == i,
                forall|k: int| 0 <= k < i ==> (#[trigger] rules@[k])@ == self.rules@[k]@,
                self.wf(),
            decreases self.rules@.len() - i,
        {
            rules.push(self.rules[i].duplicate());
            i = i + 1;
        }
        let copy = Context { default_action: self.default_action, rules };
        assert(copy@.rules =~= self@.rules);
        copy
    }

    /// The filter as the library takes it, to be installed on the calling
    /// thread. The filter is used up: what is installed cannot be changed.
    pub fn load(self) -> (program: FilterProgram)
        ensures
            program.default_action == self@.default_action.spec_code(),
            program.rules@.len() == self@.rules.len(),
            forall|i: int|
                0 <= i < self@.rules.len() ==> (#[trigger] program.rules@[i])@ == rule_call(
                    self@.rules[i],
                ),
    {
        proof {
            use_type_invariant(&self);
        }
        let mut calls: Vec<RuleCall> = Vec::new();
        let mut i: usize = 0;
        while i < self.rules.len()
            invariant
                i <= self.rules@.len(),
                calls@.len() == i,
                self.wf(),
                forall|k: int|
                    0 <= k < i ==> (#[trigger] calls@[k])@ == rule_call(self.rules@[k]@),
            decreases self.rules@.len() - i,
        {
            calls.push(self.rules[i].to_call());
            i = i + 1;
        }
        FilterProgram { default_action: self.default_action.code(), rules: calls }
    }
}

} // verus!
