//! The cpuacct controller: the CPU time that a cgroup has used.
use super::super::hierarchy::{Hierarchy, NanosFile, PidFile};
use super::super::{leaf, Context, ContextModel};
use super::Controller;
use crate::paths::{join, joined};
use crate::text::{
    lines, parse_u64, parse_usize, split_lines, split_words, unsigned_value, views, words,
};
use crate::time::Duration;
use vstd::prelude::*;
use vstd::string::*;

verus! {

/// The nanoseconds that one word of a usage file denotes: an unsigned
/// decimal number that fits in 64 bits.
pub open spec fn word_nanos(word: Seq<u8>) -> Option<nat> {
    match unsigned_value(word) {
        Some(v) => if v <= u64::MAX {
            Some(v)
        } else {
            None
        },
        None => None,
    }
}

/// The index of a CPU that one word of a usage file denotes: an unsigned
/// decimal number that fits in a `usize`.
pub open spec fn word_index(word: Seq<u8>) -> Option<nat> {
    match unsigned_value(word) {
        Some(v) => if v <= usize::MAX {
            Some(v)
        } else {
            None
        },
        None => None,
    }
}

/// Reads one word as a span of nanoseconds.
fn parse_nanos(word: &[u8]) -> (r: Option<Duration>)
    ensures
        r is Some <==> word_nanos(word@) is Some,
        r matches Some(d) ==> d@ == word_nanos(word@)->0,
{
    match parse_u64(word) {
        Some(nanos) => Some(Duration::from_nanos(nanos)),
        None => None,
    }
}

/// A file that holds one span of time for each CPU, as numbers of
/// nanoseconds with whitespace between them. It is only read.
#[derive(Debug, PartialEq)]
pub struct PerCpuFile {
    pub path: String,
}

/// Every word of the content is a number of nanoseconds.
pub open spec fn per_cpu_well_formed(content: Seq<u8>) -> bool {
    forall|i: int|
        0 <= i < words(content).len() ==> word_nanos(#[trigger] words(content)[i]) is Some
}

/// The nanoseconds that the content of a per-CPU file lists.
pub open spec fn per_cpu_nanos(content: Seq<u8>) -> Seq<nat> {
    Seq::new(words(content).len(), |i: int| word_nanos(words(content)[i])->0)
}

/// The lengths of a list of spans, in nanoseconds.
pub open spec fn span_views(spans: Seq<Duration>) -> Seq<nat> {
    Seq::new(spans.len(), |i: int| spans[i]@)
}

impl PerCpuFile {
    /// The content is read as one number of nanoseconds for each CPU.
    ///
    /// Returns `None` exactly when some word of the content is no such
    /// number.
    pub fn read(&self, content: &[u8]) -> (r: Option<Vec<Duration>>)
        ensures
            r is Some <==> per_cpu_well_formed(content@),
            r matches Some(spans) ==> span_views(spans@) == per_cpu_nanos(content@),
    {
        let parts = split_words(content);
        let mut spans: Vec<Duration> = Vec::new();
        let mut i: usize = 0;
        while i < parts.len()
            invariant
                i <= parts@.len(),
                views(parts@) == words(content@),
                spans@.len() == i,
                forall|k: int|
                    0 <= k < i ==> word_nanos(#[trigger] words(content@)[k]) == Some(spans@[k]@),
            decreases parts@.len() - i,
        {
            assert(views(parts@)[i as int] == parts@[i as int]@);
            match parse_nanos(parts[i].as_slice()) {
                Some(span) => {
                    spans.push(span);
                },
                None => {
                    assert(word_nanos(words(content@)[i as int]) is None);
                    return None;
                },
            }
            i = i + 1;
        }
        assert(views(parts@).len() == parts@.len());
        assert(span_views(spans@) =~= per_cpu_nanos(content@));
        Some(spans)
    }
}

/// The file `cpuacct.usage_all`: after a heading, one line for each CPU
/// with its index, its time in user mode and its time in system mode, both
/// in nanoseconds. It is only read.
#[derive(Debug, PartialEq)]
pub struct UsageAllFile {
    pub path: String,
}

/// What one line of `cpuacct.usage_all` denotes: the first three words of
/// the line are the index of a CPU and two numbers of nanoseconds. What
/// follows them on the line does not count.
pub open spec fn usage_record(line: Seq<u8>) -> Option<(nat, nat, nat)> {
    let w = words(line);
    if w.len() >= 3 && word_index(w[0]) is Some && word_nanos(w[1]) is Some && word_nanos(
        w[2],
    ) is Some {
        Some((word_index(w[0])->0, word_nanos(w[1])->0, word_nanos(w[2])->0))
    } else {
        None
    }
}

/// Every line of the content but the first is a record.
pub open spec fn usage_all_well_formed(content: Seq<u8>) -> bool {
    forall|i: int|
        1 <= i < lines(content).len() ==> usage_record(#[trigger] lines(content)[i]) is Some
}

/// The records of `cpuacct.usage_all`: one for each line but the first.
pub open spec fn usage_all_records(content: Seq<u8>) -> Seq<(nat, nat, nat)> {
    Seq::new(
        if lines(content).len() > 0 {
            (lines(content).len() - 1) as nat
        } else {
            0
        },
        |i: int| usage_record(lines(content)[i + 1])->0,
    )
}

/// What a list of usage records holds, as mathematical values.
pub open spec fn record_views(records: Seq<(usize, Duration, Duration)>) -> Seq<(nat, nat, nat)> {
    Seq::new(records.len(), |i: int| (records[i].0 as nat, records[i].1@, records[i].2@))
}

impl UsageAllFile {
    /// Reads one line as a record.
    fn read_line(line: &[u8]) -> (r: Option<(usize, Duration, Duration)>)
        ensures
            r is Some <==> usage_record(line@) is Some,
            r matches Some(record) ==> (record.0 as nat, record.1@, record.2@) == usage_record(
                line@,
            )->0,
    {
        let parts = split_words(line);
        if parts.len() < 3 {
            return None;
        }
        assert(views(parts@)[0] == parts@[0]@);
        assert(views(parts@)[1] == parts@[1]@);
        assert(views(parts@)[2] == parts@[2]@);
        let index = match parse_usize(parts[0].as_slice()) {
            Some(index) => index,
            None => {
                return None;
            },
        };
        let user = match parse_nanos(parts[1].as_slice()) {
            Some(user) => user,
            None => {
                return None;
            },
        };
        let system = match parse_nanos(parts[2].as_slice()) {
            Some(system) => system,
            None => {
                return None;
            },
        };
        Some((index, user, system))
    }

    /// The content is read as one record for each line after the heading.
    ///
    /// Returns `None` exactly when some line after the first is no
    /// record.
    pub fn read(&self, content: &[u8]) -> (r: Option<Vec<(usize, Duration, Duration)>>)
        ensures
            r is Some <==> usage_all_well_formed(content@),
            r matches Some(records) ==> record_views(records@) == usage_all_records(content@),
    {
        let rows = split_lines(content);
        let mut records: Vec<(usize, Duration, Duration)> = Vec::new();
        let mut i: usize = 1;
        while i < rows.len()
            invariant
                1 <= i,
                i <= rows@.len() || (rows@.len() == 0 && i == 1),
                views(rows@) == lines(content@),
                records@.len() == i - 1,
                forall|k: int|
                    1 <= k < i ==> usage_record(#[trigger] lines(content@)[k]) == Some(
                        (records@[k - 1].0 as nat, records@[k - 1].1@, records@[k - 1].2@),
                    ),
            decreases rows@.len() - i,
        {
            assert(views(rows@)[i as int] == rows@[i as int]@);
            match UsageAllFile::read_line(rows[i].as_slice()) {
                Some(record) => {
                    records.push(record);
                },
                None => {
                    assert(usage_record(lines(content@)[i as int]) is None);
                    return None;
                },
            }
            i = i + 1;
        }
        assert(views(rows@).len() == rows@.len());
        assert(lines(content@).len() == rows@.len());
        assert(usage_all_records(content@).len() == records@.len());
        assert forall|k: int| 0 <= k < records@.len() implies record_views(records@)[k]
            == usage_all_records(content@)[k] by {
            let line = lines(content@)[k + 1];
            assert(usage_record(line) == Some(
                (records@[k].0 as nat, records@[k].1@, records@[k].2@),
            ));
        }
        assert(record_views(records@) =~= usage_all_records(content@));
        Some(records)
    }
}

/// The cpuacct controller of a cgroup.
#[derive(Debug, PartialEq)]
pub struct CpuAcctController {
    inner: String,
    initialized: bool,
}

impl CpuAcctController {
    /// The leaf directory of the controller.
    pub closed spec fn spec_path(&self) -> Seq<char> {
        self.inner@
    }

    /// Whether the controller was initialized when the handle was made.
    pub closed spec fn initialized(&self) -> bool {
        self.initialized
    }

    /// The CPU time that the cgroup has used, in `cpuacct.usage`.
    pub fn usage(&self) -> (file: NanosFile)
        ensures
            file.path@ == joined(self.spec_path(), "cpuacct.usage"@),
    {
        NanosFile { path: join(self.inner.as_str(), "cpuacct.usage") }
    }

    /// The CPU time of the cgroup by CPU and by mode, in
    /// `cpuacct.usage_all`.
    pub fn usage_all(&self) -> (file: UsageAllFile)
        ensures
            file.path@ == joined(self.spec_path(), "cpuacct.usage_all"@),
    {
        UsageAllFile { path: join(self.inner.as_str(), "cpuacct.usage_all") }
    }

    /// The CPU time of the cgroup by CPU, in `cpuacct.usage_percpu`.
    pub fn usage_percpu(&self) -> (file: PerCpuFile)
        ensures
            file.path@ == joined(self.spec_path(), "cpuacct.usage_percpu"@),
    {
        PerCpuFile { path: join(self.inner.as_str(), "cpuacct.usage_percpu") }
    }

    /// The CPU time of the cgroup in system mode by CPU, in
    /// `cpuacct.usage_percpu_sys`.
    pub fn usage_percpu_sys(&self) -> (file: PerCpuFile)
        ensures
            file.path@ == joined(self.spec_path(), "cpuacct.usage_percpu_sys"@),
    {
        PerCpuFile { path: join(self.inner.as_str(), "cpuacct.usage_percpu_sys") }
    }

    /// The CPU time of the cgroup in user mode by CPU, in
    /// `cpuacct.usage_percpu_user`.
    pub fn usage_percpu_user(&self) -> (file: PerCpuFile)
        ensures
            file.path@ == joined(self.spec_path(), "cpuacct.usage_percpu_user"@),
    {
        PerCpuFile { path: join(self.inner.as_str(), "cpuacct.usage_percpu_user") }
    }

    /// The CPU time of the cgroup in system mode, in `cpuacct.usage_sys`.
    pub fn usage_sys(&self) -> (file: NanosFile)
        ensures
            file.path@ == joined(self.spec_path(), "cpuacct.usage_sys"@),
    {
        NanosFile { path: join(self.inner.as_str(), "cpuacct.usage_sys") }
    }

    /// The CPU time of the cgroup in user mode, in `cpuacct.usage_user`.
    pub fn usage_user(&self) -> (file: NanosFile)
        ensures
            file.path@ == joined(self.spec_path(), "cpuacct.usage_user"@),
    {
        NanosFile { path: join(self.inner.as_str(), "cpuacct.usage_user") }
    }
}

impl Controller for CpuAcctController {
    open spec fn spec_name() -> Seq<char> {
        "cpuacct"@
    }

    open spec fn enabled(context: ContextModel) -> bool {
        context.cpuacct
    }

    open spec fn enable(context: ContextModel) -> ContextModel {
        ContextModel { cpuacct: true, ..context }
    }

    open spec fn directory(&self) -> Seq<char> {
        self.spec_path()
    }

    open spec fn ready(&self) -> bool {
        self.initialized()
    }

    fn name() -> (name: &'static str) {
        "cpuacct"
    }

    fn from_ctx(context: &Context) -> (controller: CpuAcctController) {
        CpuAcctController { inner: context.leaf_of("cpuacct"), initialized: context.has_cpuacct() }
    }

    fn is_initialized(&self) -> (b: bool) {
        self.initialized
    }

    fn initialize(context: &mut Context) -> (directory: String) {
        let directory = context.leaf_of("cpuacct");
        context.mark_cpuacct();
        directory
    }
}

impl Hierarchy for CpuAcctController {
    open spec fn spec_path(&self) -> Seq<char> {
        self.directory()
    }

    fn path(&self) -> (p: String) {
        self.inner.clone()
    }

    fn procs(&self) -> (f: PidFile) {
        PidFile { path: join(self.inner.as_str(), "cgroup.procs") }
    }

    fn tasks(&self) -> (f: PidFile) {
        PidFile { path: join(self.inner.as_str(), "tasks") }
    }
}

} // verus!
