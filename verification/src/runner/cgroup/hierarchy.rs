//! Attribute files of a cgroup hierarchy: where they are, what is written to
//! them, and what their contents mean.
use crate::paths::joined;
use crate::text::{
    decimal, lemma_decimal_digits, lemma_signed_decimal_is_word, lemma_signed_round_trip,
    lemma_single_word, lemma_trimmed_padded, lemma_unsigned_round_trip, parse_i32,
    parse_u64, parse_usize, render_decimal, render_signed, signed_decimal, signed_value,
    split_words, trim, trimmed, unsigned_value, views, words,
};
use crate::time::Duration;
use vstd::prelude::*;
use vstd::string::*;

verus! {

/// One write to a file: the whole content, at once.
#[derive(Debug, PartialEq)]
pub struct FileWrite {
    pub path: String,
    pub content: Vec<u8>,
}

/// The number that the content of an attribute file denotes: the content
/// without the whitespace around it is an unsigned decimal number.
pub open spec fn number_in(content: Seq<u8>) -> Option<nat> {
    unsigned_value(trimmed(content))
}

/// A file which can be written and read.
///
/// It is very common in the cgroup hierarchy. Values of `T` are written to
/// it, and its content is read as a `U`.
pub trait AttrFile<T, U> {
    /// Where the file is.
    spec fn location(&self) -> Seq<char>;

    /// What is written to the file for an attribute.
    spec fn encoded(attr: T) -> Seq<u8>;

    /// The content can be read as an attribute.
    spec fn well_formed(content: Seq<u8>) -> bool;

    /// The attribute is what the content stands for.
    spec fn decodes(content: Seq<u8>, attr: U) -> bool;

    /// The write that gives the file the attribute `attr`.
    fn write(&self, attr: &T) -> (w: FileWrite)
        ensures
            w.path@ == self.location(),
            w.content@ == Self::encoded(*attr),
    ;

    /// The attribute that the content of the file stands for.
    ///
    /// Returns `None` exactly when the content is not well formed.
    fn read(&self, content: &[u8]) -> (r: Option<U>)
        ensures
            r is Some <==> Self::well_formed(content@),
            r matches Some(attr) ==> Self::decodes(content@, attr),
    ;
}

/// A file that holds a span of time as a number of microseconds.
#[derive(Debug, PartialEq)]
pub struct CpuTimeFile {
    pub path: String,
}

/// The span of time that the content of a file of microseconds denotes.
pub open spec fn micros_in(content: Seq<u8>) -> Option<nat> {
    match number_in(content) {
        Some(micros) => if micros <= u64::MAX {
            Some(micros * 1_000)
        } else {
            None
        },
        None => None,
    }
}

impl AttrFile<Duration, Duration> for CpuTimeFile {
    open spec fn location(&self) -> Seq<char> {
        self.path@
    }

    /// The span is written as its whole microseconds, in decimal.
    open spec fn encoded(attr: Duration) -> Seq<u8> {
        decimal(attr@ / 1_000)
    }

    /// The content is a number of microseconds that fits in 64 bits, with
    /// any whitespace around it.
    open spec fn well_formed(content: Seq<u8>) -> bool {
        micros_in(content) is Some
    }

    open spec fn decodes(content: Seq<u8>, attr: Duration) -> bool {
        attr@ == micros_in(content)->0 && attr.wf()
    }

    fn write(&self, attr: &Duration) -> (w: FileWrite) {
        FileWrite { path: self.path.clone(), content: render_decimal(attr.as_micros()) }
    }

    fn read(&self, content: &[u8]) -> (r: Option<Duration>) {
        let text = trim(content);
        match parse_u64(text.as_slice()) {
            Some(micros) => Some(Duration::from_micros(micros)),
            None => None,
        }
    }
}

/// What is written for a span of time, read back, gives the whole
/// microseconds of the span, also where a line feed follows the digits as
/// the kernel puts one; provided that the microseconds fit in 64 bits.
pub proof fn lemma_cpu_time_round_trip(span: nat)
    requires
        span / 1_000 <= u64::MAX,
    ensures
        micros_in(decimal(span / 1_000)) == Some(((span / 1_000) * 1_000) as nat),
        micros_in(decimal(span / 1_000).push(10u8)) == Some(((span / 1_000) * 1_000) as nat),
{
    lemma_number_round_trip(span / 1_000);
}

/// A period and a quota that are written and read back come back as they
/// were, but for what they had below a microsecond; provided that their
/// microseconds fit in 64 bits.
pub proof fn lemma_period_quota_round_trip(period: Duration, quota: Duration)
    requires
        period@ / 1_000 <= u64::MAX,
        quota@ / 1_000 <= u64::MAX,
    ensures
        micros_in(decimal(period@ / 1_000)) == Some((period@ - period@ % 1_000) as nat),
        micros_in(decimal(quota@ / 1_000)) == Some((quota@ - quota@ % 1_000) as nat),
{
    lemma_cpu_time_round_trip(period@);
    lemma_cpu_time_round_trip(quota@);
}

/// A number of microseconds that is written as a span and read back comes
/// back as the same number of microseconds.
pub proof fn lemma_micros_round_trip(micros: u64)
    ensures
        micros_in(decimal((micros * 1_000) as nat / 1_000)) == Some((micros * 1_000) as nat),
{
    lemma_cpu_time_round_trip((micros * 1_000) as nat);
}

/// What is written for a number, read back, gives the number, also where a
/// line feed follows the digits.
pub proof fn lemma_number_round_trip(n: nat)
    ensures
        number_in(decimal(n)) == Some(n),
        number_in(decimal(n).push(10u8)) == Some(n),
{
    let digits = decimal(n);
    lemma_decimal_digits(n);
    lemma_unsigned_round_trip(n);
    let none = Seq::<u8>::empty();
    let feed = seq![10u8];
    lemma_trimmed_padded(none, digits, none);
    lemma_trimmed_padded(none, digits, feed);
    assert(none + digits + none =~= digits);
    assert(none + digits + feed =~= digits.push(10u8));
}

/// A file that holds a count or a number of bytes, in decimal.
#[derive(Debug, PartialEq)]
pub struct CountFile {
    pub path: String,
}

/// The count that the content of a file denotes.
pub open spec fn count_in(content: Seq<u8>) -> Option<usize> {
    match number_in(content) {
        Some(n) => if n <= usize::MAX {
            Some(n as usize)
        } else {
            None
        },
        None => None,
    }
}

impl AttrFile<usize, usize> for CountFile {
    open spec fn location(&self) -> Seq<char> {
        self.path@
    }

    /// The count is written in decimal. Every count can be written, zero
    /// too.
    open spec fn encoded(attr: usize) -> Seq<u8> {
        decimal(attr as nat)
    }

    /// The content is a decimal number that fits in a `usize`, with any
    /// whitespace around it.
    open spec fn well_formed(content: Seq<u8>) -> bool {
        count_in(content) is Some
    }

    open spec fn decodes(content: Seq<u8>, attr: usize) -> bool {
        count_in(content) == Some(attr)
    }

    fn write(&self, attr: &usize) -> (w: FileWrite) {
        FileWrite { path: self.path.clone(), content: render_decimal(*attr as u128) }
    }

    fn read(&self, content: &[u8]) -> (r: Option<usize>) {
        let text = trim(content);
        parse_usize(text.as_slice())
    }
}

/// A file that holds a span of time as a number of nanoseconds. It is only
/// read.
#[derive(Debug, PartialEq)]
pub struct NanosFile {
    pub path: String,
}

/// The nanoseconds that the content of a file denotes.
pub open spec fn nanos_in(content: Seq<u8>) -> Option<nat> {
    match number_in(content) {
        Some(nanos) => if nanos <= u64::MAX {
            Some(nanos)
        } else {
            None
        },
        None => None,
    }
}

impl NanosFile {
    /// The content is read as a number of nanoseconds that fits in 64 bits,
    /// with any whitespace around it.
    pub fn read(&self, content: &[u8]) -> (r: Option<Duration>)
        ensures
            r is Some <==> nanos_in(content@) is Some,
            r matches Some(d) ==> d@ == nanos_in(content@)->0 && d.wf(),
    {
        let text = trim(content);
        match parse_u64(text.as_slice()) {
            Some(nanos) => Some(Duration::from_nanos(nanos)),
            None => None,
        }
    }
}

/// The `cgroup.procs` or the `tasks` file of a hierarchy: one process
/// identifier is written to it at a time, and it is read as a list of them.
#[derive(Debug, PartialEq)]
pub struct PidFile {
    pub path: String,
}

/// What one word of a list of process identifiers denotes.
pub open spec fn pid_in(word: Seq<u8>) -> Option<i32> {
    match signed_value(word) {
        Some(v) => if i32::MIN <= v <= i32::MAX {
            Some(v as i32)
        } else {
            None
        },
        None => None,
    }
}

/// Every word of the content is a process identifier.
pub open spec fn pids_well_formed(content: Seq<u8>) -> bool {
    forall|i: int| 0 <= i < words(content).len() ==> pid_in(#[trigger] words(content)[i]) is Some
}

/// The process identifiers that the content of a file lists.
pub open spec fn pids_in(content: Seq<u8>) -> Seq<i32> {
    Seq::new(words(content).len(), |i: int| pid_in(words(content)[i])->0)
}

impl AttrFile<i32, Vec<i32>> for PidFile {
    open spec fn location(&self) -> Seq<char> {
        self.path@
    }

    /// The process identifier is written in decimal.
    open spec fn encoded(attr: i32) -> Seq<u8> {
        signed_decimal(attr as int)
    }

    /// The content is process identifiers in decimal, with whitespace
    /// between them.
    open spec fn well_formed(content: Seq<u8>) -> bool {
        pids_well_formed(content)
    }

    open spec fn decodes(content: Seq<u8>, attr: Vec<i32>) -> bool {
        attr@ == pids_in(content)
    }

    fn write(&self, attr: &i32) -> (w: FileWrite) {
        FileWrite { path: self.path.clone(), content: render_signed(*attr as i64) }
    }

    fn read(&self, content: &[u8]) -> (r: Option<Vec<i32>>) {
        let parts = split_words(content);
        let mut pids: Vec<i32> = Vec::new();
        let mut i: usize = 0;
        while i < parts.len()
            invariant
                i <= parts@.len(),
                views(parts@) == words(content@),
                pids@.len() == i,
                forall|k: int| 0 <= k < i ==> pid_in(#[trigger] words(content@)[k]) == Some(pids@[k]),
            decreases parts@.len() - i,
        {
            assert(views(parts@)[i as int] == parts@[i as int]@);
            match parse_i32(parts[i].as_slice()) {
                Some(pid) => {
                    pids.push(pid);
                },
                None => {
                    assert(pid_in(words(content@)[i as int]) is None);
                    return None;
                },
            }
            i = i + 1;
        }
        assert(views(parts@).len() == parts@.len());
        assert(pids@ =~= pids_in(content@));
        Some(pids)
    }
}

/// A process identifier that is written and read back comes back as the
/// only one in the list, also where a line feed follows the digits.
pub proof fn lemma_pid_round_trip(pid: i32)
    ensures
        pids_well_formed(signed_decimal(pid as int)),
        pids_in(signed_decimal(pid as int)) == seq![pid],
        pids_well_formed(signed_decimal(pid as int).push(10u8)),
        pids_in(signed_decimal(pid as int).push(10u8)) == seq![pid],
{
    let text = signed_decimal(pid as int);
    lemma_signed_decimal_is_word(pid as int);
    lemma_signed_round_trip(pid as int);
    lemma_single_word(text, Seq::empty());
    lemma_single_word(text, seq![10u8]);
    assert(text + Seq::<u8>::empty() =~= text);
    assert(text + seq![10u8] =~= text.push(10u8));
    assert(pids_in(text) =~= seq![pid]);
    assert(pids_in(text.push(10u8)) =~= seq![pid]);
}

/// Hierarchy in the cgroup.
pub trait Hierarchy {
    /// The path of this hierarchy.
    spec fn spec_path(&self) -> Seq<char>;

    /// The path of this hierarchy.
    fn path(&self) -> (p: String)
        ensures
            p@ == self.spec_path(),
    ;

    /// `cgroup.procs` file in this hierarchy.
    ///
    /// It can be read and written.
    fn procs(&self) -> (f: PidFile)
        ensures
            f.path@ == joined(self.spec_path(), "cgroup.procs"@),
    ;

    /// `tasks` file in this hierarchy.
    ///
    /// It can be read and written.
    fn tasks(&self) -> (f: PidFile)
        ensures
            f.path@ == joined(self.spec_path(), "tasks"@),
    ;
}

} // verus!
