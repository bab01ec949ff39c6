//! A verified model of a kernel statistics facility: a chain of named,
//! typed statistic records, an iteration protocol over that chain, and
//! the policy that derives a zone's CPU count from two well-known records.
//!
//! The kernel keeps a singly linked chain of statistic records, each
//! identified by a module name, an instance number and a record name, and
//! each carrying a payload of named, tagged values.  This module holds the
//! chain as plain data (`Facility`), so that the traversal protocol
//! (`KstatWrapper`) and the policy layer (`ncpus`, `zone_cpu_cap`) are
//! stated and proved over it; the process that talks to a live kernel
//! builds a `Facility` snapshot first and hands it in.

use vstd::prelude::*;
use vstd::pervasive::unreached;
use vstd::string::StringExecFns;

verus! {

/// A failure of the statistics layer.
#[derive(Debug, Clone, PartialEq)]
pub enum KstatError {
    /// The statistics facility could not be opened; carries the OS error code.
    Open(i32),
    /// The zone identity provider failed; carries the OS error code.
    Zoneid(i32),
    /// A needed statistic was missing everywhere; carries a message.
    Error(String),
}

/// One tagged value inside a statistic record's data payload.  The tag
/// decides the one interpretation a reader may take; an accessor asking
/// for another width yields nothing rather than reinterpreting.
#[derive(Debug, Clone, PartialEq)]
pub enum NamedData {
    /// A small character buffer.
    Bytes(Vec<u8>),
    /// A signed long value.
    Long(i64),
    /// An unsigned long value.
    ULong(u64),
    /// A 32-bit unsigned value.
    U32(u32),
}

/// One named value of a record's payload.
#[derive(Debug, Clone, PartialEq)]
pub struct NamedValue {
    /// The statistic's name.
    pub name: String,
    /// The tagged value stored under that name.
    pub data: NamedData,
}

/// One node of the statistics chain.
#[derive(Debug, Clone, PartialEq)]
pub struct StatisticRecord {
    /// The module that owns the record.
    pub module: String,
    /// The instance number within the module.
    pub instance: i32,
    /// The record's own name.
    pub name: String,
    /// Whether the record is of the named-value shape.  Only such records
    /// carry a payload that the typed accessors can read.
    pub named: bool,
    /// The payload: the record's named values, in chain order.
    pub values: Vec<NamedValue>,
    /// Whether reading (refreshing) the record succeeds.  A failed read is
    /// treated as absence of data, never as an error.
    pub readable: bool,
}

/// The statistics facility as one operation sees it: whether opening it
/// succeeds, and the chain of records it serves.
#[derive(Debug, Clone, PartialEq)]
pub struct Facility {
    /// `Some(code)`: opening the facility fails with that OS error code.
    pub open_error: Option<i32>,
    /// The records of the chain, in chain order.
    pub records: Vec<StatisticRecord>,
}

/// The view of an optional lookup filter: the filtered-for name, if any.
pub open spec fn filter_view(f: Option<&String>) -> Option<Seq<char>> {
    match f {
        Some(s) => Some(s@),
        None => None,
    }
}

/// Whether a record satisfies a pair of optional module/name filters.
/// An omitted filter means "any".
pub open spec fn filter_matches(
    r: StatisticRecord,
    module: Option<Seq<char>>,
    name: Option<Seq<char>>,
) -> bool {
    &&& (module matches Some(m) ==> r.module@ == m)
    &&& (name matches Some(n) ==> r.name@ == n)
}

/// The first index at or after `i` whose record satisfies the filters,
/// if any.
pub open spec fn first_match_from(
    chain: Seq<StatisticRecord>,
    module: Option<Seq<char>>,
    name: Option<Seq<char>>,
    i: int,
) -> Option<int>
    decreases chain.len() - i,
{
    if i < 0 || i >= chain.len() {
        None
    } else if filter_matches(chain[i], module, name) {
        Some(i)
    } else {
        first_match_from(chain, module, name, i + 1)
    }
}

/// The first index at or after `i` whose value is named `stat`, if any.
pub open spec fn find_named_from(vals: Seq<NamedValue>, stat: Seq<char>, i: int) -> Option<int>
    decreases vals.len() - i,
{
    if i < 0 || i >= vals.len() {
        None
    } else if vals[i].name@ == stat {
        Some(i)
    } else {
        find_named_from(vals, stat, i + 1)
    }
}

/// The index of the named value a data lookup on `rec` finds: the first
/// payload entry named `stat`, provided the record reads back
/// successfully, is of the named-value shape and has a payload at all.
pub open spec fn stat_index(rec: StatisticRecord, stat: Seq<char>) -> Option<int> {
    if rec.readable && rec.named && rec.values@.len() >= 1 {
        find_named_from(rec.values@, stat, 0)
    } else {
        None
    }
}

/// The one widening a tagged value admits: the 32-bit unsigned reading
/// when `wide` is false, the unsigned-long reading when `wide` is true.
/// Every other tag yields nothing.
pub open spec fn read_as(d: NamedData, wide: bool) -> Option<u64> {
    match d {
        NamedData::U32(x) => if !wide {
            Some(x as u64)
        } else {
            None
        },
        NamedData::ULong(x) => if wide {
            Some(x)
        } else {
            None
        },
        _ => None,
    }
}

/// What a typed data lookup of `stat` on `rec` yields: the found value's
/// widening under the asked-for interpretation, or nothing.
pub open spec fn record_value(rec: StatisticRecord, stat: Seq<char>, wide: bool) -> Option<u64> {
    match stat_index(rec, stat) {
        Some(j) => read_as(rec.values@[j].data, wide),
        None => None,
    }
}

/// The result of scanning the chain from index `i` on for the first
/// record that equals both filters exactly and yields `stat` under the
/// asked-for interpretation.
pub open spec fn scan_from(
    chain: Seq<StatisticRecord>,
    module: Seq<char>,
    name: Seq<char>,
    stat: Seq<char>,
    wide: bool,
    i: int,
) -> Option<u64>
    decreases chain.len() - i,
{
    if i < 0 || i >= chain.len() {
        None
    } else if filter_matches(chain[i], Some(module), Some(name)) && record_value(
        chain[i],
        stat,
        wide,
    ) is Some {
        record_value(chain[i], stat, wide)
    } else {
        scan_from(chain, module, name, stat, wide, i + 1)
    }
}

/// The result of scanning the whole chain, front to back.
pub open spec fn scan(
    chain: Seq<StatisticRecord>,
    module: Seq<char>,
    name: Seq<char>,
    stat: Seq<char>,
    wide: bool,
) -> Option<u64> {
    scan_from(chain, module, name, stat, wide, 0)
}

/// Indices that satisfy no filter in `[i, j)` do not move the first match.
pub proof fn lemma_first_match_skip(
    chain: Seq<StatisticRecord>,
    module: Option<Seq<char>>,
    name: Option<Seq<char>>,
    i: int,
    j: int,
)
    requires
        0 <= i <= j <= chain.len(),
        forall|q: int| i <= q < j ==> !filter_matches(chain[q], module, name),
    ensures
        first_match_from(chain, module, name, i) == first_match_from(chain, module, name, j),
    decreases j - i,
{
    if i < j {
        lemma_first_match_skip(chain, module, name, i + 1, j);
    }
}

/// Indices that contribute nothing in `[i, j)` do not move the scan.
pub proof fn lemma_scan_skip(
    chain: Seq<StatisticRecord>,
    module: Seq<char>,
    name: Seq<char>,
    stat: Seq<char>,
    wide: bool,
    i: int,
    j: int,
)
    requires
        0 <= i <= j <= chain.len(),
        forall|q: int| i <= q < j ==> !(filter_matches(chain[q], Some(module), Some(name))
            && record_value(chain[q], stat, wide) is Some),
    ensures
        scan_from(chain, module, name, stat, wide, i) == scan_from(
            chain,
            module,
            name,
            stat,
            wide,
            j,
        ),
    decreases j - i,
{
    if i < j {
        lemma_scan_skip(chain, module, name, stat, wide, i + 1, j);
    }
}

/// A found named value lies within the payload and bears the looked-up name.
pub proof fn lemma_find_named_props(vals: Seq<NamedValue>, stat: Seq<char>, i: int)
    requires
        0 <= i,
    ensures
        match find_named_from(vals, stat, i) {
            Some(j) => i <= j < vals.len() && vals[j].name@ == stat,
            None => true,
        },
    decreases vals.len() - i,
{
    if i < vals.len() && vals[i].name@ != stat {
        lemma_find_named_props(vals, stat, i + 1);
    }
}

/// A payload that nowhere bears the looked-up name yields no find.
pub proof fn lemma_find_named_absent(vals: Seq<NamedValue>, stat: Seq<char>, i: int)
    requires
        0 <= i,
        forall|j: int| i <= j < vals.len() ==> vals[j].name@ != stat,
    ensures
        find_named_from(vals, stat, i) is None,
    decreases vals.len() - i,
{
    if i < vals.len() {
        lemma_find_named_absent(vals, stat, i + 1);
    }
}

/// Every failure mode of a typed data lookup degrades to absence, never
/// to an error: a record whose read fails, one that is not of the
/// named-value shape, one with an empty payload, and one whose payload
/// lacks the looked-up name all yield nothing.
pub proof fn lemma_absence(rec: StatisticRecord, stat: Seq<char>, wide: bool)
    ensures
        !rec.readable ==> record_value(rec, stat, wide) is None,
        !rec.named ==> record_value(rec, stat, wide) is None,
        rec.values@.len() == 0 ==> record_value(rec, stat, wide) is None,
        (forall|j: int| 0 <= j < rec.values@.len() ==> rec.values@[j].name@ != stat)
            ==> record_value(rec, stat, wide) is None,
{
    if forall|j: int| 0 <= j < rec.values@.len() ==> rec.values@[j].name@ != stat {
        lemma_find_named_absent(rec.values@, stat, 0);
    }
}

/// A value read under the 32-bit interpretation fits in 32 bits.
pub proof fn lemma_record_value_narrow(rec: StatisticRecord, stat: Seq<char>)
    ensures
        match record_value(rec, stat, false) {
            Some(v) => v <= u32::MAX as u64,
            None => true,
        },
{
}

/// A cursor over the chain of one opened facility.
///
/// The cursor mirrors the iteration protocol the kernel facility offers:
/// `lookup` positions it near records of interest, `step` makes the
/// looked-up record current and then walks the chain one record at a
/// time, and the typed accessors read the current record's payload.  A
/// lookup is a starting point only; callers re-verify module and name on
/// every record they consider.
pub struct KstatWrapper<'a> {
    /// The opened facility's chain.
    pub chain: &'a Vec<StatisticRecord>,
    /// The current position, if any.
    pub ks: Option<usize>,
    /// Whether a step sequence is in progress, that is, whether the most
    /// recent `step` since the last `lookup` returned true.
    pub stepping: bool,
}

impl<'a> KstatWrapper<'a> {
    /// The chain this cursor walks.
    pub open spec fn spec_chain(self) -> Seq<StatisticRecord> {
        self.chain@
    }

    /// The current position, if any.
    pub open spec fn spec_pos(self) -> Option<usize> {
        self.ks
    }

    /// Whether a step sequence is in progress.
    pub open spec fn spec_stepping(self) -> bool {
        self.stepping
    }

    /// Well-formedness: the position lies within the chain, and a step
    /// sequence in progress has a current record.
    pub open spec fn wf(self) -> bool {
        &&& (self.ks matches Some(i) ==> i < self.chain@.len())
        &&& (self.stepping ==> self.ks is Some)
    }

    /// The record the cursor stands on.
    pub open spec fn cur(self) -> StatisticRecord
        recommends
            self.ks is Some,
    {
        self.chain@[self.ks->0 as int]
    }

    /// Where the next `step` lands: on the looked-up record while no step
    /// sequence is in progress, else on the successor of the current
    /// record, if one exists.
    pub open spec fn next_position(self) -> Option<usize> {
        if !self.stepping {
            self.ks
        } else {
            match self.ks {
                Some(i) => if i + 1 < self.chain@.len() {
                    Some((i + 1) as usize)
                } else {
                    None
                },
                None => None,
            }
        }
    }

    /// Whether the next `step` returns true.
    pub open spec fn spec_step_ok(self) -> bool {
        self.next_position() is Some
    }

    /// The cursor state after one `step`.
    pub open spec fn stepped(self) -> Self {
        KstatWrapper { ks: self.next_position(), stepping: self.spec_step_ok(), ..self }
    }

    /// How much chain is left ahead of the next `step`.
    pub open spec fn remaining(self) -> int {
        match self.next_position() {
            Some(i) => self.chain@.len() - i,
            None => 0,
        }
    }

    /// What a typed data lookup on the current record yields; nothing
    /// while the cursor is unpositioned.
    pub open spec fn spec_data(self, stat: Seq<char>, wide: bool) -> Option<u64> {
        match self.ks {
            Some(i) => record_value(self.chain@[i as int], stat, wide),
            None => None,
        }
    }

    /// Opens the facility.  Either a fully initialized cursor over the
    /// facility's chain is produced, or the facility's open failure is
    /// reported and nothing is.
    pub fn open(f: &'a Facility) -> (r: Result<Self, KstatError>)
        ensures
            match f.open_error {
                Some(code) => r matches Err(KstatError::Open(c)) && c == code,
                None => r matches Ok(k) && k.wf() && k.spec_chain() == f.records@
                    && k.spec_pos() is None && !k.spec_stepping(),
            },
    {
        match f.open_error {
            Some(code) => Err(KstatError::Open(code)),
            None => Ok(KstatWrapper { chain: &f.records, ks: None, stepping: false }),
        }
    }

    /// Positions the cursor at the first record satisfying the given
    /// module/name filters (an omitted filter means "any"), or leaves it
    /// unpositioned when none does, and ends any step sequence in
    /// progress.
    pub fn lookup(&mut self, module: Option<&String>, name: Option<&String>)
        requires
            old(self).wf(),
        ensures
            final(self).wf(),
            final(self).spec_chain() == old(self).spec_chain(),
            !final(self).spec_stepping(),
            (match first_match_from(
                old(self).spec_chain(),
                filter_view(module),
                filter_view(name),
                0,
            ) {
                Some(j) => final(self).spec_pos() matches Some(i) && i as int == j,
                None => final(self).spec_pos() is None,
            }),
    {
        let chain: &Vec<StatisticRecord> = self.chain;
        let ghost gm = filter_view(module);
        let ghost gn = filter_view(name);
        let n_len = chain.len();
        let mut i: usize = 0;
        let mut found: Option<usize> = None;
        while i < n_len
            invariant_except_break
                i <= n_len,
                n_len == chain@.len(),
                gm == filter_view(module),
                gn == filter_view(name),
                found is None,
                forall|q: int| 0 <= q < i ==> !filter_matches(chain@[q], gm, gn),
            ensures
                (match found {
                    Some(j) => first_match_from(chain@, gm, gn, 0) == Some(j as int) && j < n_len,
                    None => forall|q: int| 0 <= q < n_len ==> !filter_matches(chain@[q], gm, gn),
                }),
            decreases n_len - i,
        {
            let rec = &chain[i];
            let module_ok = match module {
                Some(m) => *m == rec.module,
                None => true,
            };
            let name_ok = match name {
                Some(nm) => *nm == rec.name,
                None => true,
            };
            if module_ok && name_ok {
                found = Some(i);
                proof {
                    lemma_first_match_skip(chain@, gm, gn, 0, i as int);
                    assert(first_match_from(chain@, gm, gn, i as int) == Some(i as int));
                }
                break;
            }
            i = i + 1;
        }
        proof {
            if found is None {
                lemma_first_match_skip(chain@, gm, gn, 0, chain@.len() as int);
            }
        }
        self.ks = found;
        self.stepping = false;
    }

    /// One step of the traversal.  The first step after a `lookup` (or
    /// after opening) makes the looked-up record, if any, current; every
    /// further step advances to the next record of the chain.  Returns
    /// whether a current record exists; once it returns false the cursor
    /// stays unpositioned, and further steps keep returning false until
    /// another `lookup`.
    pub fn step(&mut self) -> (r: bool)
        requires
            old(self).wf(),
        ensures
            final(self).wf(),
            final(self).spec_chain() == old(self).spec_chain(),
            r == old(self).spec_step_ok(),
            *final(self) == old(self).stepped(),
    {
        if !self.stepping {
            self.stepping = true;
        } else {
            let n_len = self.chain.len();
            self.ks = match self.ks {
                Some(i) => if i + 1 < n_len {
                    Some(i + 1)
                } else {
                    None
                },
                None => None,
            };
        }
        if self.ks.is_none() {
            self.stepping = false;
            false
        } else {
            true
        }
    }

    /// The module name of the current record.  May be called only while
    /// the most recent `step` has returned true; calling it otherwise is
    /// a contract violation, not a recoverable failure.
    pub fn module(&self) -> (r: &String)
        requires
            self.wf(),
            self.spec_stepping(),
        ensures
            r@ == self.cur().module@,
    {
        match self.ks {
            Some(i) => &self.chain[i].module,
            None => unreached(),
        }
    }

    /// The name of the current record, under the same contract as
    /// [`Self::module`].
    pub fn name(&self) -> (r: &String)
        requires
            self.wf(),
            self.spec_stepping(),
        ensures
            r@ == self.cur().name@,
    {
        match self.ks {
            Some(i) => &self.chain[i].name,
            None => unreached(),
        }
    }

    /// Reads the current record afresh and finds the payload index of the
    /// named statistic.  Absence — no current record, a failed read, a
    /// record of another shape, an empty payload, or a missing name —
    /// yields `None`, never an error.
    fn data_value(&self, statistic: &String) -> (r: Option<usize>)
        requires
            self.wf(),
        ensures
            (match self.spec_pos() {
                Some(i) => match stat_index(self.spec_chain()[i as int], statistic@) {
                    Some(j) => r matches Some(u) && u as int == j,
                    None => r is None,
                },
                None => r is None,
            }),
    {
        let i = match self.ks {
            Some(i) => i,
            None => {
                return None;
            },
        };
        let rec = &self.chain[i];
        if !rec.readable {
            return None;
        }
        if !rec.named || rec.values.len() < 1 {
            return None;
        }
        let n_len = rec.values.len();
        let mut j: usize = 0;
        while j < n_len
            invariant_except_break
                j <= n_len,
                n_len == rec.values@.len(),
                forall|q: int| 0 <= q < j ==> rec.values@[q].name@ != statistic@,
            ensures
                j <= n_len,
                j < n_len ==> find_named_from(rec.values@, statistic@, 0) == Some(j as int),
                j == n_len ==> forall|q: int|
                    0 <= q < n_len ==> rec.values@[q].name@ != statistic@,
            decreases n_len - j,
        {
            if rec.values[j].name == *statistic {
                proof {
                    lemma_find_named_skip(rec.values@, statistic@, 0, j as int);
                    assert(find_named_from(rec.values@, statistic@, j as int) == Some(j as int));
                }
                break;
            }
            j = j + 1;
        }
        proof {
            if j == n_len {
                lemma_find_named_absent(rec.values@, statistic@, 0);
            }
        }
        if j < n_len {
            Some(j)
        } else {
            None
        }
    }

    /// Looks up a named statistic of the current record and takes its
    /// 32-bit unsigned interpretation, widened to 64 bits.  Every failure
    /// mode yields `None`.
    pub fn data_u32(&self, statistic: &String) -> (r: Option<u64>)
        requires
            self.wf(),
        ensures
            r == self.spec_data(statistic@, false),
    {
        self.data_read(statistic, false)
    }

    /// Looks up a named statistic of the current record and takes its
    /// unsigned-long interpretation.  Every failure mode yields `None`.
    pub fn data_ulong(&self, statistic: &String) -> (r: Option<u64>)
        requires
            self.wf(),
        ensures
            r == self.spec_data(statistic@, true),
    {
        self.data_read(statistic, true)
    }

    /// The shared body of the two typed accessors.
    fn data_read(&self, statistic: &String, wide: bool) -> (r: Option<u64>)
        requires
            self.wf(),
        ensures
            r == self.spec_data(statistic@, wide),
    {
        match self.data_value(statistic) {
            Some(j) => {
                let i = match self.ks {
                    Some(i) => i,
                    None => unreached(),
                };
                proof {
                    lemma_find_named_props(self.chain@[i as int].values@, statistic@, 0);
                }
                match &self.chain[i].values[j].data {
                    NamedData::U32(x) => if !wide {
                        Some(*x as u64)
                    } else {
                        None
                    },
                    NamedData::ULong(x) => if wide {
                        Some(*x)
                    } else {
                        None
                    },
                    _ => None,
                }
            },
            None => None,
        }
    }
}

/// Indices that name no match in `[i, j)` do not move the named-value find.
pub proof fn lemma_find_named_skip(vals: Seq<NamedValue>, stat: Seq<char>, i: int, j: int)
    requires
        0 <= i <= j <= vals.len(),
        forall|q: int| i <= q < j ==> vals[q].name@ != stat,
    ensures
        find_named_from(vals, stat, i) == find_named_from(vals, stat, j),
    decreases j - i,
{
    if i < j {
        lemma_find_named_skip(vals, stat, i + 1, j);
    }
}

/// Exhaustion is sticky: when a step would return false, the state it
/// leaves behind makes the next step return false as well, until another
/// lookup repositions the cursor.
pub proof fn lemma_exhaustion_sticky(s: KstatWrapper<'_>)
    requires
        !s.spec_step_ok(),
    ensures
        !s.stepped().spec_step_ok(),
{
}

/// A first match bears the filters, and nothing before it does.
pub proof fn lemma_first_match_props(
    chain: Seq<StatisticRecord>,
    module: Option<Seq<char>>,
    name: Option<Seq<char>>,
    i: int,
)
    requires
        0 <= i,
    ensures
        match first_match_from(chain, module, name, i) {
            Some(j) => i <= j < chain.len() && filter_matches(chain[j], module, name) && forall|
                q: int,
            | i <= q < j ==> !filter_matches(chain[q], module, name),
            None => forall|q: int| i <= q < chain.len() ==> !filter_matches(chain[q], module, name),
        },
    decreases chain.len() - i,
{
    if i < chain.len() && !filter_matches(chain[i], module, name) {
        lemma_first_match_props(chain, module, name, i + 1);
    }
}

/// A scan under the 32-bit interpretation yields a value of 32 bits.
pub proof fn lemma_scan_narrow(
    chain: Seq<StatisticRecord>,
    module: Seq<char>,
    name: Seq<char>,
    stat: Seq<char>,
    i: int,
)
    requires
        0 <= i,
    ensures
        match scan_from(chain, module, name, stat, false, i) {
            Some(v) => v <= u32::MAX as u64,
            None => true,
        },
    decreases chain.len() - i,
{
    if i < chain.len() {
        lemma_record_value_narrow(chain[i], stat);
        lemma_scan_narrow(chain, module, name, stat, i + 1);
    }
}

/// The decimal digit character of one digit value.
pub open spec fn digit_char(d: int) -> char {
    if d == 0 {
        '0'
    } else if d == 1 {
        '1'
    } else if d == 2 {
        '2'
    } else if d == 3 {
        '3'
    } else if d == 4 {
        '4'
    } else if d == 5 {
        '5'
    } else if d == 6 {
        '6'
    } else if d == 7 {
        '7'
    } else if d == 8 {
        '8'
    } else {
        '9'
    }
}

/// The decimal digit string of a non-negative number.
pub open spec fn dec_digits(n: int) -> Seq<char>
    decreases n,
{
    if n < 10 {
        seq![digit_char(n)]
    } else {
        dec_digits(n / 10) + seq![digit_char(n % 10)]
    }
}

/// The record name under which the caps module carries the CPU cap of
/// the zone with the given identifier.
pub open spec fn zone_cap_name(id: int) -> Seq<char> {
    if id < 0 {
        "cpucaps_zone_"@ + seq!['-'] + dec_digits(-id)
    } else {
        "cpucaps_zone_"@ + dec_digits(id)
    }
}

/// The one-character string of one decimal digit.
fn digit_str(d: u64) -> (r: &'static str)
    requires
        d < 10,
    ensures
        r@ == seq![digit_char(d as int)],
{
    proof {
        reveal_strlit("0");
        reveal_strlit("1");
        reveal_strlit("2");
        reveal_strlit("3");
        reveal_strlit("4");
        reveal_strlit("5");
        reveal_strlit("6");
        reveal_strlit("7");
        reveal_strlit("8");
        reveal_strlit("9");
    }
    let s = if d == 0 {
        "0"
    } else if d == 1 {
        "1"
    } else if d == 2 {
        "2"
    } else if d == 3 {
        "3"
    } else if d == 4 {
        "4"
    } else if d == 5 {
        "5"
    } else if d == 6 {
        "6"
    } else if d == 7 {
        "7"
    } else if d == 8 {
        "8"
    } else {
        "9"
    };
    proof {
        assert(s@ =~= seq![digit_char(d as int)]);
    }
    s
}

/// Appends the decimal digits of `n` to `s`.
fn push_decimal(s: &mut String, n: u64)
    ensures
        final(s)@ == old(s)@ + dec_digits(n as int),
    decreases n,
{
    if n < 10 {
        s.append(digit_str(n));
    } else {
        push_decimal(s, n / 10);
        s.append(digit_str(n % 10));
        proof {
            assert(s@ =~= old(s)@ + dec_digits(n as int));
        }
    }
}

/// Builds the record name under which the caps module carries the CPU
/// cap of the zone with the given identifier.
pub fn zone_cap_lookup_name(id: i32) -> (r: String)
    ensures
        r@ == zone_cap_name(id as int),
{
    let mut s = String::from_str("cpucaps_zone_");
    if id < 0 {
        s.append("-");
        let mag = -(id as i64);
        push_decimal(&mut s, mag as u64);
        proof {
            reveal_strlit("-");
            assert("-"@ =~= seq!['-']);
            assert(s@ =~= zone_cap_name(id as int));
        }
    } else {
        push_decimal(&mut s, id as u64);
    }
    s
}

/// Positions the cursor near the module/name pair, then steps through
/// the chain and, for every record whose module and name equal the pair
/// exactly, attempts the named statistic under the asked-for width; the
/// first value found is the result.  A lookup only approximates the
/// position, so equality is re-verified on every record.
fn scan_with<'a>(
    k: &mut KstatWrapper<'a>,
    module: &String,
    name: &String,
    stat: &String,
    wide: bool,
) -> (r: Option<u64>)
    requires
        old(k).wf(),
    ensures
        r == scan(old(k).spec_chain(), module@, name@, stat@, wide),
{
    let ghost chain = old(k).spec_chain();
    let n_len = k.chain.len();
    k.lookup(Some(module), Some(name));
    proof {
        lemma_first_match_props(chain, Some(module@), Some(name@), 0);
        match k.spec_pos() {
            Some(l) => {
                lemma_scan_skip(chain, module@, name@, stat@, wide, 0, l as int);
            },
            None => {
                lemma_scan_skip(chain, module@, name@, stat@, wide, 0, chain.len() as int);
            },
        }
    }
    loop
        invariant_except_break
            k.wf(),
            chain == old(k).spec_chain(),
            k.spec_chain() == chain,
            n_len == chain.len(),
            scan(chain, module@, name@, stat@, wide) == (match k.next_position() {
                Some(i) => scan_from(chain, module@, name@, stat@, wide, i as int),
                None => None::<u64>,
            }),
        ensures
            scan(chain, module@, name@, stat@, wide) is None,
        decreases k.remaining(),
    {
        let more = k.step();
        if !more {
            break;
        }
        let ghost ci = k.spec_pos()->0 as int;
        proof {
            assert(scan(chain, module@, name@, stat@, wide) == scan_from(
                chain,
                module@,
                name@,
                stat@,
                wide,
                ci,
            ));
        }
        let module_eq = *k.module() == *module;
        let name_eq = *k.name() == *name;
        if module_eq && name_eq {
            match k.data_read(stat, wide) {
                Some(v) => {
                    proof {
                        assert(scan_from(chain, module@, name@, stat@, wide, ci) == Some(v));
                    }
                    return Some(v);
                },
                None => {},
            }
        }
        proof {
            assert(scan_from(chain, module@, name@, stat@, wide, ci) == scan_from(
                chain,
                module@,
                name@,
                stat@,
                wide,
                ci + 1,
            ));
            if ci + 1 == chain.len() {
                assert(scan_from(chain, module@, name@, stat@, wide, ci + 1) is None);
            }
            assert(k.remaining() < chain.len() - ci);
        }
    }
    None
}

/// The raw CPU count of the machine: the first `unix` / `system_misc`
/// record whose payload carries `ncpus` as a 32-bit value decides.  A
/// chain without such a record is a hard failure, since the caller has
/// no other source for a CPU count.
pub fn ncpus(f: &Facility) -> (r: Result<usize, KstatError>)
    ensures
        (match f.open_error {
            Some(code) => r matches Err(KstatError::Open(c)) && c == code,
            None => match scan(f.records@, "unix"@, "system_misc"@, "ncpus"@, false) {
                Some(v) => r matches Ok(n) && n as u64 == v,
                None => r matches Err(KstatError::Error(m)) && m@
                    == "cpu count kstat not found"@,
            },
        }),
{
    let module = String::from_str("unix");
    let name = String::from_str("system_misc");
    let stat = String::from_str("ncpus");
    let mut k = match KstatWrapper::open(f) {
        Ok(k) => k,
        Err(e) => {
            return Err(e);
        },
    };
    match scan_with(&mut k, &module, &name, &stat, false) {
        Some(v) => {
            proof {
                lemma_scan_narrow(f.records@, "unix"@, "system_misc"@, "ncpus"@, 0);
            }
            Ok(v as usize)
        },
        None => Err(KstatError::Error(String::from_str("cpu count kstat not found"))),
    }
}

/// The administrative CPU cap of the zone with the given identity, in
/// hundredths of a CPU: the first `caps` record named for the zone whose
/// payload carries `value` as an unsigned long decides.  A chain without
/// one means no cap is configured, which is not an error.  The facility
/// is opened before the zone identity is examined, so an open failure
/// wins over an identity failure.
pub fn zone_cpu_cap(f: &Facility, zone_id: Result<i32, i32>) -> (r: Result<
    Option<u64>,
    KstatError,
>)
    ensures
        (match f.open_error {
            Some(code) => r matches Err(KstatError::Open(c)) && c == code,
            None => match zone_id {
                Err(code) => r matches Err(KstatError::Zoneid(c)) && c == code,
                Ok(id) => r matches Ok(o) && o == scan(
                    f.records@,
                    "caps"@,
                    zone_cap_name(id as int),
                    "value"@,
                    true,
                ),
            },
        }),
{
    let mut k = match KstatWrapper::open(f) {
        Ok(k) => k,
        Err(e) => {
            return Err(e);
        },
    };
    let id = match zone_id {
        Ok(id) => id,
        Err(code) => {
            return Err(KstatError::Zoneid(code));
        },
    };
    let module = String::from_str("caps");
    let name = zone_cap_lookup_name(id);
    let stat = String::from_str("value");
    Ok(scan_with(&mut k, &module, &name, &stat, true))
}

} // verus!

