use vstd::prelude::*;
use crate::error::PasswdError;
use crate::text::{chars_are, chars_of, parse_i64, parse_u64, i64_of, u64_of};

verus! {

/// The field separator of a credential line.
pub const FIELD_SEPARATOR: char = ':';

/// The number of fields in every credential line.
pub const FIELD_COUNT: usize = 9;

/// The fields of a line split at every `:`; a line without one is a single
/// field, and each `:` starts a new, possibly empty, field.
pub open spec fn split_fields(s: Seq<char>) -> Seq<Seq<char>>
    decreases s.len(),
{
    if s.len() == 0 {
        seq![Seq::empty()]
    } else {
        let p = split_fields(s.drop_last());
        if s.last() == FIELD_SEPARATOR {
            p.push(Seq::empty())
        } else {
            p.update(p.len() - 1, p.last().push(s.last()))
        }
    }
}

/// Fields written back into a line, separated by `:`.
pub open spec fn join_fields(f: Seq<Seq<char>>) -> Seq<char>
    decreases f.len(),
{
    if f.len() <= 1 {
        if f.len() == 1 {
            f[0]
        } else {
            Seq::empty()
        }
    } else {
        join_fields(f.drop_last()) + seq![FIELD_SEPARATOR] + f.last()
    }
}

/// A day count as stored: its value, or -1 when it is absent or unreadable.
pub open spec fn day_field(s: Seq<char>) -> i64 {
    match i64_of(s) {
        Some(v) => v,
        None => -1i64,
    }
}

/// The reserved flags as stored: their value, or `u64::MAX` when absent or
/// unreadable.
pub open spec fn flag_field(s: Seq<char>) -> u64 {
    match u64_of(s) {
        Some(v) => v,
        None => u64::MAX,
    }
}

/// One account's line of the credential store.
#[derive(Debug, Clone)]
pub struct ShadowEntry {
    /// The login name.
    pub login_name: String,
    /// The hashed password, or a sentinel (`*`, `!`, `!*`, empty).
    pub password_field: String,
    /// Day of the last password change, counted from 1970-01-01.
    pub last_change: i64,
    /// Minimum number of days between changes.
    pub min_days: i64,
    /// Maximum number of days between changes.
    pub max_days: i64,
    /// Days of warning before the password must change.
    pub warn_days: i64,
    /// Days the account may stay inactive after the password expires.
    pub inactive_days: i64,
    /// Day the account expires, counted from 1970-01-01.
    pub expire_days: i64,
    /// Reserved.
    pub flags: u64,
}

impl ShadowEntry {
    /// This entry holds exactly what the nine fields `f` say.
    pub open spec fn holds_fields(&self, f: Seq<Seq<char>>) -> bool {
        &&& f.len() == FIELD_COUNT
        &&& self.login_name@ == f[0]
        &&& self.password_field@ == f[1]
        &&& self.last_change == day_field(f[2])
        &&& self.min_days == day_field(f[3])
        &&& self.max_days == day_field(f[4])
        &&& self.warn_days == day_field(f[5])
        &&& self.inactive_days == day_field(f[6])
        &&& self.expire_days == day_field(f[7])
        &&& self.flags == flag_field(f[8])
    }

    /// This entry is what the line `line` says.
    pub open spec fn parsed_from(&self, line: Seq<char>) -> bool {
        self.holds_fields(split_fields(line))
    }

    /// Parses one credential line. The line must split at `:` into exactly
    /// nine fields, else the result is `CorruptEntry` with the line; a day
    /// count that is absent or unreadable is stored as -1, unreadable flags
    /// as `u64::MAX`.
    pub fn new(line: String) -> (r: Result<ShadowEntry, PasswdError>)
        ensures
            split_fields(line@).len() == FIELD_COUNT <==> r is Ok,
            r matches Ok(e) ==> e.parsed_from(line@),
            r matches Err(err) ==> err == PasswdError::CorruptEntry(line),
    {
        let cs = chars_of(line.as_str());
        let bounds = field_bounds(&cs);
        if bounds.len() != FIELD_COUNT {
            return Err(PasswdError::CorruptEntry(line));
        }
        let ghost f = split_fields(line@);
        assert(f[0] == cs@.subrange(bounds[0].0 as int, bounds[0].1 as int));
        let login_name = String::from_str(line.as_str().substring_char(bounds[0].0, bounds[0].1));
        let password_field = String::from_str(
            line.as_str().substring_char(bounds[1].0, bounds[1].1),
        );
        let e = ShadowEntry {
            login_name,
            password_field,
            last_change: day_count(&cs, bounds[2].0, bounds[2].1),
            min_days: day_count(&cs, bounds[3].0, bounds[3].1),
            max_days: day_count(&cs, bounds[4].0, bounds[4].1),
            warn_days: day_count(&cs, bounds[5].0, bounds[5].1),
            inactive_days: day_count(&cs, bounds[6].0, bounds[6].1),
            expire_days: day_count(&cs, bounds[7].0, bounds[7].1),
            flags: match parse_u64(&cs, bounds[8].0, bounds[8].1) {
                Some(v) => v,
                None => u64::MAX,
            },
        };
        Ok(e)
    }
}

/// A day count read from `cs[lo..hi]`, or -1.
fn day_count(cs: &Vec<char>, lo: usize, hi: usize) -> (r: i64)
    requires
        lo <= hi <= cs@.len(),
    ensures
        r == day_field(cs@.subrange(lo as int, hi as int)),
{
    match parse_i64(cs, lo, hi) {
        Some(v) => v,
        None => -1,
    }
}

/// The start and end of each field of `cs`, in order.
pub fn field_bounds(cs: &Vec<char>) -> (r: Vec<(usize, usize)>)
    ensures
        r@.len() == split_fields(cs@).len(),
        forall|k: int|
            #![trigger r@[k]]
            0 <= k < r@.len() ==> {
                &&& r@[k].0 <= r@[k].1 <= cs@.len()
                &&& cs@.subrange(r@[k].0 as int, r@[k].1 as int) == split_fields(cs@)[k]
            },
{
    let mut out: Vec<(usize, usize)> = Vec::new();
    let mut start: usize = 0;
    let mut i: usize = 0;
    while i < cs.len()
        invariant
            start <= i <= cs@.len(),
            split_fields(cs@.take(i as int)).len() == out@.len() + 1,
            forall|k: int|
                #![trigger out@[k]]
                0 <= k < out@.len() ==> {
                    &&& out@[k].0 <= out@[k].1 <= i
                    &&& cs@.subrange(out@[k].0 as int, out@[k].1 as int) == split_fields(
                        cs@.take(i as int),
                    )[k]
                },
            cs@.subrange(start as int, i as int) == split_fields(cs@.take(i as int))[out@.len() as int],
        decreases cs@.len() - i,
    {
        let ghost p = split_fields(cs@.take(i as int));
        assert(cs@.take(i + 1).drop_last() =~= cs@.take(i as int));
        assert(cs@.take(i + 1).last() == cs@[i as int]);
        if cs[i] == FIELD_SEPARATOR {
            out.push((start, i));
            start = i + 1;
        } else {
            assert(cs@.subrange(start as int, i + 1) =~= cs@.subrange(start as int, i as int).push(cs@[i as int]));
        }
        i = i + 1;
    }
    assert(cs@.take(cs@.len() as int) =~= cs@);
    out.push((start, i));
    out
}

proof fn lemma_split_nonempty(s: Seq<char>)
    ensures
        split_fields(s).len() >= 1,
    decreases s.len(),
{
    if s.len() > 0 {
        lemma_split_nonempty(s.drop_last());
    }
}

proof fn lemma_split_extend(x: Seq<char>, b: Seq<char>)
    requires
        !b.contains(FIELD_SEPARATOR),
    ensures
        split_fields(x + b) == split_fields(x).update(
            split_fields(x).len() - 1,
            split_fields(x).last() + b,
        ),
    decreases b.len(),
{
    lemma_split_nonempty(x);
    let q = split_fields(x);
    if b.len() == 0 {
        assert(x + b =~= x);
        assert(q.last() + b =~= q.last());
        assert(q.update(q.len() - 1, q.last() + b) =~= q);
    } else {
        let b1 = b.drop_last();
        assert(!b1.contains(FIELD_SEPARATOR)) by {
            if b1.contains(FIELD_SEPARATOR) {
                let k = choose|k: int| 0 <= k < b1.len() && b1[k] == FIELD_SEPARATOR;
                assert(b[k] == FIELD_SEPARATOR);
            }
        }
        lemma_split_extend(x, b1);
        assert((x + b).drop_last() =~= x + b1);
        assert((x + b).last() == b.last());
        assert(b.last() != FIELD_SEPARATOR) by {
            assert(b[b.len() - 1] == b.last());
        }
        assert((q.last() + b1).push(b.last()) =~= q.last() + b);
        assert(split_fields(x + b) =~= q.update(q.len() - 1, q.last() + b));
    }
}

/// Joining nine `:`-free fields into a line and parsing that line gives back
/// exactly those fields: the login name and password come back verbatim, and
/// each numeric field is the value its text denotes or the sentinel.
pub proof fn lemma_parse_round_trip(f: Seq<Seq<char>>)
    requires
        f.len() == FIELD_COUNT,
        forall|k: int| 0 <= k < f.len() ==> !(#[trigger] f[k]).contains(FIELD_SEPARATOR),
    ensures
        split_fields(join_fields(f)) == f,
        forall|e: ShadowEntry| #[trigger] e.parsed_from(join_fields(f)) <==> e.holds_fields(f),
{
    lemma_split_join(f);
}

proof fn lemma_split_join(f: Seq<Seq<char>>)
    requires
        f.len() >= 1,
        forall|k: int| 0 <= k < f.len() ==> !(#[trigger] f[k]).contains(FIELD_SEPARATOR),
    ensures
        split_fields(join_fields(f)) == f,
    decreases f.len(),
{
    if f.len() == 1 {
        let e: Seq<char> = Seq::empty();
        lemma_split_extend(e, f[0]);
        assert(e + f[0] =~= f[0]);
        assert(split_fields(e) =~= seq![e]);
        assert(split_fields(f[0]) =~= f);
    } else {
        let g = f.drop_last();
        assert forall|k: int| 0 <= k < g.len() implies !(#[trigger] g[k]).contains(
            FIELD_SEPARATOR,
        ) by {
            assert(g[k] == f[k]);
        }
        lemma_split_join(g);
        let x = join_fields(g) + seq![FIELD_SEPARATOR];
        assert(x.drop_last() =~= join_fields(g));
        assert(split_fields(x) == g.push(Seq::empty()));
        assert(!f[f.len() - 1].contains(FIELD_SEPARATOR));
        lemma_split_extend(x, f.last());
        let e: Seq<char> = Seq::empty();
        assert(e + f.last() =~= f.last());
        assert(split_fields(join_fields(f)) =~= f);
    }
}

/// The first entry, in order, whose login name is `name`.
pub open spec fn find_spec(entries: Seq<ShadowEntry>, name: Seq<char>) -> Option<ShadowEntry>
    decreases entries.len(),
{
    if entries.len() == 0 {
        None
    } else if entries[0].login_name@ == name {
        Some(entries[0])
    } else {
        find_spec(entries.drop_first(), name)
    }
}

/// The credential store: its entries in file order, and whether they were
/// changed since they were read.
pub struct ShadowFile {
    /// The entries, in the order of their lines.
    pub entries: Vec<ShadowEntry>,
    /// Whether the entries differ from what was read.
    pub modified: bool,
}

impl ShadowFile {
    /// Builds the store from its lines in file order. Every line must parse;
    /// the first one that does not is reported as `CorruptEntry`, and no
    /// store is made.
    pub fn from_lines(lines: Vec<String>) -> (r: Result<ShadowFile, PasswdError>)
        ensures
            (forall|i: int|
                0 <= i < lines@.len() ==> split_fields(#[trigger] lines@[i]@).len() == FIELD_COUNT)
                <==> r is Ok,
            r matches Ok(f) ==> {
                &&& !f.modified
                &&& f.entries@.len() == lines@.len()
                &&& forall|i: int|
                    0 <= i < lines@.len() ==> (#[trigger] f.entries@[i]).parsed_from(lines@[i]@)
            },
            r matches Err(err) ==> exists|i: int|
                0 <= i < lines@.len() && split_fields(#[trigger] lines@[i]@).len() != FIELD_COUNT
                    && err == PasswdError::CorruptEntry(lines@[i]) && forall|j: int|
                    0 <= j < i ==> split_fields(#[trigger] lines@[j]@).len() == FIELD_COUNT,
    {
        let mut entries: Vec<ShadowEntry> = Vec::new();
        let mut i: usize = 0;
        while i < lines.len()
            invariant
                i <= lines@.len(),
                entries@.len() == i,
                forall|j: int|
                    0 <= j < i ==> split_fields(#[trigger] lines@[j]@).len() == FIELD_COUNT,
                forall|j: int| 0 <= j < i ==> (#[trigger] entries@[j]).parsed_from(lines@[j]@),
            decreases lines@.len() - i,
        {
            let line = lines[i].clone();
            match ShadowEntry::new(line) {
                Ok(e) => {
                    entries.push(e);
                },
                Err(err) => {
                    return Err(err);
                },
            }
            i = i + 1;
        }
        Ok(ShadowFile { entries, modified: false })
    }

    /// The first entry, in file order, whose login name is `name`; `None`
    /// when no entry has that name, which is a normal outcome.
    pub fn find_by_name(&self, name: &str) -> (r: Option<&ShadowEntry>)
        ensures
            r matches Some(e) ==> find_spec(self.entries@, name@) == Some(*e),
            r is None <==> find_spec(self.entries@, name@) is None,
            r is None <==> forall|i: int|
                0 <= i < self.entries@.len() ==> (#[trigger] self.entries@[i]).login_name@ != name@,
    {
        let mut i: usize = 0;
        assert(self.entries@.skip(0) =~= self.entries@);
        while i < self.entries.len()
            invariant
                i <= self.entries@.len(),
                find_spec(self.entries@, name@) == find_spec(self.entries@.skip(i as int), name@),
                forall|j: int|
                    0 <= j < i ==> (#[trigger] self.entries@[j]).login_name@ != name@,
            decreases self.entries@.len() - i,
        {
            let ghost rest = self.entries@.skip(i as int);
            assert(rest[0] == self.entries@[i as int]);
            assert(rest.drop_first() =~= self.entries@.skip(i + 1));
            let e = &self.entries[i];
            if chars_are(&chars_of(e.login_name.as_str()), name) {
                return Some(e);
            }
            i = i + 1;
        }
        assert(self.entries@.skip(i as int).len() == 0);
        None
    }
}

} // verus!
