//! The directory of named capture groups.
//!
//! The engine keeps the names of a pattern in a packed directory: records of
//! one fixed width, each made of a group number in two bytes, high byte first,
//! and the group's name with a zero byte behind it. This module says when such
//! a directory is well formed and decodes it into a table from each name to the
//! numbers of the groups that carry it.

use vstd::prelude::*;

verus! {

/// The first position at or after `from` and before `limit` that holds a zero
/// byte, or `limit` when there is none.
pub open spec fn name_end(table: Seq<u8>, from: int, limit: int) -> int
    decreases limit - from,
{
    if from >= limit || table[from] == 0 {
        from
    } else {
        name_end(table, from + 1, limit)
    }
}

/// Record `i` of a directory with records of `size` bytes lies within the table,
/// has its name closed by a zero byte inside the record, and the name is ASCII.
pub open spec fn record_ok(table: Seq<u8>, i: int, size: int) -> bool {
    let end = name_end(table, i * size + 2, (i + 1) * size);
    &&& end < (i + 1) * size
    &&& forall|j: int| i * size + 2 <= j < end ==> #[trigger] table[j] < 128
}

/// A directory of `count` records of `size` bytes each is well formed.
pub open spec fn directory_ok(table: Seq<u8>, count: int, size: int) -> bool {
    &&& 0 <= count
    &&& 0 <= size
    &&& count > 0 ==> size >= 3
    &&& count * size <= table.len()
    &&& forall|i: int| 0 <= i < count ==> #[trigger] record_ok(table, i, size)
}

/// The group number that record `i` holds.
pub open spec fn record_number(table: Seq<u8>, i: int, size: int) -> usize {
    (table[i * size] as usize * 256 + table[i * size + 1] as usize) as usize
}

/// The name that record `i` holds.
pub open spec fn record_name(table: Seq<u8>, i: int, size: int) -> Seq<char> {
    let from = i * size + 2;
    let end = name_end(table, from, (i + 1) * size);
    Seq::new((end - from) as nat, |k: int| table[from + k] as char)
}

/// The records of a directory, in the order of the directory.
pub open spec fn records(table: Seq<u8>, count: int, size: int) -> Seq<(Seq<char>, usize)> {
    Seq::new(count as nat, |i: int| (record_name(table, i, size), record_number(table, i, size)))
}

/// The first position at or after `k` whose entry has the name `name`, or the
/// number of entries when there is none.
pub open spec fn find_from(
    entries: Seq<(Seq<char>, Seq<usize>)>,
    name: Seq<char>,
    k: int,
) -> int
    decreases entries.len() - k,
{
    if k >= entries.len() || entries[k].0 == name {
        k
    } else {
        find_from(entries, name, k + 1)
    }
}

/// The table after one more record: its number joins the entry of its name, or
/// the name gets a new entry behind the others.
pub open spec fn with_record(
    entries: Seq<(Seq<char>, Seq<usize>)>,
    name: Seq<char>,
    number: usize,
) -> Seq<(Seq<char>, Seq<usize>)> {
    let at = find_from(entries, name, 0);
    if at < entries.len() {
        entries.update(at, (name, entries[at].1.push(number)))
    } else {
        entries.push((name, seq![number]))
    }
}

/// The table that a sequence of records gives: one entry for each name, in the
/// order in which the names first occur, with the numbers in record order.
pub open spec fn grouped(recs: Seq<(Seq<char>, usize)>) -> Seq<(Seq<char>, Seq<usize>)>
    decreases recs.len(),
{
    if recs.len() == 0 {
        Seq::empty()
    } else {
        with_record(grouped(recs.drop_last()), recs.last().0, recs.last().1)
    }
}

/// `name_end` stays between its start and its limit.
pub proof fn lemma_name_end_bounds(table: Seq<u8>, from: int, limit: int)
    requires
        from <= limit,
    ensures
        from <= name_end(table, from, limit) <= limit,
    decreases limit - from,
{
    if from < limit && table[from] != 0 {
        lemma_name_end_bounds(table, from + 1, limit);
    }
}

proof fn lemma_record_span(i: int, count: int, size: int)
    by (nonlinear_arith)
    requires
        0 <= i < count,
        0 <= size,
    ensures
        (i + 1) * size == i * size + size,
        (i + 1) * size <= count * size,
        0 <= i * size,
{
}

proof fn lemma_total_fits(count: i32, size: i32)
    by (nonlinear_arith)
    requires
        0 <= count,
        0 <= size,
    ensures
        0 <= count * size <= 0x7fff_ffff * 0x7fff_ffff,
{
}

/// Whether `table` holds a well-formed directory of `count` records of `size`
/// bytes.
pub fn directory_is_valid(table: &Vec<u8>, count: i32, size: i32) -> (ok: bool)
    ensures
        ok == directory_ok(table@, count as int, size as int),
{
    if count < 0 || size < 0 {
        return false;
    }
    if count > 0 && size < 3 {
        return false;
    }
    proof {
        lemma_total_fits(count, size);
    }
    let total: u64 = (count as u64) * (size as u64);
    if total > table.len() as u64 {
        return false;
    }
    let records: usize = count as usize;
    let width: usize = size as usize;
    let mut i: usize = 0;
    let mut start: usize = 0;
    while i < records
        invariant
            0 <= i <= records,
            records == count,
            width == size,
            count > 0 ==> size >= 3,
            table@.len() <= usize::MAX,
            start == i * size,
            count * size <= table@.len(),
            forall|k: int| 0 <= k < i ==> #[trigger] record_ok(table@, k, size as int),
        decreases records - i,
    {
        proof {
            lemma_record_span(i as int, count as int, size as int);
        }
        let limit: usize = start + width;
        let mut j: usize = start + 2;
        while j < limit && table[j] != 0 && table[j] < 128
            invariant
                start + 2 <= j <= limit,
                limit <= table@.len(),
                name_end(table@, start + 2, limit as int) == name_end(
                    table@,
                    j as int,
                    limit as int,
                ),
                forall|p: int| start + 2 <= p < j ==> #[trigger] table@[p] < 128,
            decreases limit - j,
        {
            j = j + 1;
        }
        if j >= limit || table[j] != 0 {
            proof {
                if j < limit {
                    lemma_name_end_bounds(table@, j + 1, limit as int);
                    assert(table@[j as int] >= 128);
                }
                assert(!record_ok(table@, i as int, size as int));
            }
            return false;
        }
        i = i + 1;
        start = limit;
    }
    true
}

/// `find_from` finds the first entry of the name at or after its start.
pub proof fn lemma_find_from(entries: Seq<(Seq<char>, Seq<usize>)>, name: Seq<char>, k: int)
    requires
        0 <= k <= entries.len(),
    ensures
        k <= find_from(entries, name, k) <= entries.len(),
        find_from(entries, name, k) < entries.len() ==> entries[find_from(entries, name, k)].0
            == name,
        forall|j: int| k <= j < find_from(entries, name, k) ==> (#[trigger] entries[j]).0 != name,
    decreases entries.len() - k,
{
    if k < entries.len() && entries[k].0 != name {
        lemma_find_from(entries, name, k + 1);
    }
}

/// The numbers of the records that carry `name`, in the order of the records.
pub open spec fn numbers_of(recs: Seq<(Seq<char>, usize)>, name: Seq<char>) -> Seq<usize>
    decreases recs.len(),
{
    if recs.len() == 0 {
        Seq::empty()
    } else if recs.last().0 == name {
        numbers_of(recs.drop_last(), name).push(recs.last().1)
    } else {
        numbers_of(recs.drop_last(), name)
    }
}

/// The table of a sequence of records holds each name once; the numbers of an
/// entry are the numbers of all records with its name, in the order of the
/// records, so that no entry is empty; and a name that is not in the table is
/// the name of no record.
pub proof fn lemma_grouped(recs: Seq<(Seq<char>, usize)>)
    ensures
        forall|i: int, j: int|
            0 <= i < j < grouped(recs).len() ==> (#[trigger] grouped(recs)[i]).0 != (
            #[trigger] grouped(recs)[j]).0,
        forall|p: int|
            0 <= p < grouped(recs).len() ==> (#[trigger] grouped(recs)[p]).1 == numbers_of(
                recs,
                grouped(recs)[p].0,
            ) && grouped(recs)[p].1.len() > 0,
        forall|name: Seq<char>|
            (forall|p: int| 0 <= p < grouped(recs).len() ==> (#[trigger] grouped(recs)[p]).0 != name)
                ==> #[trigger] numbers_of(recs, name).len() == 0,
    decreases recs.len(),
{
    if recs.len() > 0 {
        let before = recs.drop_last();
        let name = recs.last().0;
        let number = recs.last().1;
        let old_table = grouped(before);
        let new_table = grouped(recs);
        let at = find_from(old_table, name, 0);
        lemma_grouped(before);
        lemma_find_from(old_table, name, 0);
        if at < old_table.len() {
            assert forall|p: int| 0 <= p < new_table.len() implies (#[trigger] new_table[p]).0
                == old_table[p].0 by {}
            assert forall|p: int| 0 <= p < new_table.len() implies (#[trigger] new_table[p]).1
                == numbers_of(recs, new_table[p].0) && new_table[p].1.len() > 0 by {
                if p != at {
                    assert(old_table[p].0 != old_table[at].0);
                }
            }
            assert forall|other: Seq<char>|
                (forall|p: int|
                    0 <= p < new_table.len() ==> (#[trigger] new_table[p]).0
                        != other) implies #[trigger] numbers_of(recs, other).len() == 0 by {
                assert(new_table[at].0 != other);
                assert forall|p: int| 0 <= p < old_table.len() implies (#[trigger] old_table[p]).0
                    != other by {
                    assert(new_table[p].0 == old_table[p].0);
                }
                assert(numbers_of(before, other).len() == 0);
                assert(name != other);
            }
        } else {
            assert(numbers_of(before, name).len() == 0);
            assert(numbers_of(recs, name) =~= seq![number]);
            assert forall|p: int| 0 <= p < new_table.len() implies (#[trigger] new_table[p]).1
                == numbers_of(recs, new_table[p].0) && new_table[p].1.len() > 0 by {
                if p < old_table.len() {
                    assert(new_table[p] == old_table[p]);
                }
            }
            assert forall|other: Seq<char>|
                (forall|p: int|
                    0 <= p < new_table.len() ==> (#[trigger] new_table[p]).0
                        != other) implies #[trigger] numbers_of(recs, other).len() == 0 by {
                assert(new_table[old_table.len() as int].0 == name);
                assert forall|p: int| 0 <= p < old_table.len() implies (#[trigger] old_table[p]).0
                    != other by {
                    assert(new_table[p] == old_table[p]);
                }
                assert(numbers_of(before, other).len() == 0);
                assert(name != other);
            }
        }
    }
}

/// `String::push` of the standard library: the string afterwards is the string
/// before with `ch` behind it.
pub assume_specification[ String::push ](s: &mut String, ch: char)
    ensures
        final(s)@ == old(s)@.push(ch),
;

/// One name of a pattern with the numbers of the groups that carry it.
pub struct NameEntry {
    name: String,
    groups: Vec<usize>,
}

/// The names of a pattern's capture groups, each with its group numbers.
///
/// The names stand in the order in which the directory first mentions them, and
/// the numbers of one name in the order of the directory.
pub struct NameTable {
    entries: Vec<NameEntry>,
}

impl View for NameTable {
    type V = Seq<(Seq<char>, Seq<usize>)>;

    closed spec fn view(&self) -> Seq<(Seq<char>, Seq<usize>)> {
        Seq::new(
            self.entries@.len(),
            |i: int| (self.entries@[i].name@, self.entries@[i].groups@),
        )
    }
}

impl NameTable {
    /// The number of different names.
    pub fn len(&self) -> (n: usize)
        ensures
            n == self@.len(),
    {
        self.entries.len()
    }

    /// The name at position `i`.
    pub fn name(&self, i: usize) -> (name: &String)
        requires
            i < self@.len(),
        ensures
            name@ == self@[i as int].0,
    {
        &self.entries[i].name
    }

    /// The group numbers of the name at position `i`.
    pub fn groups(&self, i: usize) -> (groups: &Vec<usize>)
        requires
            i < self@.len(),
        ensures
            groups@ == self@[i as int].1,
    {
        &self.entries[i].groups
    }

    /// The position of `name` in the table, or the table's length when the
    /// table does not hold it.
    pub fn position(&self, name: &String) -> (at: usize)
        ensures
            at == find_from(self@, name@, 0),
            at <= self@.len(),
            at < self@.len() ==> self@[at as int].0 == name@,
    {
        proof {
            lemma_find_from(self@, name@, 0);
        }
        let mut k: usize = 0;
        while k < self.entries.len() && self.entries[k].name != *name
            invariant
                0 <= k <= self.entries@.len(),
                find_from(self@, name@, 0) == find_from(self@, name@, k as int),
            decreases self.entries@.len() - k,
        {
            k = k + 1;
        }
        k
    }

    /// The group numbers that carry `name`, when the pattern has that name.
    pub fn get(&self, name: &str) -> (found: Option<&Vec<usize>>)
        ensures
            match found {
                Some(groups) => {
                    let at = find_from(self@, name@, 0);
                    at < self@.len() && groups@ == self@[at].1
                },
                None => find_from(self@, name@, 0) == self@.len(),
            },
    {
        let owned: String = name.to_owned();
        let at: usize = self.position(&owned);
        if at < self.entries.len() {
            Some(&self.entries[at].groups)
        } else {
            None
        }
    }

    /// Decodes a well-formed directory of `count` records of `size` bytes.
    pub fn decode(table: &Vec<u8>, count: usize, size: usize) -> (names: NameTable)
        requires
            directory_ok(table@, count as int, size as int),
        ensures
            names@ == grouped(records(table@, count as int, size as int)),
    {
        let mut names = NameTable { entries: Vec::new() };
        let bytes: usize = table.len();
        let mut i: usize = 0;
        let mut start: usize = 0;
        proof {
            assert(records(table@, 0, size as int) =~= Seq::empty());
            assert(names@ =~= Seq::empty());
        }
        while i < count
            invariant
                0 <= i <= count,
                directory_ok(table@, count as int, size as int),
                table@.len() <= usize::MAX,
                start == i * size,
                names@ == grouped(records(table@, i as int, size as int)),
            decreases count - i,
        {
            proof {
                lemma_record_span(i as int, count as int, size as int);
                assert(record_ok(table@, i as int, size as int));
                lemma_name_end_bounds(table@, start + 2, start + size);
            }
            let number: usize = (table[start] as usize) * 256 + (table[start + 1] as usize);
            let mut name = String::new();
            let mut j: usize = start + 2;
            while table[j] != 0
                invariant
                    start + 2 <= j < start + size,
                    start + size <= table@.len(),
                    table@.len() <= usize::MAX,
                    name_end(table@, start + 2, start + size) == name_end(
                        table@,
                        j as int,
                        start + size,
                    ),
                    name_end(table@, start + 2, start + size) < start + size,
                    forall|p: int|
                        start + 2 <= p < name_end(table@, start + 2, start + size) ==> (
                        #[trigger] table@[p]) < 128,
                    name@ == Seq::new((j - (start + 2)) as nat, |k: int| table@[start + 2 + k] as char),
                decreases start + size - j,
            {
                proof {
                    lemma_name_end_bounds(table@, j + 1, (start + size) as int);
                }
                let ghost before = name@;
                name.push(table[j] as char);
                j = j + 1;
                proof {
                    assert(name@ =~= Seq::new(
                        (j - (start + 2)) as nat,
                        |k: int| table@[start + 2 + k] as char,
                    ));
                }
            }
            proof {
                assert(name@ == record_name(table@, i as int, size as int));
                assert(number == record_number(table@, i as int, size as int));
            }
            let ghost before = names@;
            let ghost chars = name@;
            let at: usize = names.position(&name);
            if at < names.entries.len() {
                names.entries[at].groups.push(number);
                proof {
                    assert(names.entries@.len() == before.len());
                    assert(names.entries@[at as int].groups@ == before[at as int].1.push(number));
                    assert(names.entries@[at as int].name@ == chars);
                    assert forall|k: int| 0 <= k < before.len() && k != at implies names@[k]
                        == before[k] by {}
                    assert(names@ =~= before.update(
                        at as int,
                        (chars, before[at as int].1.push(number)),
                    ));
                }
            } else {
                let mut groups: Vec<usize> = Vec::new();
                groups.push(number);
                names.entries.push(NameEntry { name, groups });
                proof {
                    assert(groups@ =~= seq![number]);
                    assert(names.entries@.len() == before.len() + 1);
                    assert(names@[before.len() as int] == (chars, seq![number]));
                    assert(names@ =~= before.push((chars, seq![number])));
                }
            }
            proof {
                let upto = records(table@, i as int, size as int);
                let next = records(table@, i + 1, size as int);
                assert(next.drop_last() =~= upto);
                assert(next.last() == (record_name(table@, i as int, size as int), number));
                assert(names@ == with_record(
                    before,
                    record_name(table@, i as int, size as int),
                    number,
                ));
            }
            i = i + 1;
            start = start + size;
        }
        names
    }
}

} // verus!
