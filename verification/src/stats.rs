//! The stats snapshot: one poll cycle's counter readings, and the parser
//! that builds it from the supervised process's text reply.

use vstd::prelude::*;

use crate::text::{
    collect_digit_run, find_char_from, find_sub_from, parse_digits_i64, spec_digit_run_from,
    spec_digits_val, spec_find_char_from, spec_find_sub_from, spec_split_lines, spec_trim,
    split_lines, str_eq, trim_str,
};

verus! {

/// One committed counter: its full name and its non-negative delta.
pub struct StatEntry {
    pub name: String,
    pub value: i64,
}

/// A fresh mapping from counter name to delta, produced by one poll.
pub struct StatsSnapshot {
    entries: Vec<StatEntry>,
}

/// No two entries share a name.
pub open spec fn unique_names(es: Seq<StatEntry>) -> bool {
    forall|i: int, j: int| 0 <= i < j < es.len() ==> es[i].name@ != es[j].name@
}

/// All committed deltas are non-negative.
pub open spec fn nonneg_values(es: Seq<StatEntry>) -> bool {
    forall|i: int| 0 <= i < es.len() ==> (#[trigger] es[i].value) >= 0
}

/// The mapping the entries stand for; a later entry wins over an earlier
/// one with the same name.
pub open spec fn spec_entries_map(es: Seq<StatEntry>) -> Map<Seq<char>, i64>
    decreases es.len(),
{
    if es.len() == 0 {
        Map::<Seq<char>, i64>::empty()
    } else {
        spec_entries_map(es.drop_last()).insert(es.last().name@, es.last().value)
    }
}

/// A key is in the mapping exactly when some entry bears it.
proof fn lemma_map_contains(es: Seq<StatEntry>, key: Seq<char>)
    ensures
        spec_entries_map(es).contains_key(key) <==> (exists|i: int|
            0 <= i < es.len() && es[i].name@ == key),
    decreases es.len(),
{
    if es.len() > 0 {
        let es0 = es.drop_last();
        lemma_map_contains(es0, key);
        if es.last().name@ == key {
            assert(es[es.len() - 1].name@ == key);
        } else {
            if exists|i: int| 0 <= i < es.len() && es[i].name@ == key {
                let i = choose|i: int| 0 <= i < es.len() && es[i].name@ == key;
                assert(es0[i].name@ == key);
            }
            if exists|i: int| 0 <= i < es0.len() && es0[i].name@ == key {
                let i = choose|i: int| 0 <= i < es0.len() && es0[i].name@ == key;
                assert(es[i].name@ == key);
            }
        }
    }
}

/// With unique names, the mapping holds each entry's own value.
proof fn lemma_map_value(es: Seq<StatEntry>, i: int)
    requires
        unique_names(es),
        0 <= i < es.len(),
    ensures
        spec_entries_map(es).contains_key(es[i].name@),
        spec_entries_map(es)[es[i].name@] == es[i].value,
    decreases es.len(),
{
    let es0 = es.drop_last();
    if i < es.len() - 1 {
        assert(unique_names(es0)) by {
            assert(forall|a: int, b: int|
                0 <= a < b < es0.len() ==> es0[a].name@ != es0[b].name@) by {
                assert(forall|a: int| 0 <= a < es0.len() ==> es0[a] == es[a]);
            }
        }
        lemma_map_value(es0, i);
        assert(es[i].name@ != es.last().name@);
    }
}

/// With unique names, the mapping has exactly one key per entry.
proof fn lemma_map_card(es: Seq<StatEntry>)
    requires
        unique_names(es),
    ensures
        spec_entries_map(es).dom().finite(),
        spec_entries_map(es).dom().len() == es.len(),
    decreases es.len(),
{
    if es.len() > 0 {
        let es0 = es.drop_last();
        assert(unique_names(es0)) by {
            assert(forall|a: int| 0 <= a < es0.len() ==> es0[a] == es[a]);
        }
        lemma_map_card(es0);
        lemma_map_contains(es0, es.last().name@);
        if exists|i: int| 0 <= i < es0.len() && es0[i].name@ == es.last().name@ {
            let i = choose|i: int| 0 <= i < es0.len() && es0[i].name@ == es.last().name@;
            assert(es[i].name@ == es[es.len() - 1].name@);
            assert(false);
        }
        assert(!spec_entries_map(es0).contains_key(es.last().name@));
    }
}

/// Replacing the value of entry `i` is inserting over its name.
proof fn lemma_map_update(es: Seq<StatEntry>, i: int, e: StatEntry)
    requires
        unique_names(es),
        0 <= i < es.len(),
        e.name@ == es[i].name@,
    ensures
        spec_entries_map(es.update(i, e)) == spec_entries_map(es).insert(es[i].name@, e.value),
    decreases es.len(),
{
    let key = es[i].name@;
    let es0 = es.drop_last();
    if i == es.len() - 1 {
        assert(es.update(i, e).drop_last() =~= es0);
        assert(es.update(i, e).last() == e);
        assert(spec_entries_map(es.update(i, e)) == spec_entries_map(es0).insert(key, e.value));
        assert(spec_entries_map(es).insert(key, e.value) =~= spec_entries_map(es0).insert(
            key,
            e.value,
        ));
    } else {
        assert(unique_names(es0)) by {
            assert(forall|a: int| 0 <= a < es0.len() ==> es0[a] == es[a]);
        }
        lemma_map_update(es0, i, e);
        assert(es.update(i, e).drop_last() =~= es0.update(i, e));
        assert(es.update(i, e).last() == es.last());
        assert(key != es.last().name@);
        assert(spec_entries_map(es.update(i, e)) == spec_entries_map(es0).insert(
            key,
            e.value,
        ).insert(es.last().name@, es.last().value));
        assert(spec_entries_map(es0).insert(key, e.value).insert(es.last().name@, es.last().value)
            =~= spec_entries_map(es).insert(key, e.value));
    }
}

impl View for StatsSnapshot {
    type V = Map<Seq<char>, i64>;

    closed spec fn view(&self) -> Map<Seq<char>, i64> {
        spec_entries_map(self.entries@)
    }
}

impl StatsSnapshot {
    /// Entries are unique by name and hold non-negative deltas.
    pub closed spec fn wf(&self) -> bool {
        unique_names(self.entries@) && nonneg_values(self.entries@)
    }

    /// An empty snapshot.
    pub fn new() -> (r: StatsSnapshot)
        ensures
            r.wf(),
            r@ == Map::<Seq<char>, i64>::empty(),
            r@.dom().len() == 0,
    {
        let r = StatsSnapshot { entries: Vec::new() };
        proof {
            lemma_map_card(r.entries@);
        }
        r
    }

    /// The index of the entry named `name`, if one exists.
    fn position_of(&self, name: &str) -> (r: Option<usize>)
        ensures
            match r {
                Some(i) => i < self.entries@.len() && self.entries@[i as int].name@ == name@,
                None => forall|i: int|
                    0 <= i < self.entries@.len() ==> (#[trigger] self.entries@[i].name@) != name@,
            },
    {
        let mut i: usize = 0;
        while i < self.entries.len()
            invariant
                0 <= i <= self.entries@.len(),
                forall|j: int| 0 <= j < i ==> (#[trigger] self.entries@[j].name@) != name@,
            decreases self.entries@.len() - i,
        {
            if str_eq(self.entries[i].name.as_str(), name) {
                return Some(i);
            }
            i += 1;
        }
        None
    }

    /// Stores `value` under `name`, replacing any earlier value.
    pub fn put(&mut self, name: String, value: i64)
        requires
            old(self).wf(),
            value >= 0,
        ensures
            final(self).wf(),
            final(self)@ == old(self)@.insert(name@, value),
    {
        let ghost es = self.entries@;
        match self.position_of(name.as_str()) {
            Some(i) => {
                let old_entry = self.entries.remove(i);
                let new_entry = StatEntry { name: old_entry.name, value };
                self.entries.insert(i, new_entry);
                proof {
                    let e = StatEntry { name: old_entry.name, value };
                    assert(self.entries@ =~= es.update(i as int, e));
                    lemma_map_update(es, i as int, e);
                    assert(forall|a: int, b: int|
                        0 <= a < b < self.entries@.len() ==> self.entries@[a].name@
                            != self.entries@[b].name@) by {
                        assert(forall|a: int|
                            0 <= a < es.len() && a != i ==> self.entries@[a] == es[a]);
                    }
                }
            },
            None => {
                self.entries.push(StatEntry { name, value });
                proof {
                    assert(self.entries@.drop_last() =~= es);
                }
            },
        }
    }

    /// The delta recorded under `name`, or zero when the snapshot has none.
    pub fn get_or_zero(&self, name: &str) -> (r: i64)
        requires
            self.wf(),
        ensures
            r == if self@.contains_key(name@) {
                self@[name@]
            } else {
                0
            },
            r >= 0,
    {
        proof {
            lemma_map_contains(self.entries@, name@);
        }
        match self.position_of(name) {
            Some(i) => {
                proof {
                    lemma_map_value(self.entries@, i as int);
                }
                self.entries[i].value
            },
            None => {
                proof {
                    if exists|i: int|
                        0 <= i < self.entries@.len() && self.entries@[i].name@ == name@ {
                        let i = choose|i: int|
                            0 <= i < self.entries@.len() && self.entries@[i].name@ == name@;
                        assert(self.entries@[i].name@ != name@);
                    }
                }
                0
            },
        }
    }

    /// How many distinct counters the snapshot holds.
    pub fn count(&self) -> (r: usize)
        requires
            self.wf(),
        ensures
            r == self@.dom().len(),
    {
        proof {
            lemma_map_card(self.entries@);
        }
        self.entries.len()
    }
}

/// A line that, after trimming, is exactly a record-closing brace token.
pub open spec fn spec_line_boundary(l: Seq<char>) -> bool {
    spec_trim(l) == "}"@ || spec_trim(l) == "},"@
}

/// The counter name on this line: the first quoted substring after the
/// first occurrence of the name token, if both are present.
pub open spec fn spec_extract_name(l: Seq<char>) -> Option<Seq<char>> {
    match spec_find_sub_from(l, "name"@, 0) {
        None => None,
        Some(j) => {
            let p = j + "name"@.len();
            match spec_find_char_from(l, p, '"') {
                None => None,
                Some(q1) => match spec_find_char_from(l, q1 + 1, '"') {
                    None => None,
                    Some(q2) => Some(l.subrange(q1 + 1, q2)),
                },
            }
        },
    }
}

/// The counter value on this line: the first run of consecutive decimal
/// digits after the first occurrence of the value token; absent when there
/// is no digit or the number does not fit a 64-bit counter.
pub open spec fn spec_extract_value(l: Seq<char>) -> Option<int> {
    match spec_find_sub_from(l, "value"@, 0) {
        None => None,
        Some(j) => {
            let ds = spec_digit_run_from(l, j + "value"@.len());
            if ds.len() == 0 {
                None
            } else if spec_digits_val(ds) > i64::MAX {
                None
            } else {
                Some(spec_digits_val(ds))
            }
        },
    }
}

/// The parser's state between lines: the pending name and value, and what
/// has been committed so far.
pub struct ParsingState {
    pub cur_name: Option<Seq<char>>,
    pub cur_value: Option<int>,
    pub committed: Map<Seq<char>, i64>,
}

/// The state before any line is read.
pub open spec fn spec_init_state() -> ParsingState {
    ParsingState { cur_name: None, cur_value: None, committed: Map::<Seq<char>, i64>::empty() }
}

/// Commits the pending pair when both halves are present, then clears both.
pub open spec fn spec_commit(st: ParsingState) -> ParsingState {
    ParsingState {
        cur_name: None,
        cur_value: None,
        committed: if st.cur_name is Some && st.cur_value is Some {
            st.committed.insert(st.cur_name->Some_0, st.cur_value->Some_0 as i64)
        } else {
            st.committed
        },
    }
}

/// One line of the parse: commit-and-clear on a record boundary, then take
/// a name and a value the line offers, then commit at once when the line
/// completed a pair.
pub open spec fn spec_step(st: ParsingState, l: Seq<char>) -> ParsingState {
    let st1 = if spec_line_boundary(l) {
        spec_commit(st)
    } else {
        st
    };
    let st2 = match spec_extract_name(l) {
        Some(nm) => ParsingState { cur_name: Some(nm), ..st1 },
        None => st1,
    };
    let st3 = match spec_extract_value(l) {
        Some(v) => ParsingState { cur_value: Some(v), ..st2 },
        None => st2,
    };
    if st3.cur_name is Some && st3.cur_value is Some {
        spec_commit(st3)
    } else {
        st3
    }
}

/// The state after reading all lines in order.
pub open spec fn spec_run_lines(lines: Seq<Seq<char>>) -> ParsingState
    decreases lines.len(),
{
    if lines.len() == 0 {
        spec_init_state()
    } else {
        spec_step(spec_run_lines(lines.drop_last()), lines.last())
    }
}

/// What the parser yields for a whole reply.
pub open spec fn spec_parse_stats(s: Seq<char>) -> Map<Seq<char>, i64> {
    spec_run_lines(spec_split_lines(s)).committed
}

/// Extracts the counter name from one line, as `spec_extract_name` says.
fn extract_name(l: &str) -> (r: Option<String>)
    ensures
        match r {
            Some(nm) => spec_extract_name(l@) == Some(nm@),
            None => spec_extract_name(l@) is None,
        },
{
    let n = l.unicode_len();
    let m = "name".unicode_len();
    match find_sub_from(l, "name", 0) {
        None => None,
        Some(j) => {
            let p = j + m;
            match find_char_from(l, p, '"') {
                None => None,
                Some(q1) => match find_char_from(l, q1 + 1, '"') {
                    None => None,
                    Some(q2) => Some(l.substring_char(q1 + 1, q2).to_owned()),
                },
            }
        },
    }
}

/// Extracts the counter value from one line, as `spec_extract_value` says.
fn extract_value(l: &str) -> (r: Option<i64>)
    ensures
        match r {
            Some(v) => spec_extract_value(l@) == Some(v as int) && v >= 0,
            None => spec_extract_value(l@) is None,
        },
{
    let n = l.unicode_len();
    let m = "value".unicode_len();
    match find_sub_from(l, "value", 0) {
        None => None,
        Some(j) => {
            let p = j + m;
            let ds = collect_digit_run(l, p);
            parse_digits_i64(&ds)
        },
    }
}

/// Parses the control-plane reply into a snapshot: records are delimited by
/// closing braces; a record missing its value is dropped; a pair completed
/// on a single line is committed at once.
pub fn parse_stats(reply: &str) -> (r: StatsSnapshot)
    ensures
        r.wf(),
        r@ == spec_parse_stats(reply@),
{
    let lines = split_lines(reply);
    let ghost lv = lines.deep_view();
    let mut snap = StatsSnapshot::new();
    let mut cur_name: Option<String> = None;
    let mut cur_value: Option<i64> = None;
    let mut i: usize = 0;
    proof {
        assert(lv.take(0) =~= Seq::<Seq<char>>::empty());
    }
    while i < lines.len()
        invariant
            lv == lines.deep_view(),
            lv == spec_split_lines(reply@),
            0 <= i <= lines@.len(),
            lines@.len() == lv.len(),
            snap.wf(),
            snap@ == spec_run_lines(lv.take(i as int)).committed,
            match cur_name {
                Some(nm) => spec_run_lines(lv.take(i as int)).cur_name == Some(nm@),
                None => spec_run_lines(lv.take(i as int)).cur_name is None,
            },
            match cur_value {
                Some(v) => spec_run_lines(lv.take(i as int)).cur_value == Some(v as int) && v >= 0,
                None => spec_run_lines(lv.take(i as int)).cur_value is None,
            },
        decreases lines@.len() - i,
    {
        let ghost st0 = spec_run_lines(lv.take(i as int));
        let l = &lines[i];
        proof {
            assert(lv[i as int] == lines@[i as int]@);
            assert(lv.take(i as int + 1).drop_last() =~= lv.take(i as int));
            assert(lv.take(i as int + 1).last() == lv[i as int]);
        }
        let ghost st1 = if spec_line_boundary(l@) {
            spec_commit(st0)
        } else {
            st0
        };
        let t = trim_str(l.as_str());
        if str_eq(t, "}") || str_eq(t, "},") {
            match (cur_name, cur_value) {
                (Some(nm), Some(v)) => {
                    snap.put(nm, v);
                },
                (n, v) => {
                },
            }
            cur_name = None;
            cur_value = None;
        }
        proof {
            assert(snap@ == st1.committed);
        }
        let ghost st2 = match spec_extract_name(l@) {
            Some(nm) => ParsingState { cur_name: Some(nm), ..st1 },
            None => st1,
        };
        match extract_name(l.as_str()) {
            Some(nm) => {
                cur_name = Some(nm);
            },
            None => {},
        }
        let ghost st3 = match spec_extract_value(l@) {
            Some(v) => ParsingState { cur_value: Some(v), ..st2 },
            None => st2,
        };
        match extract_value(l.as_str()) {
            Some(v) => {
                cur_value = Some(v);
            },
            None => {},
        }
        if cur_name.is_some() && cur_value.is_some() {
            match (cur_name, cur_value) {
                (Some(nm), Some(v)) => {
                    snap.put(nm, v);
                },
                (n, v) => {
                    proof {
                        assert(false);
                    }
                },
            }
            cur_name = None;
            cur_value = None;
        }
        proof {
            assert(spec_run_lines(lv.take(i as int + 1)) == spec_step(st0, lv[i as int]));
        }
        i += 1;
    }
    proof {
        assert(lv.take(lv.len() as int) =~= lv);
    }
    snap
}

} // verus!
