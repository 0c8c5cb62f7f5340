//! The environment of the server process, as `show env` prints it: one
//! `NAME=value` per line.

use crate::lines::{decoded_lines, line_views, read_lines};
use crate::text::{after_first, before_first, split_first};
use vstd::prelude::*;

verus! {

/// The name that a line gives: what stands before its first `=`, the whole
/// line if it holds none.
pub open spec fn line_name(line: Seq<char>) -> Seq<char> {
    before_first(line, "="@)
}

/// The value that a line gives: what stands after its first `=`, nothing if
/// it holds none.
pub open spec fn line_value(line: Seq<char>) -> Seq<char> {
    after_first(line, "="@)
}

/// The variables that `lines` set. Where a name comes twice, the later line
/// decides.
pub open spec fn variables_of(lines: Seq<Seq<char>>) -> Map<Seq<char>, Seq<char>>
    decreases lines.len(),
{
    if lines.len() == 0 {
        Map::empty()
    } else {
        variables_of(lines.drop_last()).insert(line_name(lines.last()), line_value(lines.last()))
    }
}

/// The map that a list of entries stands for. Where a name comes twice, the
/// later entry decides.
pub open spec fn entries_map(entries: Seq<(String, String)>) -> Map<Seq<char>, Seq<char>>
    decreases entries.len(),
{
    if entries.len() == 0 {
        Map::empty()
    } else {
        entries_map(entries.drop_last()).insert(entries.last().0@, entries.last().1@)
    }
}

/// Whether no two entries have the same name.
pub open spec fn distinct_names(entries: Seq<(String, String)>) -> bool {
    forall|i: int, j: int|
        0 <= i < j < entries.len() ==> (#[trigger] entries[i]).0@ != (#[trigger] entries[j]).0@
}

/// A name is in the map exactly when an entry has it.
proof fn lemma_entries_map_names(entries: Seq<(String, String)>, name: Seq<char>)
    ensures
        entries_map(entries).contains_key(name) <==> exists|i: int|
            0 <= i < entries.len() && (#[trigger] entries[i]).0@ == name,
        entries_map(entries).dom().finite(),
    decreases entries.len(),
{
    if entries.len() > 0 {
        let before = entries.drop_last();
        lemma_entries_map_names(before, name);
        if entries_map(entries).contains_key(name) {
            if entries.last().0@ == name {
                assert(entries[entries.len() - 1].0@ == name);
            } else {
                let i = choose|i: int| 0 <= i < before.len() && (#[trigger] before[i]).0@ == name;
                assert(entries[i].0@ == name);
            }
        }
        if exists|i: int| 0 <= i < entries.len() && (#[trigger] entries[i]).0@ == name {
            let i = choose|i: int| 0 <= i < entries.len() && (#[trigger] entries[i]).0@ == name;
            if i < entries.len() - 1 {
                assert(before[i].0@ == name);
            }
        }
    }
}

/// With distinct names, each entry's value is what the map holds for its
/// name, and the map has as many names as there are entries.
proof fn lemma_entries_map_values(entries: Seq<(String, String)>)
    requires
        distinct_names(entries),
    ensures
        forall|i: int|
            0 <= i < entries.len() ==> entries_map(entries)[(#[trigger] entries[i]).0@]
                == entries[i].1@,
        entries_map(entries).dom().finite(),
        entries_map(entries).dom().len() == entries.len(),
    decreases entries.len(),
{
    if entries.len() > 0 {
        let before = entries.drop_last();
        assert(distinct_names(before)) by {
            assert forall|i: int, j: int| 0 <= i < j < before.len() implies (
            #[trigger] before[i]).0@ != (#[trigger] before[j]).0@ by {
                assert(before[i] == entries[i] && before[j] == entries[j]);
            }
        }
        lemma_entries_map_values(before);
        lemma_entries_map_names(before, entries.last().0@);
        assert(!entries_map(before).contains_key(entries.last().0@)) by {
            if entries_map(before).contains_key(entries.last().0@) {
                let i = choose|i: int|
                    0 <= i < before.len() && (#[trigger] before[i]).0@ == entries.last().0@;
                assert(entries[i].0@ == entries[entries.len() - 1].0@);
            }
        }
        assert forall|i: int| 0 <= i < entries.len() implies entries_map(entries)[(
            #[trigger] entries[i]).0@] == entries[i].1@ by {
            if i < entries.len() - 1 {
                assert(before[i] == entries[i]);
                assert(entries[i].0@ != entries[entries.len() - 1].0@);
            }
        }
    }
}

/// Giving an entry a new value changes the map at that entry's name and
/// nowhere else.
proof fn lemma_entries_map_update(entries: Seq<(String, String)>, at: int, entry: (String, String))
    requires
        distinct_names(entries),
        0 <= at < entries.len(),
        entry.0@ == entries[at].0@,
    ensures
        entries_map(entries.update(at, entry)) == entries_map(entries).insert(entry.0@, entry.1@),
        distinct_names(entries.update(at, entry)),
    decreases entries.len(),
{
    let after = entries.update(at, entry);
    assert(distinct_names(after)) by {
        assert forall|i: int, j: int| 0 <= i < j < after.len() implies (#[trigger] after[i]).0@ != (
        #[trigger] after[j]).0@ by {
            assert(after[i].0@ == entries[i].0@);
            assert(after[j].0@ == entries[j].0@);
        }
    }
    let last = entries.len() - 1;
    if at == last {
        assert(after.drop_last() =~= entries.drop_last());
        assert(entries_map(after) =~= entries_map(entries).insert(entry.0@, entry.1@));
    } else {
        let before = entries.drop_last();
        assert(distinct_names(before)) by {
            assert forall|i: int, j: int| 0 <= i < j < before.len() implies (
            #[trigger] before[i]).0@ != (#[trigger] before[j]).0@ by {
                assert(before[i] == entries[i] && before[j] == entries[j]);
            }
        }
        lemma_entries_map_update(before, at, entry);
        assert(after.drop_last() =~= before.update(at, entry));
        assert(after.last() == entries.last());
        assert(entries[at].0@ != entries[last].0@);
        assert(entries_map(after) =~= entries_map(entries).insert(entry.0@, entry.1@));
    }
}

/// Where the entry called `name` stands in `entries`, if there is one.
fn find_entry(entries: &Vec<(String, String)>, name: &str) -> (r: Option<usize>)
    requires
        distinct_names(entries@),
    ensures
        r is Some <==> entries_map(entries@).contains_key(name@),
        r matches Some(i) ==> i < entries@.len() && entries@[i as int].0@ == name@
            && entries@[i as int].1@ == entries_map(entries@)[name@],
{
    let wanted = name.to_owned();
    let mut i: usize = 0;
    while i < entries.len()
        invariant
            i <= entries@.len(),
            wanted@ == name@,
            distinct_names(entries@),
            forall|j: int| 0 <= j < i ==> (#[trigger] entries@[j]).0@ != name@,
        decreases entries.len() - i,
    {
        if entries[i].0 == wanted {
            proof {
                lemma_entries_map_names(entries@, name@);
                lemma_entries_map_values(entries@);
            }
            return Some(i);
        }
        i += 1;
    }
    proof {
        lemma_entries_map_names(entries@, name@);
    }
    None
}

/// Lists of entries with the same names and values stand for the same map.
proof fn lemma_entries_map_same(a: Seq<(String, String)>, b: Seq<(String, String)>)
    requires
        a.len() == b.len(),
        forall|i: int|
            0 <= i < a.len() ==> (#[trigger] a[i]).0@ == b[i].0@ && a[i].1@ == b[i].1@,
    ensures
        entries_map(a) == entries_map(b),
        distinct_names(a) ==> distinct_names(b),
    decreases a.len(),
{
    if a.len() > 0 {
        assert(a.last().0@ == b.last().0@ && a.last().1@ == b.last().1@) by {
            assert(a[a.len() - 1].0@ == b[a.len() - 1].0@);
        }
        assert forall|i: int| 0 <= i < a.drop_last().len() implies (#[trigger] a.drop_last()[i]).0@
            == b.drop_last()[i].0@ && a.drop_last()[i].1@ == b.drop_last()[i].1@ by {
            assert(a[i].0@ == b[i].0@);
        }
        lemma_entries_map_same(a.drop_last(), b.drop_last());
    }
    if distinct_names(a) {
        assert forall|i: int, j: int| 0 <= i < j < b.len() implies (#[trigger] b[i]).0@ != (
        #[trigger] b[j]).0@ by {
            assert(a[i].0@ == b[i].0@);
            assert(a[j].0@ == b[j].0@);
        }
    }
}

/// Sets the entry called `name` to `value`, whether there was one or not.
fn set_entry(entries: &mut Vec<(String, String)>, name: String, value: String)
    requires
        distinct_names(old(entries)@),
    ensures
        distinct_names(final(entries)@),
        entries_map(final(entries)@) == entries_map(old(entries)@).insert(name@, value@),
{
    match find_entry(entries, name.as_str()) {
        Some(i) => {
            proof {
                lemma_entries_map_update(entries@, i as int, (name, value));
            }
            entries.set(i, (name, value));
        },
        None => {
            proof {
                lemma_entries_map_names(entries@, name@);
                let after = entries@.push((name, value));
                assert(after.drop_last() =~= entries@);
                assert forall|i: int, j: int| 0 <= i < j < after.len() implies (
                #[trigger] after[i]).0@ != (#[trigger] after[j]).0@ by {
                    assert(after[i] == entries@[i]);
                    if j < after.len() - 1 {
                        assert(after[j] == entries@[j]);
                    }
                }
            }
            entries.push((name, value));
        },
    }
}

/// The environment variables of the server process: each name with its
/// value.
#[derive(Debug)]
pub struct EnvironmentVariables {
    entries: Vec<(String, String)>,
}

impl View for EnvironmentVariables {
    type V = Map<Seq<char>, Seq<char>>;

    closed spec fn view(&self) -> Map<Seq<char>, Seq<char>> {
        entries_map(self.entries@)
    }
}

/// Why the output of `show env` could not be decoded.
#[derive(Debug, Clone, Copy, PartialEq, Eq)]
pub enum EnvironmentVariablesFromKvBytesError {
    /// The line with this number, counted from 0, is not UTF-8.
    LinesReadFailed(usize),
}

impl EnvironmentVariables {
    /// No name has two entries.
    #[verifier::type_invariant]
    spec fn unique(&self) -> bool {
        distinct_names(self.entries@)
    }

    /// Where the entry called `name` stands, if there is one.
    fn find(&self, name: &str) -> (r: Option<usize>)
        ensures
            r is Some <==> self@.contains_key(name@),
            r matches Some(i) ==> i < self.entries@.len() && self.entries@[i as int].0@ == name@
                && self.entries@[i as int].1@ == self@[name@],
    {
        proof {
            use_type_invariant(self);
        }
        find_entry(&self.entries, name)
    }

    /// The value of the variable called `name`, if it is set.
    pub fn get(&self, name: &str) -> (r: Option<&String>)
        ensures
            r is Some <==> self@.contains_key(name@),
            r matches Some(v) ==> v@ == self@[name@],
    {
        match self.find(name) {
            Some(i) => Some(&self.entries[i].1),
            None => None,
        }
    }

    /// Whether the variable called `name` is set.
    pub fn contains_key(&self, name: &str) -> (r: bool)
        ensures
            r == self@.contains_key(name@),
    {
        self.find(name).is_some()
    }

    /// The number of variables.
    pub fn len(&self) -> (r: usize)
        ensures
            self@.dom().finite(),
            r == self@.dom().len(),
    {
        proof {
            use_type_invariant(self);
            lemma_entries_map_values(self.entries@);
        }
        self.entries.len()
    }

    /// Whether no variable is set.
    pub fn is_empty(&self) -> (r: bool)
        ensures
            r == (self@ == Map::<Seq<char>, Seq<char>>::empty()),
    {
        proof {
            use_type_invariant(self);
            lemma_entries_map_values(self.entries@);
            if self.entries@.len() == 0 {
                assert(self@ =~= Map::<Seq<char>, Seq<char>>::empty());
            } else {
                assert(self@.contains_key(self.entries@[0].0@)) by {
                    lemma_entries_map_names(self.entries@, self.entries@[0].0@);
                }
            }
        }
        self.entries.len() == 0
    }

    /// The variables as pairs of name and value, each name once.
    pub fn to_vec(&self) -> (r: Vec<(String, String)>)
        ensures
            entries_map(r@) == self@,
            distinct_names(r@),
    {
        proof {
            use_type_invariant(self);
        }
        let mut out: Vec<(String, String)> = Vec::new();
        let mut i: usize = 0;
        while i < self.entries.len()
            invariant
                i <= self.entries@.len(),
                out@.len() == i,
                forall|j: int|
                    0 <= j < i ==> (#[trigger] self.entries@[j]).0@ == out@[j].0@
                        && self.entries@[j].1@ == out@[j].1@,
            decreases self.entries.len() - i,
        {
            out.push((self.entries[i].0.clone(), self.entries[i].1.clone()));
            i += 1;
        }
        proof {
            lemma_entries_map_same(self.entries@, out@);
        }
        out
    }

    /// The variables that the lines `lines` set.
    pub fn from_lines(lines: &Vec<String>) -> (r: EnvironmentVariables)
        ensures
            r@ == variables_of(line_views(lines@)),
    {
        let ghost texts = line_views(lines@);
        let mut entries: Vec<(String, String)> = Vec::new();
        let mut i: usize = 0;
        proof {
            assert(texts.take(0) =~= Seq::<Seq<char>>::empty());
        }
        while i < lines.len()
            invariant
                i <= lines@.len(),
                texts == line_views(lines@),
                distinct_names(entries@),
                entries_map(entries@) == variables_of(texts.take(i as int)),
            decreases lines.len() - i,
        {
            let (name, value) = split_first(lines[i].as_str(), "=");
            proof {
                assert(texts.take(i + 1).drop_last() =~= texts.take(i as int));
                assert(texts.take(i + 1).last() == lines@[i as int]@);
            }
            set_entry(&mut entries, name, value);
            i += 1;
        }
        proof {
            assert(texts.take(lines@.len() as int) =~= texts);
        }
        EnvironmentVariables { entries }
    }

    /// Decodes the output of `show env`. Every line sets a variable: the name
    /// is what stands before the first `=`, the value what stands after it.
    /// Only a line that is not UTF-8 makes the decoding fail.
    pub fn from_kv_bytes(bytes: &[u8]) -> (r: Result<
        EnvironmentVariables,
        EnvironmentVariablesFromKvBytesError,
    >)
        ensures
            match r {
                Ok(vars) => decoded_lines(bytes@) is Ok && vars@ == variables_of(
                    decoded_lines(bytes@)->Ok_0,
                ),
                Err(EnvironmentVariablesFromKvBytesError::LinesReadFailed(i)) => decoded_lines(
                    bytes@,
                ) == Err::<Seq<Seq<char>>, int>(i as int),
            },
    {
        match read_lines(bytes) {
            Ok(lines) => Ok(EnvironmentVariables::from_lines(&lines)),
            Err(i) => Err(EnvironmentVariablesFromKvBytesError::LinesReadFailed(i)),
        }
    }
}

impl Clone for EnvironmentVariables {
    fn clone(&self) -> (r: Self)
        ensures
            r@ == self@,
    {
        EnvironmentVariables { entries: self.to_vec() }
    }
}

} // verus!
