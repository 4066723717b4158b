//! Sort directions and the multi-column sort state.

use vstd::prelude::*;

verus! {

/// Key of a column: its position among the columns of the record.
pub type ColumnKey = usize;

/// Type of sorting of a column.
#[derive(Copy, Clone, Debug, PartialEq, Eq, Structural)]
pub enum ColumnSort {
    Ascending,
    Descending,
    Unsorted,
}

impl ColumnSort {
    /// The class name of this direction as a sequence of characters.
    pub open spec fn class_name(self) -> Seq<char> {
        match self {
            ColumnSort::Ascending => "sort-asc"@,
            ColumnSort::Descending => "sort-desc"@,
            ColumnSort::Unsorted => ""@,
        }
    }

    /// The direction that a click on the column's header leads to:
    /// unsorted, then ascending, then descending, then unsorted again.
    pub open spec fn next(self) -> ColumnSort {
        match self {
            ColumnSort::Unsorted => ColumnSort::Ascending,
            ColumnSort::Ascending => ColumnSort::Descending,
            ColumnSort::Descending => ColumnSort::Unsorted,
        }
    }

    /// Returns the default class name.
    pub fn as_class(&self) -> (class: &'static str)
        ensures
            class@ == self.class_name(),
    {
        match self {
            ColumnSort::Ascending => "sort-asc",
            ColumnSort::Descending => "sort-desc",
            _ => "",
        }
    }

    /// Returns the SQL sort order (ASC or DESC) or `None` if the column is unsorted.
    pub fn as_sql(&self) -> (order: Option<&'static str>)
        ensures
            *self == ColumnSort::Ascending ==> order.is_some() && order.unwrap()@ == "ASC"@,
            *self == ColumnSort::Descending ==> order.is_some() && order.unwrap()@ == "DESC"@,
            *self == ColumnSort::Unsorted ==> order.is_none(),
    {
        match self {
            ColumnSort::Ascending => Some("ASC"),
            ColumnSort::Descending => Some("DESC"),
            _ => None,
        }
    }

    /// The direction that follows this one in the click cycle.
    pub fn cycled(&self) -> (d: ColumnSort)
        ensures
            d == self.next(),
    {
        match self {
            ColumnSort::Unsorted => ColumnSort::Ascending,
            ColumnSort::Ascending => ColumnSort::Descending,
            ColumnSort::Descending => ColumnSort::Unsorted,
        }
    }
}

/// Whether the entries are those of a sort state: no column occurs twice, and every
/// entry has a direction.
pub open spec fn well_formed(s: Seq<(ColumnKey, ColumnSort)>) -> bool {
    &&& forall|i: int, j: int| 0 <= i < j < s.len() ==> s[i].0 != s[j].0
    &&& forall|i: int| 0 <= i < s.len() ==> (#[trigger] s[i]).1 != ColumnSort::Unsorted
}

/// Whether the entries sort by `column`.
pub open spec fn sorts_by(s: Seq<(ColumnKey, ColumnSort)>, column: ColumnKey) -> bool {
    exists|i: int| 0 <= i < s.len() && (#[trigger] s[i]).0 == column
}

/// The priority of `column` among the entries, zero being the highest.
pub open spec fn priority_in(s: Seq<(ColumnKey, ColumnSort)>, column: ColumnKey) -> int {
    choose|i: int| 0 <= i < s.len() && (#[trigger] s[i]).0 == column
}

/// The direction in which the entries sort `column`.
pub open spec fn direction_in(s: Seq<(ColumnKey, ColumnSort)>, column: ColumnKey) -> ColumnSort {
    if sorts_by(s, column) {
        s[priority_in(s, column)].1
    } else {
        ColumnSort::Unsorted
    }
}

/// The entries after a click on `column` in single-column mode: the column moves one
/// step along its cycle, and every other column is cleared.
pub open spec fn toggled(s: Seq<(ColumnKey, ColumnSort)>, column: ColumnKey) -> Seq<
    (ColumnKey, ColumnSort),
> {
    match direction_in(s, column).next() {
        ColumnSort::Unsorted => Seq::empty(),
        d => seq![(column, d)],
    }
}

/// The entries after a click on `column` in multi-column mode: a new column is appended
/// with the lowest priority, a sorted column is updated in place, and a column that leaves
/// the cycle is removed, so that the columns behind it move up.
pub open spec fn toggled_multi(s: Seq<(ColumnKey, ColumnSort)>, column: ColumnKey) -> Seq<
    (ColumnKey, ColumnSort),
> {
    if sorts_by(s, column) {
        let i = priority_in(s, column);
        match s[i].1.next() {
            ColumnSort::Unsorted => s.remove(i),
            d => s.update(i, (column, d)),
        }
    } else {
        s.push((column, ColumnSort::Ascending))
    }
}

/// In well-formed entries a column has one place only.
pub proof fn lemma_priority_unique(s: Seq<(ColumnKey, ColumnSort)>, column: ColumnKey, i: int)
    requires
        well_formed(s),
        0 <= i < s.len(),
        s[i].0 == column,
    ensures
        sorts_by(s, column),
        priority_in(s, column) == i,
        direction_in(s, column) == s[i].1,
{
}

/// A click keeps the entries well formed.
pub proof fn lemma_toggle_keeps_well_formed(s: Seq<(ColumnKey, ColumnSort)>, column: ColumnKey)
    requires
        well_formed(s),
    ensures
        well_formed(toggled(s, column)),
        well_formed(toggled_multi(s, column)),
{
    if sorts_by(s, column) {
        let i = priority_in(s, column);
        assert(s[i].0 == column);
    }
}

/// A click moves the clicked column one step along its cycle, in either mode; in
/// multi-column mode every other column keeps its direction.
pub proof fn lemma_toggle_cycles(s: Seq<(ColumnKey, ColumnSort)>, column: ColumnKey)
    requires
        well_formed(s),
    ensures
        direction_in(toggled(s, column), column) == direction_in(s, column).next(),
        direction_in(toggled_multi(s, column), column) == direction_in(s, column).next(),
        forall|other: ColumnKey|
            other != column ==> direction_in(toggled(s, column), other) == ColumnSort::Unsorted,
        forall|other: ColumnKey|
            other != column ==> direction_in(toggled_multi(s, column), other) == direction_in(
                s,
                other,
            ),
{
    lemma_toggle_keeps_well_formed(s, column);
    let t = toggled(s, column);
    let m = toggled_multi(s, column);
    if direction_in(s, column).next() != ColumnSort::Unsorted {
        lemma_priority_unique(t, column, 0);
    }
    if sorts_by(s, column) {
        let i = priority_in(s, column);
        if s[i].1.next() == ColumnSort::Unsorted {
            if sorts_by(m, column) {
                let p = priority_in(m, column);
                let shifted = if p < i { p } else { p + 1 };
                lemma_priority_unique(s, column, shifted);
            }
            assert forall|other: ColumnKey| other != column implies direction_in(m, other)
                == direction_in(s, other) by {
                if sorts_by(s, other) {
                    let q = priority_in(s, other);
                    let q1 = if q < i { q } else { q - 1 };
                    lemma_priority_unique(m, other, q1);
                }
            }
        } else {
            lemma_priority_unique(m, column, i);
            assert forall|other: ColumnKey| other != column implies direction_in(m, other)
                == direction_in(s, other) by {
                if sorts_by(s, other) {
                    let q = priority_in(s, other);
                    lemma_priority_unique(m, other, q);
                }
            }
        }
    } else {
        let n = s.len() as int;
        lemma_priority_unique(m, column, n);
        assert forall|other: ColumnKey| other != column implies direction_in(m, other)
            == direction_in(s, other) by {
            if sorts_by(s, other) {
                let q = priority_in(s, other);
                lemma_priority_unique(m, other, q);
            }
        }
    }
}

/// A click always changes the entries, in either mode.
pub proof fn lemma_toggle_changes_content(s: Seq<(ColumnKey, ColumnSort)>, column: ColumnKey)
    requires
        well_formed(s),
    ensures
        toggled(s, column) != s,
        toggled_multi(s, column) != s,
{
    lemma_toggle_cycles(s, column);
}

/// An ordered sequence of columns with their directions.  Earlier entries bind more
/// strongly; later ones break ties.  The empty state stands for the order that the
/// store defines.
#[derive(Debug)]
pub struct SortState {
    entries: Vec<(ColumnKey, ColumnSort)>,
}

impl View for SortState {
    type V = Seq<(ColumnKey, ColumnSort)>;

    closed spec fn view(&self) -> Seq<(ColumnKey, ColumnSort)> {
        self.entries@
    }
}

impl SortState {
    /// No column occurs twice, and every entry has a direction.
    pub open spec fn wf(&self) -> bool {
        well_formed(self@)
    }

    /// The empty state.
    pub fn new() -> (s: SortState)
        ensures
            s.wf(),
            s@ == Seq::<(ColumnKey, ColumnSort)>::empty(),
    {
        SortState { entries: Vec::new() }
    }

    /// The number of columns sorted by.
    pub fn len(&self) -> (n: usize)
        ensures
            n == self@.len(),
    {
        self.entries.len()
    }

    /// The entry of the given priority, zero being the highest.
    pub fn entry(&self, priority: usize) -> (e: Option<(ColumnKey, ColumnSort)>)
        ensures
            priority < self@.len() ==> e == Some(self@[priority as int]),
            priority >= self@.len() ==> e.is_none(),
    {
        if priority < self.entries.len() {
            Some(self.entries[priority])
        } else {
            None
        }
    }

    /// The priority of `column`, if the state sorts by it.
    pub fn priority_of(&self, column: ColumnKey) -> (p: Option<usize>)
        requires
            self.wf(),
        ensures
            p.is_some() == sorts_by(self@, column),
            p.is_some() ==> p.unwrap() == priority_in(self@, column),
    {
        let mut i: usize = 0;
        while i < self.entries.len()
            invariant
                i <= self.entries.len(),
                self.wf(),
                forall|k: int| 0 <= k < i ==> (#[trigger] self@[k]).0 != column,
            decreases self.entries.len() - i,
        {
            if self.entries[i].0 == column {
                proof {
                    lemma_priority_unique(self@, column, i as int);
                }
                return Some(i);
            }
            i = i + 1;
        }
        None
    }

    /// The direction in which the state sorts `column`.
    pub fn direction_of(&self, column: ColumnKey) -> (d: ColumnSort)
        requires
            self.wf(),
        ensures
            d == direction_in(self@, column),
    {
        match self.priority_of(column) {
            Some(i) => self.entries[i].1,
            None => ColumnSort::Unsorted,
        }
    }

    /// Whether both states hold the same entries in the same order.
    pub fn same_as(&self, other: &SortState) -> (same: bool)
        ensures
            same == (self@ == other@),
    {
        if self.entries.len() != other.entries.len() {
            return false;
        }
        let mut i: usize = 0;
        while i < self.entries.len()
            invariant
                i <= self.entries.len(),
                self.entries.len() == other.entries.len(),
                forall|k: int| 0 <= k < i ==> self@[k] == other@[k],
            decreases self.entries.len() - i,
        {
            let a = self.entries[i];
            let b = other.entries[i];
            if a.0 != b.0 || a.1 != b.1 {
                return false;
            }
            i = i + 1;
        }
        assert(self@ =~= other@);
        true
    }

    /// A copy of the state.
    pub fn duplicate(&self) -> (s: SortState)
        ensures
            s@ == self@,
    {
        let mut entries: Vec<(ColumnKey, ColumnSort)> = Vec::new();
        let mut i: usize = 0;
        while i < self.entries.len()
            invariant
                i <= self.entries.len(),
                entries@ == self@.subrange(0, i as int),
            decreases self.entries.len() - i,
        {
            entries.push(self.entries[i]);
            i = i + 1;
        }
        SortState { entries }
    }

    /// The state after a click on `column` in single-column mode: the column is sorted
    /// ascending if it was unsorted, descending if it was ascending, and not at all if
    /// it was descending; every other column is cleared.
    pub fn toggle(&self, column: ColumnKey) -> (s: SortState)
        requires
            self.wf(),
        ensures
            s.wf(),
            s@ == toggled(self@, column),
            s@ != self@,
    {
        proof {
            lemma_toggle_keeps_well_formed(self@, column);
            lemma_toggle_changes_content(self@, column);
        }
        let mut entries: Vec<(ColumnKey, ColumnSort)> = Vec::new();
        match self.direction_of(column).cycled() {
            ColumnSort::Unsorted => {},
            d => {
                entries.push((column, d));
            },
        }
        SortState { entries }
    }

    /// The state after a click on `column` in multi-column mode: an unsorted column is
    /// appended ascending with the lowest priority, an ascending column becomes
    /// descending in place, and a descending column is removed, so that the columns
    /// behind it move up.  No other column changes.
    pub fn toggle_multi(&self, column: ColumnKey) -> (s: SortState)
        requires
            self.wf(),
        ensures
            s.wf(),
            s@ == toggled_multi(self@, column),
            s@ != self@,
    {
        proof {
            lemma_toggle_keeps_well_formed(self@, column);
            lemma_toggle_changes_content(self@, column);
        }
        let place = self.priority_of(column);
        let mut entries: Vec<(ColumnKey, ColumnSort)> = Vec::new();
        match place {
            None => {
                let copy = self.duplicate();
                entries = copy.entries;
                entries.push((column, ColumnSort::Ascending));
            },
            Some(p) => {
                let d = self.entries[p].1.cycled();
                let mut i: usize = 0;
                while i < self.entries.len()
                    invariant
                        i <= self.entries.len(),
                        p < self.entries.len(),
                        d == self@[p as int].1.next(),
                        d == ColumnSort::Unsorted ==> entries@ == if i <= p {
                            self@.subrange(0, i as int)
                        } else {
                            self@.subrange(0, i as int).remove(p as int)
                        },
                        d != ColumnSort::Unsorted ==> entries@ == if i <= p {
                            self@.subrange(0, i as int)
                        } else {
                            self@.subrange(0, i as int).update(p as int, (column, d))
                        },
                    decreases self.entries.len() - i,
                {
                    if i != p {
                        entries.push(self.entries[i]);
                    } else {
                        match d {
                            ColumnSort::Unsorted => {},
                            _ => {
                                entries.push((column, d));
                            },
                        }
                    }
                    i = i + 1;
                }
            },
        }
        SortState { entries }
    }
}

} // verus!
