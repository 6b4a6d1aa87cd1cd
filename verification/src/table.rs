//! The table shown by the list screens: rows of text cells, a
//! case-insensitive filter, a cursor over the visible rows, and marks.

use vstd::prelude::*;

use crate::text::{contains, contains_seq, lowercase, str_eq, strs, unicode_lower};

verus! {

/// A table of text rows with a filter, a cursor and (when enabled) marks.
#[derive(Debug)]
pub struct TableView {
    pub title: String,
    pub headers: Vec<String>,
    pub rows: Vec<Vec<String>>,
    /// Cursor position among the visible rows.
    pub selected: Option<usize>,
    pub filter: String,
    /// Whether rows can be marked.
    pub multi_select: bool,
    /// First-column values of the marked rows, in marking order.
    pub marked: Vec<String>,
}

/// Some cell of the row contains the filter, both in lower case.
pub open spec fn row_matches(row: Seq<String>, filter: Seq<char>) -> bool {
    exists|c: int| 0 <= c < row.len() && contains_seq(unicode_lower(#[trigger] row[c]@), unicode_lower(filter))
}

/// Indices of the rows among the first `n` that the filter lets through
/// (all of them when the filter is empty), in order.
pub open spec fn visible_upto(rows: Seq<Vec<String>>, filter: Seq<char>, n: int) -> Seq<int>
    decreases n,
{
    if n <= 0 {
        Seq::empty()
    } else {
        let rest = visible_upto(rows, filter, n - 1);
        if filter.len() == 0 || row_matches(rows[n - 1]@, filter) {
            rest.push(n - 1)
        } else {
            rest
        }
    }
}

/// Indices of the visible rows.
pub open spec fn visible(rows: Seq<Vec<String>>, filter: Seq<char>) -> Seq<int> {
    visible_upto(rows, filter, rows.len() as int)
}

proof fn lemma_visible_upto_exact(rows: Seq<Vec<String>>, filter: Seq<char>, n: int)
    requires
        0 <= n <= rows.len(),
    ensures
        forall|k: int| 0 <= k < visible_upto(rows, filter, n).len() ==> 0 <= #[trigger] visible_upto(rows, filter, n)[k] < n
            && (filter.len() == 0 || row_matches(rows[visible_upto(rows, filter, n)[k]]@, filter)),
        forall|a: int, b: int| 0 <= a < b < visible_upto(rows, filter, n).len()
            ==> #[trigger] visible_upto(rows, filter, n)[a] < #[trigger] visible_upto(rows, filter, n)[b],
        forall|i: int| 0 <= i < n && (filter.len() == 0 || row_matches(rows[i]@, filter))
            ==> #[trigger] visible_upto(rows, filter, n).contains(i),
    decreases n,
{
    if n > 0 {
        lemma_visible_upto_exact(rows, filter, n - 1);
        let r = visible_upto(rows, filter, n - 1);
        let v = visible_upto(rows, filter, n);
        assert forall|k: int| 0 <= k < r.len() implies #[trigger] v[k] == r[k] by {}
        assert forall|i: int| 0 <= i < n && (filter.len() == 0 || row_matches(rows[i]@, filter))
            implies #[trigger] v.contains(i) by {
            if i < n - 1 {
                assert(r.contains(i));
                let k = choose|k: int| 0 <= k < r.len() && r[k] == i;
                assert(v[k] == i);
            } else {
                assert(v[v.len() - 1] == i);
            }
        }
    }
}

/// The filter shows exactly the rows it matches, in their order: each
/// shown index is a row that matches (any row, for an empty filter), the
/// indices ascend, and no matching row is left out.
pub proof fn law_visible_are_the_matching_rows(rows: Seq<Vec<String>>, filter: Seq<char>)
    ensures
        forall|k: int| 0 <= k < visible(rows, filter).len() ==> 0 <= #[trigger] visible(rows, filter)[k] < rows.len()
            && (filter.len() == 0 || row_matches(rows[visible(rows, filter)[k]]@, filter)),
        forall|a: int, b: int| 0 <= a < b < visible(rows, filter).len()
            ==> #[trigger] visible(rows, filter)[a] < #[trigger] visible(rows, filter)[b],
        forall|i: int| 0 <= i < rows.len() && (filter.len() == 0 || row_matches(rows[i]@, filter))
            ==> #[trigger] visible(rows, filter).contains(i),
{
    lemma_visible_upto_exact(rows, filter, rows.len() as int);
}

proof fn lemma_visible_bounds(rows: Seq<Vec<String>>, filter: Seq<char>, n: int)
    requires
        0 <= n <= rows.len(),
    ensures
        visible_upto(rows, filter, n).len() <= n,
        forall|k: int| 0 <= k < visible_upto(rows, filter, n).len() ==> 0 <= #[trigger] visible_upto(rows, filter, n)[k] < n,
    decreases n,
{
    if n > 0 {
        lemma_visible_bounds(rows, filter, n - 1);
    }
}

fn cell_matches(row: &Vec<String>, needle: &str) -> (r: bool)
    ensures
        r == exists|c: int| 0 <= c < row@.len() && contains_seq(unicode_lower(#[trigger] row@[c]@), needle@),
{
    let mut i: usize = 0;
    while i < row.len()
        invariant
            i <= row@.len(),
            forall|c: int| 0 <= c < i ==> !contains_seq(unicode_lower(#[trigger] row@[c]@), needle@),
        decreases row.len() - i,
    {
        let lc = lowercase(row[i].as_str());
        if contains(lc.as_str(), needle) {
            return true;
        }
        i = i + 1;
    }
    false
}

/// `s` without the occurrences of `k`.
pub open spec fn without(s: Seq<Seq<char>>, k: Seq<char>) -> Seq<Seq<char>>
    decreases s.len(),
{
    if s.len() == 0 {
        s
    } else if s.last() == k {
        without(s.drop_last(), k)
    } else {
        without(s.drop_last(), k).push(s.last())
    }
}

proof fn lemma_without_absent(s: Seq<Seq<char>>, k: Seq<char>)
    requires
        !s.contains(k),
    ensures
        without(s, k) == s,
    decreases s.len(),
{
    if s.len() > 0 {
        assert(!s.drop_last().contains(k)) by {
            if s.drop_last().contains(k) {
                let i = choose|i: int| 0 <= i < s.drop_last().len() && s.drop_last()[i] == k;
                assert(s[i] == k);
            }
        }
        lemma_without_absent(s.drop_last(), k);
        assert(s.last() != k) by {
            assert(s[s.len() - 1] == s.last());
        }
        assert(s.drop_last().push(s.last()) =~= s);
    }
}

/// Marking a row and marking it again leaves the marks as they were.
pub proof fn law_mark_twice_restores(marks: Seq<Seq<char>>, k: Seq<char>)
    requires
        !marks.contains(k),
    ensures
        marks.push(k).contains(k),
        without(marks.push(k), k) == marks,
{
    assert(marks.push(k)[marks.len() as int] == k);
    assert(marks.push(k).drop_last() =~= marks);
    lemma_without_absent(marks, k);
}

/// `b` is table `a` with the mark of the row under the cursor flipped:
/// its first cell joins the marks, or leaves them when it was marked. A
/// table without marks, or a cursor on no row, changes nothing.
pub open spec fn mark_flipped(a: TableView, b: TableView) -> bool {
    &&& b == (TableView { marked: b.marked, ..a })
    &&& !a.multi_select || a.current_key() is None ==> b.marked == a.marked
    &&& a.multi_select && a.current_key() is Some ==> {
        let k = a.current_key()->0;
        if strs(a.marked@).contains(k) {
            strs(b.marked@) == without(strs(a.marked@), k)
        } else {
            strs(b.marked@) == strs(a.marked@).push(k)
        }
    }
}

/// Table `t` showing `rows` instead: the cursor goes to the first row when
/// it had none and some row is visible.
pub open spec fn with_rows(t: TableView, rows: Vec<Vec<String>>) -> TableView {
    TableView {
        rows,
        selected: if t.selected is None && visible(rows@, t.filter@).len() > 0 { Some(0usize) } else { t.selected },
        ..t
    }
}

impl TableView {
    /// The visible rows' indices.
    pub open spec fn visible_rows(&self) -> Seq<int> {
        visible(self.rows@, self.filter@)
    }

    /// The row under the cursor, if the cursor is on a visible row.
    pub open spec fn selected_row_index(&self) -> Option<int> {
        match self.selected {
            Some(s) => if s < self.visible_rows().len() { Some(self.visible_rows()[s as int]) } else { None },
            None => None,
        }
    }

    /// An empty table with the cursor on the first row.
    pub fn new(title: String, headers: Vec<String>) -> (r: TableView)
        ensures
            r.title == title,
            r.headers == headers,
            r.rows@.len() == 0,
            r.selected == Some(0usize),
            r.filter@.len() == 0,
            !r.multi_select,
            r.marked@.len() == 0,
    {
        TableView {
            title,
            headers,
            rows: Vec::new(),
            selected: Some(0),
            filter: String::new(),
            multi_select: false,
            marked: Vec::new(),
        }
    }

    /// The same table, with marking enabled.
    pub fn enable_multi_select(self) -> (r: TableView)
        ensures
            r == (TableView { multi_select: true, ..self }),
    {
        let mut t = self;
        t.multi_select = true;
        t
    }

    /// The visible rows' indices, in order.
    pub fn filtered_rows(&self) -> (r: Vec<usize>)
        ensures
            r@.len() == self.visible_rows().len(),
            forall|k: int| 0 <= k < r@.len() ==> r@[k] as int == #[trigger] self.visible_rows()[k],
    {
        let needle = lowercase(self.filter.as_str());
        let empty = self.filter.unicode_len() == 0;
        let mut out: Vec<usize> = Vec::new();
        let mut i: usize = 0;
        while i < self.rows.len()
            invariant
                i <= self.rows@.len(),
                needle@ == unicode_lower(self.filter@),
                empty == (self.filter@.len() == 0),
                out@.len() == visible_upto(self.rows@, self.filter@, i as int).len(),
                forall|k: int| 0 <= k < out@.len() ==> out@[k] as int == #[trigger] visible_upto(self.rows@, self.filter@, i as int)[k],
            decreases self.rows.len() - i,
        {
            let keep = if empty { true } else { cell_matches(&self.rows[i], needle.as_str()) };
            if keep {
                out.push(i);
            }
            i = i + 1;
        }
        out
    }

    /// The cursor, if it is on a visible row.
    pub fn selected_index(&self) -> (r: Option<usize>)
        ensures
            r == match self.selected {
                Some(s) => if s < self.visible_rows().len() { Some(s) } else { None::<usize> },
                None => None::<usize>,
            },
    {
        let sel = match self.selected {
            Some(s) => s,
            None => return None,
        };
        let rows = self.filtered_rows();
        if sel < rows.len() { Some(sel) } else { None }
    }

    /// The row under the cursor.
    pub fn selected_row(&self) -> (r: Option<&Vec<String>>)
        ensures
            match self.selected_row_index() {
                Some(i) => r == Some(&self.rows@[i]),
                None => r is None,
            },
    {
        let sel = match self.selected {
            Some(s) => s,
            None => return None,
        };
        let rows = self.filtered_rows();
        if sel < rows.len() {
            proof {
                lemma_visible_bounds(self.rows@, self.filter@, self.rows@.len() as int);
                assert(rows@[sel as int] as int == self.visible_rows()[sel as int]);
            }
            Some(&self.rows[rows[sel]])
        } else {
            None
        }
    }

    /// The cursor as stored.
    pub fn selected(&self) -> (r: Option<usize>)
        ensures
            r == self.selected,
    {
        self.selected
    }

    /// Replaces the rows; the cursor goes to the first row when it had none
    /// and some row is visible.
    pub fn set_rows(&mut self, rows: Vec<Vec<String>>)
        ensures
            *final(self) == with_rows(*old(self), rows),
            final(self).rows == rows,
            final(self).selected == if old(self).selected is None && visible(rows@, old(self).filter@).len() > 0 {
                Some(0usize)
            } else {
                old(self).selected
            },
            final(self).title == old(self).title,
            final(self).headers == old(self).headers,
            final(self).filter == old(self).filter,
            final(self).multi_select == old(self).multi_select,
            final(self).marked == old(self).marked,
    {
        self.rows = rows;
        if self.selected.is_none() {
            let v = self.filtered_rows();
            if v.len() > 0 {
                self.selected = Some(0);
            }
        }
    }

    /// Moves the cursor down, stopping at the last visible row.
    pub fn next(&mut self)
        ensures
            final(self).rows == old(self).rows,
            final(self).filter == old(self).filter,
            final(self).title == old(self).title,
            final(self).marked == old(self).marked,
            final(self).multi_select == old(self).multi_select,
            final(self).headers == old(self).headers,
            final(self).selected == if old(self).visible_rows().len() == 0 { old(self).selected } else {
                match old(self).selected {
                    Some(i) => Some((if i + 1 < old(self).visible_rows().len() { i + 1 } else { old(self).visible_rows().len() - 1 }) as usize),
                    None => Some(0usize),
                }
            },
    {
        let len = self.filtered_rows().len();
        if len == 0 {
            return;
        }
        let i = match self.selected {
            Some(i) => if i < len - 1 { i + 1 } else { len - 1 },
            None => 0,
        };
        self.selected = Some(i);
    }

    /// Moves the cursor up, stopping at the first row.
    pub fn prev(&mut self)
        ensures
            final(self).rows == old(self).rows,
            final(self).filter == old(self).filter,
            final(self).title == old(self).title,
            final(self).marked == old(self).marked,
            final(self).multi_select == old(self).multi_select,
            final(self).headers == old(self).headers,
            final(self).selected == if old(self).visible_rows().len() == 0 { old(self).selected } else {
                match old(self).selected {
                    Some(i) => Some((if i > 0 { i - 1 } else { 0 }) as usize),
                    None => Some(0usize),
                }
            },
    {
        let len = self.filtered_rows().len();
        if len == 0 {
            return;
        }
        let i = match self.selected {
            Some(i) => if i > 0 { i - 1 } else { 0 },
            None => 0,
        };
        self.selected = Some(i);
    }

    /// The first cell of the row under the cursor.
    pub open spec fn current_key(&self) -> Option<Seq<char>> {
        match self.selected_row_index() {
            Some(i) => if self.rows@[i]@.len() > 0 { Some(self.rows@[i]@[0]@) } else { None },
            None => None,
        }
    }

    fn current_first(&self) -> (r: Option<String>)
        ensures
            match r {
                Some(k) => self.current_key() == Some(k@),
                None => self.current_key() is None,
            },
    {
        match self.selected_row() {
            Some(row) => {
                if row.len() > 0 {
                    Some(row[0].clone())
                } else {
                    None
                }
            },
            None => None,
        }
    }

    /// How many rows are marked.
    pub fn marked_count(&self) -> (r: usize)
        ensures
            r == self.marked@.len(),
    {
        self.marked.len()
    }

    /// Marks the row under the cursor, or unmarks it when it is marked
    /// (only when marking is enabled).
    pub fn toggle_mark(&mut self)
        ensures
            mark_flipped(*old(self), *final(self)),
            final(self).rows == old(self).rows,
            final(self).selected == old(self).selected,
            final(self).filter == old(self).filter,
            final(self).title == old(self).title,
            final(self).multi_select == old(self).multi_select,
            final(self).headers == old(self).headers,
            !old(self).multi_select || old(self).current_key() is None ==> final(self).marked == old(self).marked,
            old(self).multi_select && old(self).current_key() is Some ==> {
                let k = old(self).current_key()->0;
                if strs(old(self).marked@).contains(k) {
                    strs(final(self).marked@) == without(strs(old(self).marked@), k)
                } else {
                    strs(final(self).marked@) == strs(old(self).marked@).push(k)
                }
            },
    {
        if !self.multi_select {
            return;
        }
        let key = match self.current_first() {
            Some(k) => k,
            None => return,
        };
        let ghost before = strs(self.marked@);
        let mut kept: Vec<String> = Vec::new();
        let mut found = false;
        let mut i: usize = 0;
        while i < self.marked.len()
            invariant
                i <= self.marked@.len(),
                before == strs(self.marked@),
                strs(kept@) == without(before.subrange(0, i as int), key@),
                found == before.subrange(0, i as int).contains(key@),
            decreases self.marked.len() - i,
        {
            let ghost pre = before.subrange(0, i as int);
            assert(before.subrange(0, i + 1) =~= pre.push(before[i as int]));
            assert(pre.push(before[i as int]).drop_last() =~= pre);
            if str_eq(self.marked[i].as_str(), key.as_str()) {
                found = true;
            } else {
                kept.push(self.marked[i].clone());
                assert(strs(kept@) =~= without(pre, key@).push(before[i as int]));
            }
            proof {
                if !(before[i as int] == key@) {
                    assert(pre.contains(key@) ==> before.subrange(0, i + 1).contains(key@)) by {
                        if pre.contains(key@) {
                            let j = choose|j: int| 0 <= j < pre.len() && pre[j] == key@;
                            assert(before.subrange(0, i + 1)[j] == key@);
                        }
                    }
                    let ghost nxt = before.subrange(0, i + 1);
                    assert(nxt.contains(key@) ==> pre.contains(key@)) by {
                        if nxt.contains(key@) {
                            let j = choose|j: int| 0 <= j < nxt.len() && nxt[j] == key@;
                            assert(j < i);
                            assert(pre[j] == key@);
                        }
                    }
                } else {
                    assert(before.subrange(0, i + 1)[i as int] == key@);
                }
            }
            i = i + 1;
        }
        assert(before.subrange(0, i as int) =~= before);
        if found {
            self.marked = kept;
        } else {
            self.marked.push(key);
            assert(strs(self.marked@) =~= before.push(old(self).current_key()->0));
        }
    }

    /// Unmarks every row.
    pub fn clear_marks(&mut self)
        ensures
            *final(self) == (TableView { marked: final(self).marked, ..*old(self) }),
            final(self).marked@.len() == 0,
    {
        self.marked = Vec::new();
    }

    /// The marked rows' first cells, or else the first cell of the row under
    /// the cursor.
    pub fn marked_or_current_first_col(&self) -> (r: Vec<String>)
        ensures
            self.marked@.len() > 0 ==> strs(r@) == strs(self.marked@),
            self.marked@.len() == 0 ==> strs(r@) == match self.current_key() {
                Some(k) => seq![k],
                None => Seq::<Seq<char>>::empty(),
            },
    {
        if self.marked.len() > 0 {
            let mut out: Vec<String> = Vec::new();
            let mut i: usize = 0;
            while i < self.marked.len()
                invariant
                    i <= self.marked@.len(),
                    strs(out@) == strs(self.marked@).subrange(0, i as int),
                decreases self.marked.len() - i,
            {
                let ghost pre = strs(out@);
                out.push(self.marked[i].clone());
                assert(strs(out@) =~= pre.push(self.marked@[i as int]@));
                i = i + 1;
                assert(strs(out@) =~= strs(self.marked@).subrange(0, i as int));
            }
            assert(strs(self.marked@).subrange(0, i as int) =~= strs(self.marked@));
            out
        } else {
            let mut out: Vec<String> = Vec::new();
            match self.current_first() {
                Some(k) => {
                    out.push(k);
                    assert(strs(out@) =~= seq![self.current_key()->0]);
                },
                None => {
                    assert(strs(out@) =~= Seq::<Seq<char>>::empty());
                },
            }
            out
        }
    }
}

} // verus!
