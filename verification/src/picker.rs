//! A list that is searched as one types: which of its items are shown, in what
//! order, under which headings, and which one is selected.

use vstd::prelude::*;

use crate::ranking::sort_results;
use crate::text::same;

verus! {

/// A heading, and which items go under it.
#[derive(Debug)]
pub struct Category {
    pub name: String,
    /// Whether each item, by its position, goes under it.
    pub members: Vec<bool>,
}

/// A [`Category`] as a value.
pub struct CategoryView {
    pub name: Seq<char>,
    pub members: Seq<bool>,
}

/// What a picker tells of the item at a position.
#[derive(Clone, Copy, Debug, PartialEq, Eq, Structural)]
pub enum PickerEvent {
    Picked(usize),
    SecondaryPicked(usize),
}

impl View for Category {
    type V = CategoryView;

    open spec fn view(&self) -> CategoryView {
        CategoryView { name: self.name@, members: self.members@ }
    }
}

/// Categories as values.
pub open spec fn category_views(categories: Seq<Category>) -> Seq<CategoryView> {
    categories.map_values(|c: Category| c@)
}

/// A row of a list with headings.
#[derive(Debug)]
pub enum VisualEntry {
    Header(String),
    /// A match, by its position among the matches.
    Item(usize),
}

/// A [`VisualEntry`] as a value.
pub enum EntryView {
    Header(Seq<char>),
    Item(usize),
}

impl View for VisualEntry {
    type V = EntryView;

    open spec fn view(&self) -> EntryView {
        match self {
            VisualEntry::Header(name) => EntryView::Header(name@),
            VisualEntry::Item(index) => EntryView::Item(*index),
        }
    }
}

/// Rows as values.
pub open spec fn entry_views(entries: Seq<VisualEntry>) -> Seq<EntryView> {
    entries.map_values(|e: VisualEntry| e@)
}

/// A row that can be selected: which match it shows, and which row it is.
#[derive(Clone, Copy, Debug, PartialEq, Eq, Structural)]
pub struct SelectableItem {
    pub match_index: usize,
    pub list_index: usize,
}

/// Whether a match is of an item that there is, and that goes under a heading.
pub open spec fn hit(members: Seq<bool>, result: (usize, u32), count: int) -> bool {
    result.0 < count && result.0 < members.len() && members[result.0 as int]
}

/// The first `n` matches that go under a heading, by position.
pub open spec fn hits(
    members: Seq<bool>,
    matches: Seq<(usize, u32)>,
    count: int,
    n: int,
) -> Seq<usize>
    decreases n,
{
    if n <= 0 {
        Seq::empty()
    } else if hit(members, matches[n - 1], count) {
        hits(members, matches, count, n - 1).push((n - 1) as usize)
    } else {
        hits(members, matches, count, n - 1)
    }
}

/// The rows of one heading: the heading and what goes under it, or nothing if
/// nothing does.
pub open spec fn block(
    category: CategoryView,
    matches: Seq<(usize, u32)>,
    count: int,
) -> Seq<EntryView> {
    let under = hits(category.members, matches, count, matches.len() as int);
    if under.len() == 0 {
        Seq::empty()
    } else {
        seq![EntryView::Header(category.name)] + under.map_values(|m: usize| EntryView::Item(m))
    }
}

/// The rows of the first `n` headings.
pub open spec fn rows(
    categories: Seq<CategoryView>,
    matches: Seq<(usize, u32)>,
    count: int,
    n: int,
) -> Seq<EntryView>
    decreases n,
{
    if n <= 0 {
        Seq::empty()
    } else {
        rows(categories, matches, count, n - 1) + block(categories[n - 1], matches, count)
    }
}

/// The rows among the first `n` that can be selected.
pub open spec fn selectable(entries: Seq<EntryView>, n: int) -> Seq<SelectableItem>
    decreases n,
{
    if n <= 0 {
        Seq::empty()
    } else {
        let before = selectable(entries, n - 1);
        match entries[n - 1] {
            EntryView::Item(match_index) => before.push(
                SelectableItem { match_index, list_index: (n - 1) as usize },
            ),
            EntryView::Header(_) => before,
        }
    }
}

/// The rows that can be selected do not depend on what comes behind them.
proof fn lemma_selectable_prefix(a: Seq<EntryView>, b: Seq<EntryView>, n: int)
    requires
        0 <= n <= a.len(),
        n <= b.len(),
        forall|i: int| 0 <= i < n ==> a[i] == b[i],
    ensures
        selectable(a, n) == selectable(b, n),
    decreases n,
{
    if n > 0 {
        lemma_selectable_prefix(a, b, n - 1);
    }
}

/// Every row that can be selected shows the match it says it does.
pub proof fn law_selectable_rows_show_matches(entries: Seq<EntryView>, n: int, i: int)
    requires
        0 <= n <= entries.len() <= usize::MAX,
        0 <= i < selectable(entries, n).len(),
    ensures
        selectable(entries, n)[i].list_index < n,
        entries[selectable(entries, n)[i].list_index as int] == EntryView::Item(
            selectable(entries, n)[i].match_index,
        ),
    decreases n,
{
    if n > 0 {
        if i < selectable(entries, n - 1).len() {
            law_selectable_rows_show_matches(entries, n - 1, i);
        }
    }
}

/// Lays matches out under headings; see [`rows`] and [`selectable`].
pub fn lay_out(
    categories: &Vec<Category>,
    matches: &Vec<(usize, u32)>,
    count: usize,
) -> (r: (Vec<VisualEntry>, Vec<SelectableItem>))
    ensures
        entry_views(r.0@) == rows(
            category_views(categories@),
            matches@,
            count as int,
            categories@.len() as int,
        ),
        r.1@ == selectable(entry_views(r.0@), r.0@.len() as int),
{
    let ghost cats = category_views(categories@);
    let mut entries: Vec<VisualEntry> = Vec::new();
    let mut items: Vec<SelectableItem> = Vec::new();
    let mut c: usize = 0;
    assert(entry_views(entries@) =~= Seq::<EntryView>::empty());
    while c < categories.len()
        invariant
            c <= categories@.len(),
            cats == category_views(categories@),
            entry_views(entries@) == rows(cats, matches@, count as int, c as int),
            items@ == selectable(entry_views(entries@), entries@.len() as int),
        decreases categories@.len() - c,
    {
        let members = &categories[c].members;
        assert(cats[c as int] == categories@[c as int]@);
        let ghost before = entry_views(entries@);
        let ghost all = hits(members@, matches@, count as int, matches@.len() as int);
        let mut under: Vec<usize> = Vec::new();
        let mut m: usize = 0;
        while m < matches.len()
            invariant
                m <= matches@.len(),
                under@ == hits(members@, matches@, count as int, m as int),
            decreases matches@.len() - m,
        {
            let item: usize = matches[m].0;
            if item < count && item < members.len() && members[item] {
                under.push(m);
            }
            m = m + 1;
        }
        if under.len() > 0 {
            entries.push(VisualEntry::Header(categories[c].name.clone()));
            let ghost head = before.push(EntryView::Header(categories@[c as int].name@));
            assert(entry_views(entries@) =~= head);
            proof {
                lemma_selectable_prefix(before, head, before.len() as int);
            }
            let mut k: usize = 0;
            assert(head + under@.take(0).map_values(|m: usize| EntryView::Item(m)) =~= head);
            while k < under.len()
                invariant
                    k <= under@.len(),
                    entry_views(entries@) == head + under@.take(k as int).map_values(
                        |m: usize| EntryView::Item(m),
                    ),
                    items@ == selectable(entry_views(entries@), entries@.len() as int),
                decreases under@.len() - k,
            {
                let ghost was = entry_views(entries@);
                let list_index: usize = entries.len();
                let match_index: usize = under[k];
                entries.push(VisualEntry::Item(match_index));
                items.push(SelectableItem { match_index, list_index });
                proof {
                    let now = entry_views(entries@);
                    assert(now =~= was.push(EntryView::Item(match_index)));
                    assert(now =~= head + under@.take(k + 1).map_values(
                        |m: usize| EntryView::Item(m),
                    ));
                    lemma_selectable_prefix(was, now, was.len() as int);
                }
                k = k + 1;
            }
            assert(under@.take(under@.len() as int) =~= under@);
            assert(entry_views(entries@) =~= before + block(
                cats[c as int],
                matches@,
                count as int,
            ));
        } else {
            assert(before + block(cats[c as int], matches@, count as int) =~= before);
        }
        c = c + 1;
    }
    (entries, items)
}

/// A part of a list of rows that has to be replaced: the rows from `start` up to
/// `old_end`, by `count` new ones.
#[derive(Clone, Copy, Debug, PartialEq, Eq, Structural)]
pub struct Splice {
    pub start: usize,
    pub old_end: usize,
    pub count: usize,
}

/// The rows that a splice makes of the old ones, given the new ones.
pub open spec fn spliced(old: Seq<EntryView>, new: Seq<EntryView>, splice: Splice) -> Seq<
    EntryView,
> {
    old.take(splice.start as int) + new.subrange(
        splice.start as int,
        splice.start + splice.count,
    ) + old.skip(splice.old_end as int)
}

/// Whether a replacement covers the part in which two lists of rows differ, and no more:
/// it makes the one into the other, it starts at the first row in which they differ, or
/// where one of them ends, and the rows at both of its ends differ.
pub open spec fn is_diff(old: Seq<EntryView>, new: Seq<EntryView>, s: Splice) -> bool {
    &&& s.start <= s.old_end <= old.len()
    &&& s.start + s.count <= new.len()
    &&& spliced(old, new, s) == new
    &&& s.start == old.len() || s.start == new.len() || old[s.start as int]
        != new[s.start as int]
    &&& s.start < s.old_end && s.count > 0 ==> old[s.old_end - 1] != new[s.start + s.count - 1]
    &&& s.start < s.old_end || s.count > 0
}

/// There is only one part in which two lists of rows differ, even where rows repeat, and
/// none where the lists are the same.
pub proof fn law_diffs_are_unique(old: Seq<EntryView>, new: Seq<EntryView>, s: Splice, t: Splice)
    requires
        is_diff(old, new, s),
        is_diff(old, new, t),
    ensures
        s == t,
        old != new,
{
    lemma_diff(old, new, s);
    lemma_diff(old, new, t);
    let n = old.len() as int;
    let m = new.len() as int;
    if s.start < t.start {
        assert(old[s.start as int] == new[s.start as int]);
    }
    if t.start < s.start {
        assert(old[t.start as int] == new[t.start as int]);
    }
    if s.old_end < t.old_end {
        assert(old[t.old_end - 1] == new[t.old_end - 1 + m - n]);
    }
    if t.old_end < s.old_end {
        assert(old[s.old_end - 1] == new[s.old_end - 1 + m - n]);
    }
}

proof fn lemma_diff(old: Seq<EntryView>, new: Seq<EntryView>, s: Splice)
    requires
        is_diff(old, new, s),
    ensures
        new.len() == s.start + s.count + (old.len() - s.old_end),
        forall|i: int| 0 <= i < s.start ==> #[trigger] old[i] == new[i],
        forall|i: int|
            s.old_end <= i < old.len() ==> #[trigger] old[i] == new[i + new.len() - old.len()],
{
    let made = spliced(old, new, s);
    assert forall|i: int| 0 <= i < s.start implies #[trigger] old[i] == new[i] by {
        assert(made[i] == old[i]);
    }
    assert forall|i: int| s.old_end <= i < old.len() implies #[trigger] old[i] == new[i + new.len()
        - old.len()] by {
        assert(made[i + new.len() - old.len()] == old[i]);
    }
}

/// Whether two rows are the same.
fn same_entry(a: &VisualEntry, b: &VisualEntry) -> (r: bool)
    ensures
        r == (a@ == b@),
{
    match (a, b) {
        (VisualEntry::Header(x), VisualEntry::Header(y)) => same(x, y),
        (VisualEntry::Item(x), VisualEntry::Item(y)) => *x == *y,
        _ => false,
    }
}

/// Finds the part in which two lists of rows differ, and no more: everything
/// outside it is kept, so that the list's scroll position is too. Nothing if they
/// do not differ.
pub fn splice_diff(old_rows: &Vec<VisualEntry>, new_rows: &Vec<VisualEntry>) -> (r: Option<Splice>)
    ensures
        match r {
            None => entry_views(old_rows@) == entry_views(new_rows@),
            Some(s) => is_diff(entry_views(old_rows@), entry_views(new_rows@), s),
        },
{
    let ghost before = entry_views(old_rows@);
    let ghost after = entry_views(new_rows@);
    let n: usize = old_rows.len();
    let m: usize = new_rows.len();
    let mut start: usize = 0;
    while start < n && start < m && same_entry(&old_rows[start], &new_rows[start])
        invariant
            n == old_rows@.len(),
            m == new_rows@.len(),
            before == entry_views(old_rows@),
            after == entry_views(new_rows@),
            start <= n,
            start <= m,
            forall|i: int| 0 <= i < start ==> before[i] == after[i],
        decreases n - start,
    {
        assert(before[start as int] == after[start as int]);
        start = start + 1;
    }
    let mut tail: usize = 0;
    while tail < n - start && tail < m - start && same_entry(
        &old_rows[n - 1 - tail],
        &new_rows[m - 1 - tail],
    )
        invariant
            n == old_rows@.len(),
            m == new_rows@.len(),
            before == entry_views(old_rows@),
            after == entry_views(new_rows@),
            start <= n,
            start <= m,
            tail <= n - start,
            tail <= m - start,
            forall|i: int| 0 <= i < tail ==> #[trigger] before[n - 1 - i] == after[m - 1 - i],
        decreases n - tail,
    {
        assert(before[n - 1 - tail] == after[m - 1 - tail]);
        tail = tail + 1;
    }
    let old_end: usize = n - tail;
    let count: usize = m - tail - start;
    let splice = Splice { start, old_end, count };
    proof {
        let s = spliced(before, after, splice);
        assert forall|i: int| 0 <= i < s.len() implies s[i] == after[i] by {
            if i >= start + count {
                let k = m - 1 - i;
                assert(before[n - 1 - k] == after[m - 1 - k]);
            }
        }
        assert(s =~= after);
        if start < n && start < m {
            assert(before[start as int] == old_rows@[start as int]@);
            assert(after[start as int] == new_rows@[start as int]@);
        }
        if start < old_end && count > 0 {
            assert(before[old_end - 1] == old_rows@[old_end - 1]@);
        }
    }
    if start == old_end && count == 0 {
        assert(before =~= spliced(before, after, splice));
        None
    } else {
        Some(splice)
    }
}

/// What has to happen to the list that is on screen.
#[derive(Clone, Copy, Debug, PartialEq, Eq, Structural)]
pub enum ListChange {
    Keep,
    /// It holds this many rows, all of them new.
    Reset(usize),
    /// A part of it is replaced.
    Replace(Splice),
}

/// Where the list scrolls to.
#[derive(Clone, Copy, Debug, PartialEq, Eq, Structural)]
pub enum Scroll {
    Keep,
    /// To the first row of a list with headings.
    FirstEntry,
    /// So that this row of a list with headings can be seen.
    Entry(usize),
    /// So that this row of a list without headings can be seen, at its top.
    RowAtTop(usize),
    /// So that this row of a list without headings can be seen, at its bottom.
    RowAtBottom(usize),
}

/// A list that is searched.
#[derive(Debug)]
pub struct Picker<T> {
    items: Vec<T>,
    /// The results of the last search, in order: an item and its score.
    matches: Option<Vec<(usize, u32)>>,
    selected_index: Option<usize>,
    current_query: String,
    /// The search that the results are of.
    search_id: Option<usize>,
    next_search_id: usize,
    /// The rows, where there are headings.
    entries: Option<Vec<VisualEntry>>,
    selectable_items: Option<Vec<SelectableItem>>,
}

/// A list that is searched, as a value.
#[verifier::ext_equal]
#[verifier::reject_recursive_types(T)]
pub struct PickerView<T> {
    pub items: Seq<T>,
    pub matches: Option<Seq<(usize, u32)>>,
    pub selected: Option<usize>,
    pub query: Seq<char>,
    pub search: Option<usize>,
    pub next_search: usize,
    pub entries: Option<Seq<EntryView>>,
    pub selectables: Option<Seq<SelectableItem>>,
}

impl<T> View for Picker<T> {
    type V = PickerView<T>;

    closed spec fn view(&self) -> PickerView<T> {
        PickerView {
            items: self.items@,
            matches: match self.matches {
                Some(m) => Some(m@),
                None => None,
            },
            selected: self.selected_index,
            query: self.current_query@,
            search: self.search_id,
            next_search: self.next_search_id,
            entries: match self.entries {
                Some(e) => Some(entry_views(e@)),
                None => None,
            },
            selectables: match self.selectable_items {
                Some(s) => Some(s@),
                None => None,
            },
        }
    }
}

/// An index kept within a count; the first one if there was none, and none if
/// there is nothing.
pub open spec fn clamped(index: Option<usize>, count: int) -> Option<usize> {
    if count <= 0 {
        None
    } else {
        match index {
            Some(i) => if i < count {
                Some(i)
            } else {
                Some((count - 1) as usize)
            },
            None => Some(0),
        }
    }
}

/// All of `n` items, each with a score of zero.
pub open spec fn everything(n: int) -> Seq<(usize, u32)> {
    Seq::new(n as nat, |i: int| (i as usize, 0u32))
}

impl<T> PickerView<T> {
    /// How many rows can be selected.
    pub open spec fn visible(self) -> int {
        match (self.selectables, self.matches) {
            (Some(s), _) => s.len() as int,
            (None, Some(m)) => m.len() as int,
            (None, None) => self.items.len() as int,
        }
    }

    /// The item that a row stands for. It may be one that is not there any more:
    /// the items change at once, and the results only when a search is done.
    pub open spec fn resolved(self, index: usize) -> Option<usize> {
        let found = match self.selectables {
            Some(s) => if index < s.len() {
                Some(s[index as int].match_index)
            } else {
                None
            },
            None => Some(index),
        };
        match (found, self.matches) {
            (Some(i), Some(m)) => if i < m.len() {
                Some(m[i as int].0)
            } else {
                None
            },
            (Some(i), None) => if self.selectables is Some {
                None
            } else {
                Some(i)
            },
            (None, _) => None,
        }
    }

    /// The item that is selected.
    pub open spec fn picked(self) -> Option<int> {
        match self.selected {
            Some(index) => match self.resolved(index) {
                Some(i) => if i < self.items.len() {
                    Some(i as int)
                } else {
                    None
                },
                None => None,
            },
            None => None,
        }
    }

    /// The state once a search has been started.
    pub open spec fn searching(self) -> PickerView<T> {
        PickerView { next_search: (self.next_search + 1) as usize, ..self }
    }

    /// Whether there is a number left for another search.
    pub open spec fn can_search(self) -> bool {
        self.next_search < usize::MAX
    }

    /// Whether results are older than those there are.
    pub open spec fn outdates(self, search: usize) -> bool {
        self.search matches Some(id) && id > search
    }
}

impl<T> Picker<T> {
    /// A list of items, of which the first search has been started.
    pub fn new(items: Vec<T>) -> (r: Self)
        ensures
            r@ == (PickerView {
                items: items@,
                matches: None,
                selected: if items@.len() > 0 {
                    Some(0usize)
                } else {
                    None
                },
                query: Seq::empty(),
                search: None,
                next_search: 1,
                entries: None,
                selectables: None,
            }),
    {
        let selected_index = if items.len() > 0 {
            Some(0)
        } else {
            None
        };
        Picker {
            items,
            matches: None,
            selected_index,
            current_query: String::new(),
            search_id: None,
            next_search_id: 1,
            entries: None,
            selectable_items: None,
        }
    }

    /// Starts a search. Gives back its number.
    fn update_matches(&mut self) -> (r: usize)
        requires
            old(self)@.can_search(),
        ensures
            r == old(self)@.next_search,
            final(self)@ == old(self)@.searching(),
    {
        let id: usize = self.next_search_id;
        self.next_search_id = id + 1;
        id
    }

    /// Takes in what is typed. Gives back the number of the search that this
    /// starts; none if it is what was typed already.
    pub fn set_query(&mut self, query: &str) -> (r: Option<usize>)
        requires
            old(self)@.can_search(),
        ensures
            query@ == old(self)@.query ==> r is None && final(self)@ == old(self)@,
            query@ != old(self)@.query ==> r == Some(old(self)@.next_search) && final(self)@ == (
            PickerView { query: query@, ..old(self)@.searching() }),
    {
        if same(&self.current_query, query) {
            return None;
        }
        self.current_query = query.to_owned();
        Some(self.update_matches())
    }

    /// Replaces the items. Gives back the number of the search that this starts.
    pub fn set_items(&mut self, items: Vec<T>) -> (r: usize)
        requires
            old(self)@.can_search(),
        ensures
            r == old(self)@.next_search,
            final(self)@ == (PickerView {
                items: items@,
                selected: if old(self)@.selected is None && items@.len() > 0 {
                    Some(0usize)
                } else {
                    old(self)@.selected
                },
                ..old(self)@.searching()
            }),
    {
        self.items = items;
        if self.selected_index.is_none() && self.items.len() > 0 {
            self.selected_index = Some(0);
        }
        self.update_matches()
    }

    /// The item that a row stands for; see [`PickerView::resolved`].
    pub fn resolve_item_index(&self, selected_index: usize) -> (r: Option<usize>)
        ensures
            r == self@.resolved(selected_index),
    {
        match &self.selectable_items {
            Some(selectable_items) => {
                if selected_index >= selectable_items.len() {
                    return None;
                }
                let match_index: usize = selectable_items[selected_index].match_index;
                match &self.matches {
                    Some(matches) => {
                        if match_index < matches.len() {
                            Some(matches[match_index].0)
                        } else {
                            None
                        }
                    },
                    None => None,
                }
            },
            None => match &self.matches {
                Some(matches) => {
                    if selected_index < matches.len() {
                        Some(matches[selected_index].0)
                    } else {
                        None
                    }
                },
                None => Some(selected_index),
            },
        }
    }

    /// How many rows can be selected.
    pub fn visible_item_count(&self) -> (r: usize)
        ensures
            r == self@.visible(),
    {
        match &self.selectable_items {
            Some(selectable_items) => selectable_items.len(),
            None => match &self.matches {
                Some(matches) => matches.len(),
                None => self.items.len(),
            },
        }
    }

    /// The position of the item that is selected.
    pub fn selected_item(&self) -> (r: Option<usize>)
        ensures
            match r {
                Some(i) => self@.picked() == Some(i as int),
                None => self@.picked() is None,
            },
    {
        match self.selected_index {
            Some(index) => match self.resolve_item_index(index) {
                Some(i) => {
                    if i < self.items.len() {
                        Some(i)
                    } else {
                        None
                    }
                },
                None => None,
            },
            None => None,
        }
    }

    /// Picks the item that is selected, if there is one.
    pub fn launch_selected(&self, secondary: bool) -> (r: Option<PickerEvent>)
        ensures
            match r {
                Some(PickerEvent::Picked(i)) => !secondary && self@.picked() == Some(i as int),
                Some(PickerEvent::SecondaryPicked(i)) => secondary && self@.picked() == Some(
                    i as int,
                ),
                None => self@.picked() is None,
            },
    {
        match self.selected_item() {
            Some(i) => if secondary {
                Some(PickerEvent::SecondaryPicked(i))
            } else {
                Some(PickerEvent::Picked(i))
            },
            None => None,
        }
    }

    /// The item that is selected.
    pub fn get_selected_item(&self) -> (r: Option<&T>)
        ensures
            match r {
                Some(item) => self@.picked() matches Some(i) && *item == self@.items[i],
                None => self@.picked() is None,
            },
    {
        match self.selected_item() {
            Some(i) => Some(&self.items[i]),
            None => None,
        }
    }

    /// Moves the selection to a row. Gives back where the list scrolls to.
    ///
    /// The items change at once, and the results only when a search is done, so
    /// without headings the bound is the number of items, which will hold by then.
    pub fn set_selected_index(&mut self, index: usize) -> (r: Scroll)
        ensures
            ({
                let count = match old(self)@.selectables {
                    Some(s) => s.len() as int,
                    None => old(self)@.items.len() as int,
                };
                let selected = clamped(Some(index), count);
                &&& final(self)@ == (PickerView { selected, ..old(self)@ })
                &&& r == (match (selected, old(self)@.selectables) {
                    (None, _) => Scroll::Keep,
                    (Some(i), Some(s)) => Scroll::Entry(s[i as int].list_index),
                    (Some(i), None) => Scroll::RowAtTop(i),
                })
            }),
    {
        let count: usize = match &self.selectable_items {
            Some(selectable_items) => selectable_items.len(),
            None => self.items.len(),
        };
        if count == 0 {
            self.selected_index = None;
            return Scroll::Keep;
        }
        let index: usize = if index < count {
            index
        } else {
            count - 1
        };
        self.selected_index = Some(index);
        match &self.selectable_items {
            Some(selectable_items) => Scroll::Entry(selectable_items[index].list_index),
            None => Scroll::RowAtTop(index),
        }
    }

    /// Removes the item that is selected. Gives it back, with the number of the
    /// search that this starts.
    pub fn remove_selected_item(&mut self) -> (r: Option<(T, usize)>)
        requires
            old(self)@.can_search(),
        ensures
            match old(self)@.picked() {
                Some(i) => {
                    &&& r == Some((old(self)@.items[i], old(self)@.next_search))
                    &&& ({
                        let rest = PickerView {
                            items: old(self)@.items.remove(i),
                            ..old(self)@.searching()
                        };
                        final(self)@ == (PickerView {
                            selected: clamped(old(self)@.selected, rest.visible()),
                            ..rest
                        })
                    })
                },
                None => r is None && final(self)@ == old(self)@,
            },
    {
        match self.selected_item() {
            Some(i) => {
                let removed = self.items.remove(i);
                let count = self.visible_item_count();
                if count == 0 {
                    self.selected_index = None;
                } else if let Some(index) = self.selected_index {
                    if index >= count {
                        self.selected_index = Some(count - 1);
                    }
                }
                let id = self.update_matches();
                Some((removed, id))
            },
            None => None,
        }
    }

    /// Takes in the results of a search, unless they are older than those there
    /// are. No results mean everything. They are put in order, best first, and laid
    /// out under headings if there are any; the selection is kept among them.
    pub fn complete_search(
        &mut self,
        search_id: usize,
        found: Option<Vec<(usize, u32)>>,
        ranks: &Vec<(u32, u64)>,
        categories: &Option<Vec<Category>>,
    ) -> (r: (ListChange, Scroll))
        ensures
            old(self)@.outdates(search_id) ==> final(self)@ == old(self)@ && r == (
                ListChange::Keep,
                Scroll::Keep,
            ),
            !old(self)@.outdates(search_id) ==> {
                let before = old(self)@;
                let after = final(self)@;
                let results = match found {
                    Some(list) => list@,
                    None => everything(before.items.len() as int),
                };
                &&& after.items == before.items
                &&& after.query == before.query
                &&& after.next_search == before.next_search
                &&& after.search == Some(search_id)
                &&& after.matches matches Some(sorted) && crate::ranking::is_ranking(
                    sorted,
                    results,
                    ranks@,
                )
                &&& after.selected == clamped(before.selected, after.visible())
                &&& match *categories {
                    Some(list) => {
                        let now = rows(
                            category_views(list@),
                            after.matches->0,
                            after.items.len() as int,
                            list@.len() as int,
                        );
                        &&& after.entries == Some(now)
                        &&& after.selectables == Some(selectable(now, now.len() as int))
                        &&& r.1 == (if after.selected == Some(0usize) {
                            Scroll::FirstEntry
                        } else {
                            Scroll::Keep
                        })
                        &&& match (before.entries, r.0) {
                            (None, change) => change == ListChange::Reset(now.len() as usize),
                            (Some(was), ListChange::Keep) => was == now,
                            (Some(was), ListChange::Replace(splice)) => is_diff(was, now, splice)
                                && was != now,
                            (Some(_), ListChange::Reset(_)) => false,
                        }
                    },
                    None => {
                        &&& after.entries is None
                        &&& after.selectables is None
                        &&& r == (ListChange::Keep, Scroll::Keep)
                    },
                }
            },
    {
        if let Some(id) = self.search_id {
            if id > search_id {
                return (ListChange::Keep, Scroll::Keep);
            }
        }
        let results = match found {
            Some(list) => list,
            None => list_everything(self.items.len()),
        };
        let sorted = sort_results(&results, ranks);
        self.search_id = Some(search_id);
        match categories {
            Some(list) => {
                let (entries, items) = lay_out(list, &sorted, self.items.len());
                let count: usize = items.len();
                let change = match &self.entries {
                    Some(was) => {
                        let diff = splice_diff(was, &entries);
                        proof {
                            if let Some(s) = diff {
                                let x = entry_views(was@);
                                let y = entry_views(entries@);
                                if x == y {
                                    assert(x.len() - s.old_end == y.len() - (s.start + s.count))
                                        by {
                                        assert(spliced(x, y, s).len() == y.len());
                                    }
                                }
                            }
                        }
                        match diff {
                            Some(splice) => ListChange::Replace(splice),
                            None => ListChange::Keep,
                        }
                    },
                    None => ListChange::Reset(entries.len()),
                };
                self.matches = Some(sorted);
                self.entries = Some(entries);
                self.selectable_items = Some(items);
                self.selected_index = clamp_index(self.selected_index, count);
                let scroll = match self.selected_index {
                    Some(0) => Scroll::FirstEntry,
                    _ => Scroll::Keep,
                };
                (change, scroll)
            },
            None => {
                let count: usize = sorted.len();
                self.matches = Some(sorted);
                self.entries = None;
                self.selectable_items = None;
                self.selected_index = clamp_index(self.selected_index, count);
                (ListChange::Keep, Scroll::Keep)
            },
        }
    }
}

/// An index kept within a count; see [`clamped`].
fn clamp_index(index: Option<usize>, count: usize) -> (r: Option<usize>)
    ensures
        r == clamped(index, count as int),
{
    if count == 0 {
        None
    } else {
        match index {
            Some(i) => {
                if i < count {
                    Some(i)
                } else {
                    Some(count - 1)
                }
            },
            None => Some(0),
        }
    }
}

/// All of `n` items; see [`everything`].
fn list_everything(n: usize) -> (r: Vec<(usize, u32)>)
    ensures
        r@ == everything(n as int),
{
    let mut out: Vec<(usize, u32)> = Vec::new();
    for i in 0..n
        invariant
            out@ == everything(i as int),
    {
        out.push((i, 0));
        assert(out@ =~= everything(i + 1));
    }
    out
}

/// The row below the selected one, from the last round to the first.
pub open spec fn next_row(selected: Option<usize>, count: int) -> int {
    match selected {
        Some(i) => (i + 1) % count,
        None => 0,
    }
}

/// The row above the selected one, from the first round to the last.
pub open spec fn prev_row(selected: Option<usize>, count: int) -> int {
    match selected {
        Some(i) => if i == 0 {
            count - 1
        } else {
            i - 1
        },
        None => count - 1,
    }
}

/// Going down and up again leads back to the selected row.
pub proof fn law_down_and_up_returns(i: usize, count: int)
    requires
        i < count <= usize::MAX,
    ensures
        prev_row(Some(next_row(Some(i), count) as usize), count) == i,
        next_row(Some(prev_row(Some(i), count) as usize), count) == i,
{
    if i + 1 == count {
        assert((i + 1) % count == 0) by (nonlinear_arith)
            requires
                i + 1 == count,
                count > 0,
        ;
    } else {
        vstd::arithmetic::div_mod::lemma_small_mod((i + 1) as nat, count as nat);
    }
    if i == 0 {
        assert(count % count == 0) by (nonlinear_arith)
            requires
                count > 0,
        ;
    } else {
        vstd::arithmetic::div_mod::lemma_small_mod(i as nat, count as nat);
    }
}

/// Going down or up never leaves the list.
pub proof fn law_moves_stay_inside(selected: Option<usize>, count: int)
    requires
        0 < count <= usize::MAX,
        selected matches Some(i) ==> i < count,
    ensures
        0 <= next_row(selected, count) < count,
        0 <= prev_row(selected, count) < count,
{
    match selected {
        Some(i) => {
            vstd::arithmetic::div_mod::lemma_mod_bound(i + 1, count);
        },
        None => {},
    }
}

impl<T> PickerView<T> {
    /// Where the list scrolls to so that a row can be seen, coming to it from
    /// above (`down`) or from below.
    pub open spec fn revealing(self, index: usize, down: bool) -> Scroll {
        match self.selectables {
            Some(s) => if index < s.len() {
                Scroll::Entry(s[index as int].list_index)
            } else {
                Scroll::Keep
            },
            None => if down {
                Scroll::RowAtBottom(index)
            } else {
                Scroll::RowAtTop(index)
            },
        }
    }
}

impl<T> Picker<T> {
    /// Where the list scrolls to so that a row can be seen.
    fn scroll_to_row(&self, index: usize, down: bool) -> (r: Scroll)
        ensures
            r == self@.revealing(index, down),
    {
        match &self.selectable_items {
            Some(selectable_items) => {
                if index < selectable_items.len() {
                    Scroll::Entry(selectable_items[index].list_index)
                } else {
                    Scroll::Keep
                }
            },
            None => {
                if down {
                    Scroll::RowAtBottom(index)
                } else {
                    Scroll::RowAtTop(index)
                }
            },
        }
    }

    /// Selects the row below, from the last round to the first. Gives back where
    /// the list scrolls to.
    pub fn select_next(&mut self) -> (r: Scroll)
        ensures
            ({
                let before = old(self)@;
                let count = before.visible();
                let to = next_row(before.selected, count) as usize;
                let round = before.selected matches Some(i) && i + 1 >= count;
                if count == 0 {
                    r == Scroll::Keep && final(self)@ == before
                } else {
                    &&& final(self)@ == (PickerView { selected: Some(to), ..before })
                    &&& r == (if !round {
                        before.revealing(to, true)
                    } else if before.selectables is Some {
                        Scroll::FirstEntry
                    } else {
                        Scroll::RowAtTop(0)
                    })
                }
            }),
    {
        let count = self.visible_item_count();
        if count == 0 {
            return Scroll::Keep;
        }
        let (to, round): (usize, bool) = match self.selected_index {
            Some(i) => {
                let below: u128 = i as u128 + 1;
                ((below % (count as u128)) as usize, below >= count as u128)
            },
            None => (0, false),
        };
        self.selected_index = Some(to);
        if !round {
            self.scroll_to_row(to, true)
        } else if self.selectable_items.is_some() {
            Scroll::FirstEntry
        } else {
            Scroll::RowAtTop(0)
        }
    }

    /// Selects the row above, from the first round to the last. Gives back where
    /// the list scrolls to.
    pub fn select_prev(&mut self) -> (r: Scroll)
        ensures
            ({
                let before = old(self)@;
                let count = before.visible();
                let to = prev_row(before.selected, count) as usize;
                let round = before.selected is None || before.selected == Some(0usize);
                if count == 0 {
                    r == Scroll::Keep && final(self)@ == before
                } else {
                    &&& final(self)@ == (PickerView { selected: Some(to), ..before })
                    &&& r == (if !round {
                        before.revealing(to, false)
                    } else {
                        match before.entries {
                            Some(entries) => Scroll::Entry(
                                if entries.len() > 0 {
                                    (entries.len() - 1) as usize
                                } else {
                                    0
                                },
                            ),
                            None => Scroll::RowAtBottom((count - 1) as usize),
                        }
                    })
                }
            }),
    {
        let count = self.visible_item_count();
        if count == 0 {
            return Scroll::Keep;
        }
        let (to, round): (usize, bool) = match self.selected_index {
            Some(i) => {
                if i == 0 {
                    (count - 1, true)
                } else {
                    (i - 1, false)
                }
            },
            None => (count - 1, true),
        };
        self.selected_index = Some(to);
        if !round {
            return self.scroll_to_row(to, false);
        }
        match &self.entries {
            Some(entries) => {
                let n: usize = entries.len();
                Scroll::Entry(
                    if n > 0 {
                        n - 1
                    } else {
                        0
                    },
                )
            },
            None => Scroll::RowAtBottom(count - 1),
        }
    }

    /// How many rows a list without headings has. Results left over from a longer
    /// list of items do not ask for rows there is nothing to put in.
    pub fn row_count(&self) -> (r: usize)
        ensures
            r == (match self@.matches {
                Some(m) => if m.len() < self@.items.len() {
                    m.len() as int
                } else {
                    self@.items.len() as int
                },
                None => self@.items.len() as int,
            }),
    {
        match &self.matches {
            Some(matches) => {
                if matches.len() < self.items.len() {
                    matches.len()
                } else {
                    self.items.len()
                }
            },
            None => self.items.len(),
        }
    }

    pub fn items(&self) -> (r: &Vec<T>)
        ensures
            r@ == self@.items,
    {
        &self.items
    }

    pub fn query(&self) -> (r: &String)
        ensures
            r@ == self@.query,
    {
        &self.current_query
    }

    pub fn selected_index(&self) -> (r: Option<usize>)
        ensures
            r == self@.selected,
    {
        self.selected_index
    }

    /// The rows, where there are headings.
    pub fn entries(&self) -> (r: &Option<Vec<VisualEntry>>)
        ensures
            match (*r, self@.entries) {
                (Some(list), Some(rows)) => entry_views(list@) == rows,
                (None, None) => true,
                _ => false,
            },
    {
        &self.entries
    }

    /// The results of the last search, in order.
    pub fn matches(&self) -> (r: &Option<Vec<(usize, u32)>>)
        ensures
            match (*r, self@.matches) {
                (Some(list), Some(m)) => list@ == m,
                (None, None) => true,
                _ => false,
            },
    {
        &self.matches
    }
}

/// Once the results of a search are in, what is selected is a row that there is,
/// if there are any.
pub proof fn law_selection_is_visible(selected: Option<usize>, count: int)
    requires
        0 <= count <= usize::MAX,
    ensures
        clamped(selected, count) is Some <==> count > 0,
        clamped(selected, count) matches Some(i) ==> i < count,
{
}

/// A result stands under a heading exactly if the item that it is about belongs there, and
/// those under one heading keep their order.
pub proof fn law_results_stand_under_their_headings(
    members: Seq<bool>,
    matches: Seq<(usize, u32)>,
    count: int,
    n: int,
    i: int,
)
    requires
        0 <= n <= matches.len() <= usize::MAX,
    ensures
        0 <= i < n ==> (hits(members, matches, count, n).contains(i as usize) <==> (matches[i].0
            < count && matches[i].0 < members.len() && members[matches[i].0 as int])),
        forall|k: int|
            0 <= k < hits(members, matches, count, n).len() ==> (#[trigger] hits(
                members,
                matches,
                count,
                n,
            )[k]) < n,
        forall|k: int, l: int|
            0 <= k < l < hits(members, matches, count, n).len() ==> (#[trigger] hits(
                members,
                matches,
                count,
                n,
            )[k]) < (#[trigger] hits(members, matches, count, n)[l]),
    decreases n,
{
    if n > 0 {
        law_results_stand_under_their_headings(members, matches, count, n - 1, i);
        let before = hits(members, matches, count, n - 1);
        let all = hits(members, matches, count, n);
        if 0 <= i < n - 1 && before.contains(i as usize) {
            let k = choose|k: int| 0 <= k < before.len() && before[k] == i as usize;
            assert(all[k] == i as usize);
        }
        if 0 <= i < n && all.contains(i as usize) {
            let k = choose|k: int| 0 <= k < all.len() && all[k] == i as usize;
            if k < before.len() {
                assert(before[k] == i as usize);
            }
        }
        if i == n - 1 && hit(members, matches[i], count) {
            assert(all.last() == i as usize);
        }
    }
}

/// A heading is shown with its results behind it, and not at all where it has none.
pub proof fn law_headings_lead_their_results(
    category: CategoryView,
    matches: Seq<(usize, u32)>,
    count: int,
)
    ensures
        ({
            let under = hits(category.members, matches, count, matches.len() as int);
            let shown = block(category, matches, count);
            &&& under.len() == 0 ==> shown.len() == 0
            &&& under.len() > 0 ==> shown.len() == under.len() + 1 && shown[0]
                == EntryView::Header(category.name)
            &&& forall|i: int|
                0 <= i < under.len() ==> #[trigger] shown[i + 1] == EntryView::Item(under[i])
        }),
{
}

/// The headings come in their order, each with all of its results, and nothing else is shown.
pub proof fn law_every_heading_is_shown(
    categories: Seq<CategoryView>,
    matches: Seq<(usize, u32)>,
    count: int,
    n: int,
    c: int,
    i: int,
)
    requires
        0 <= c < n <= categories.len(),
        0 <= i < matches.len() <= usize::MAX,
        hit(categories[c].members, matches[i], count),
    ensures
        rows(categories, matches, count, n).contains(EntryView::Item(i as usize)),
        rows(categories, matches, count, n).contains(EntryView::Header(categories[c].name)),
        rows(categories, matches, count, n) == rows(categories, matches, count, n - 1) + block(
            categories[n - 1],
            matches,
            count,
        ),
        rows(categories, matches, count, 0).len() == 0,
    decreases n,
{
    let before = rows(categories, matches, count, n - 1);
    let all = rows(categories, matches, count, n);
    if c == n - 1 {
        let category = categories[c];
        let under = hits(category.members, matches, count, matches.len() as int);
        law_results_stand_under_their_headings(
            category.members,
            matches,
            count,
            matches.len() as int,
            i,
        );
        law_headings_lead_their_results(category, matches, count);
        let k = choose|k: int| 0 <= k < under.len() && under[k] == i as usize;
        let shown = block(category, matches, count);
        assert(shown[k + 1] == EntryView::Item(i as usize));
        assert(all[before.len() + k + 1] == EntryView::Item(i as usize));
        assert(all[before.len() as int] == EntryView::Header(category.name));
    } else {
        law_every_heading_is_shown(categories, matches, count, n - 1, c, i);
        let a = choose|a: int| 0 <= a < before.len() && before[a] == EntryView::Item(i as usize);
        let b = choose|b: int|
            0 <= b < before.len() && before[b] == EntryView::Header(categories[c].name);
        assert(all[a] == EntryView::Item(i as usize));
        assert(all[b] == EntryView::Header(categories[c].name));
    }
}

/// Every row with a result can be selected, and they are in order.
pub proof fn law_every_result_can_be_selected(entries: Seq<EntryView>, n: int, i: int)
    requires
        0 <= i < n <= entries.len() <= usize::MAX,
    ensures
        entries[i] matches EntryView::Item(index) ==> selectable(entries, n).contains(
            (SelectableItem { match_index: index, list_index: i as usize }),
        ),
        forall|k: int, l: int|
            0 <= k < l < selectable(entries, n).len() ==> (#[trigger] selectable(
                entries,
                n,
            )[k]).list_index < (#[trigger] selectable(entries, n)[l]).list_index,
    decreases n,
{
    lemma_selectable_order(entries, n);
    let all = selectable(entries, n);
    if let EntryView::Item(index) = entries[i] {
        let item = SelectableItem { match_index: index, list_index: i as usize };
        if i == n - 1 {
            assert(all.last() == item);
        } else {
            law_every_result_can_be_selected(entries, n - 1, i);
            let before = selectable(entries, n - 1);
            let k = choose|k: int| 0 <= k < before.len() && before[k] == item;
            assert(all[k] == item);
        }
    }
}

proof fn lemma_selectable_order(entries: Seq<EntryView>, n: int)
    requires
        0 <= n <= entries.len() <= usize::MAX,
    ensures
        forall|k: int|
            0 <= k < selectable(entries, n).len() ==> (#[trigger] selectable(
                entries,
                n,
            )[k]).list_index < n,
        forall|k: int, l: int|
            0 <= k < l < selectable(entries, n).len() ==> (#[trigger] selectable(
                entries,
                n,
            )[k]).list_index < (#[trigger] selectable(entries, n)[l]).list_index,
    decreases n,
{
    if n > 0 {
        lemma_selectable_order(entries, n - 1);
        let before = selectable(entries, n - 1);
        let all = selectable(entries, n);
        assert forall|k: int| 0 <= k < all.len() implies (#[trigger] all[k]).list_index < n by {
            if k < before.len() {
                assert(all[k] == before[k]);
            }
        }
        assert forall|k: int, l: int| 0 <= k < l < all.len() implies (
        #[trigger] all[k]).list_index < (#[trigger] all[l]).list_index by {
            assert(all[k] == before[k]);
            if l < before.len() {
                assert(all[l] == before[l]);
            }
        }
    }
}

/// What is selected stays selected as long as it is there; beyond the end the last is, and the
/// first where nothing was.
pub proof fn law_selections_are_kept(index: usize, count: int)
    requires
        0 < count <= usize::MAX,
    ensures
        index < count ==> clamped(Some(index), count) == Some(index),
        index >= count ==> clamped(Some(index), count) == Some((count - 1) as usize),
        clamped(None, count) == Some(0usize),
        clamped(Some(index), 0) is None,
{
}

/// With nothing searched for, every item is shown, in order.
pub proof fn law_everything_is_shown_in_order(n: int, i: int)
    requires
        0 <= i < n <= usize::MAX,
    ensures
        everything(n).len() == n,
        everything(n)[i].0 == i,
        everything(n)[i].1 == everything(n)[0].1,
{
}

/// Going down goes to the next row, and from the last to the first; going up goes to the one
/// before, and from the first to the last. With nothing selected, going down begins at the top
/// and going up at the bottom.
pub proof fn law_down_is_next_and_up_is_before(i: usize, count: int)
    requires
        0 < count <= usize::MAX,
    ensures
        i + 1 < count ==> next_row(Some(i), count) == i + 1,
        i + 1 == count ==> next_row(Some(i), count) == 0,
        0 < i < count ==> prev_row(Some(i), count) == i - 1,
        prev_row(Some(0usize), count) == count - 1,
        next_row(None, count) == 0,
        prev_row(None, count) == count - 1,
{
    if i + 1 < count {
        vstd::arithmetic::div_mod::lemma_small_mod((i + 1) as nat, count as nat);
    }
    if i + 1 == count {
        vstd::arithmetic::div_mod::lemma_mod_self_0(count);
    }
}

impl<T> PickerView<T> {
    /// The rows that are shown lead to the items that they are about: through the rows under
    /// headings where there are any, through the results of a search where there are any, and
    /// straight to the items otherwise.
    pub proof fn law_rows_lead_to_their_items(self, index: usize)
        ensures
            self.selectables is None && self.matches is None ==> self.resolved(index) == Some(index)
                && self.visible() == self.items.len(),
            self.selectables is None && self.matches is Some ==> self.visible()
                == self.matches->0.len() && (index < self.visible() ==> self.resolved(index)
                == Some(self.matches->0[index as int].0)) && (index >= self.visible()
                ==> self.resolved(index) is None),
            self.selectables is Some && self.matches is Some ==> self.visible()
                == self.selectables->0.len() && (index < self.visible()
                && self.selectables->0[index as int].match_index < self.matches->0.len()
                ==> self.resolved(index) == Some(
                self.matches->0[self.selectables->0[index as int].match_index as int].0,
            )) && (index >= self.visible() ==> self.resolved(index) is None),
    {
    }

    /// What is picked is the item of the row that is selected, and nothing without one.
    pub proof fn law_the_selected_item_is_picked(self)
        ensures
            self.selected is None ==> self.picked() is None,
            self.selected matches Some(index) ==> (self.resolved(index) matches Some(i) ==> (i
                < self.items.len() ==> self.picked() == Some(i as int)) && (i >= self.items.len()
                ==> self.picked() is None)),
            self.picked() matches Some(i) ==> 0 <= i < self.items.len(),
    {
    }

    /// The results of a search are dropped exactly if those of a later one are shown already.
    pub proof fn law_later_searches_win(self, search: usize)
        ensures
            self.search is None ==> !self.outdates(search),
            self.search matches Some(id) ==> (self.outdates(search) <==> search < id),
            self.can_search() ==> self.searching().next_search > self.next_search,
    {
    }

    /// The row that is selected is brought into view: by its place under the headings where
    /// there are any, and from the side that it was reached from otherwise.
    pub proof fn law_selected_rows_come_into_view(self, index: usize)
        ensures
            self.selectables is None ==> self.revealing(index, true) == Scroll::RowAtBottom(index)
                && self.revealing(index, false) == Scroll::RowAtTop(index),
            self.selectables matches Some(s) ==> (index < s.len() ==> self.revealing(index, true)
                == Scroll::Entry(s[index as int].list_index) && self.revealing(index, false)
                == Scroll::Entry(s[index as int].list_index)),
    {
    }
}

/// A row that is in the list is brought into view: by its own entry where the list has
/// groups, else at the end of the view that it is approached from. A row that is not in a
/// grouped list leaves the view where it is.
pub proof fn law_rows_are_brought_into_view<T>(view: PickerView<T>, index: usize, down: bool)
    ensures
        view.selectables is None ==> view.revealing(index, true) == Scroll::RowAtBottom(index)
            && view.revealing(index, false) == Scroll::RowAtTop(index),
        view.selectables matches Some(rows) ==> (view.revealing(index, down) is Keep <==> index
            >= rows.len()),
        view.selectables matches Some(rows) ==> (index < rows.len() ==> view.revealing(index, down)
            == Scroll::Entry(rows[index as int].list_index)),
{
}

} // verus!
