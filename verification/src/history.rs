//! What was changed in a text, to be undone and done again.

use vstd::prelude::*;

verus! {

/// A change of a text: from a byte offset on, one text was replaced by another.
#[derive(Debug)]
pub struct Change {
    pub start: usize,
    pub old_end: usize,
    pub old_text: String,
    pub new_end: usize,
    pub new_text: String,
    /// Changes of one version are undone together.
    pub version: u64,
}

/// A [`Change`] as a value.
#[verifier::ext_equal]
pub struct ChangeView {
    pub start: int,
    pub old_end: int,
    pub old_text: Seq<char>,
    pub new_end: int,
    pub new_text: Seq<char>,
    pub version: u64,
}

impl View for Change {
    type V = ChangeView;

    open spec fn view(&self) -> ChangeView {
        ChangeView {
            start: self.start as int,
            old_end: self.old_end as int,
            old_text: self.old_text@,
            new_end: self.new_end as int,
            new_text: self.new_text@,
            version: self.version,
        }
    }
}

impl Clone for Change {
    fn clone(&self) -> (r: Self)
        ensures
            r@ == self@,
    {
        Change {
            start: self.start,
            old_end: self.old_end,
            old_text: self.old_text.clone(),
            new_end: self.new_end,
            new_text: self.new_text.clone(),
            version: self.version,
        }
    }
}

/// Changes as values.
pub open spec fn change_views(changes: Seq<Change>) -> Seq<ChangeView> {
    changes.map_values(|c: Change| c@)
}

/// The history of a text as a value.
#[verifier::ext_equal]
pub struct HistoryView {
    pub undos: Seq<ChangeView>,
    pub redos: Seq<ChangeView>,
    pub version: u64,
    /// When the last change was made, in milliseconds.
    pub last_changed: u64,
    /// Whether changes go unrecorded for now.
    pub ignore: bool,
    /// Whether changes belong together for now, however far apart.
    pub grouping: bool,
}

/// How far apart changes may be to belong together, in milliseconds.
pub const GROUP_INTERVAL: u64 = 1000;

/// How many of the last changes belong together.
pub open spec fn group_len(changes: Seq<ChangeView>, version: u64) -> int
    decreases changes.len(),
{
    if changes.len() == 0 || changes.last().version != version {
        0
    } else {
        group_len(changes.drop_last(), version) + 1
    }
}

/// How many of the last changes belong together with the last one.
pub open spec fn last_group(changes: Seq<ChangeView>) -> int {
    if changes.len() == 0 {
        0
    } else {
        group_len(changes, changes.last().version)
    }
}

/// A group is part of the changes it is taken from.
pub proof fn lemma_group_len(changes: Seq<ChangeView>, version: u64)
    ensures
        0 <= group_len(changes, version) <= changes.len(),
        changes.len() > 0 && changes.last().version == version ==> group_len(changes, version) > 0,
    decreases changes.len(),
{
    if changes.len() > 0 && changes.last().version == version {
        lemma_group_len(changes.drop_last(), version);
    }
}

impl HistoryView {
    /// No changes yet.
    pub open spec fn empty() -> HistoryView {
        HistoryView {
            undos: Seq::empty(),
            redos: Seq::empty(),
            version: 0,
            last_changed: 0,
            ignore: false,
            grouping: false,
        }
    }

    /// The version of a change that is made now.
    pub open spec fn next_version(self, now: u64) -> u64 {
        if !self.grouping && now - self.last_changed > GROUP_INTERVAL {
            if self.version == u64::MAX {
                0
            } else {
                (self.version + 1) as u64
            }
        } else {
            self.version
        }
    }

    /// A change is made. What was undone cannot be done again after it.
    pub open spec fn pushed(self, change: ChangeView, now: u64) -> HistoryView {
        let version = self.next_version(now);
        HistoryView {
            undos: self.undos.push(ChangeView { version, ..change }),
            redos: Seq::empty(),
            version,
            last_changed: now,
            ..self
        }
    }

    /// The changes to undo, the last one first.
    pub open spec fn to_undo(self) -> Seq<ChangeView> {
        self.undos.skip(self.undos.len() - last_group(self.undos)).reverse()
    }

    /// The last group of changes is undone.
    pub open spec fn undone(self) -> HistoryView {
        HistoryView {
            undos: self.undos.take(self.undos.len() - last_group(self.undos)),
            redos: self.redos + self.to_undo(),
            ..self
        }
    }

    /// The changes to do again, the first one first.
    pub open spec fn to_redo(self) -> Seq<ChangeView> {
        self.redos.skip(self.redos.len() - last_group(self.redos)).reverse()
    }

    /// The last group of changes that was undone is done again.
    pub open spec fn redone(self) -> HistoryView {
        HistoryView {
            redos: self.redos.take(self.redos.len() - last_group(self.redos)),
            undos: self.undos + self.to_redo(),
            ..self
        }
    }
}

/// The history of a text.
#[derive(Debug)]
pub struct History {
    undos: Vec<Change>,
    redos: Vec<Change>,
    version: u64,
    last_changed: u64,
    ignore: bool,
    grouping: bool,
}

impl View for History {
    type V = HistoryView;

    closed spec fn view(&self) -> HistoryView {
        HistoryView {
            undos: change_views(self.undos@),
            redos: change_views(self.redos@),
            version: self.version,
            last_changed: self.last_changed,
            ignore: self.ignore,
            grouping: self.grouping,
        }
    }
}

/// Takes the last group off a list of changes, the last one first.
fn take_group(changes: &mut Vec<Change>) -> (r: Vec<Change>)
    ensures
        ({
            let all = change_views(old(changes)@);
            let keep = all.len() - last_group(all);
            &&& change_views(final(changes)@) == all.take(keep)
            &&& change_views(r@) == all.skip(keep).reverse()
        }),
{
    let ghost all = change_views(changes@);
    let mut out: Vec<Change> = Vec::new();
    if changes.len() == 0 {
        assert(change_views(changes@) =~= all.take(0));
        assert(change_views(out@) =~= all.skip(0).reverse());
        return out;
    }
    let version: u64 = changes[changes.len() - 1].version;
    assert(all.take(all.len() as int) =~= all);
    assert(change_views(out@) =~= all.skip(all.len() as int).reverse());
    while changes.len() > 0 && changes[changes.len() - 1].version == version
        invariant
            changes@.len() <= all.len(),
            change_views(changes@) == all.take(changes@.len() as int),
            change_views(out@) == all.skip(changes@.len() as int).reverse(),
            group_len(all, version) == all.len() - changes@.len() + group_len(
                all.take(changes@.len() as int),
                version,
            ),
        decreases changes@.len(),
    {
        let ghost n = changes@.len() as int;
        let ghost was = out@;
        proof {
            assert(all.take(n)[n - 1] == changes@[n - 1]@);
            assert(all.take(n).drop_last() =~= all.take(n - 1));
        }
        if let Some(change) = changes.pop() {
            assert(change_views(changes@) =~= all.take(n - 1));
            out.push(change);
            assert(change@ == all[n - 1]);
            assert(change_views(out@) =~= change_views(was).push(change@));
            assert(all.skip(n).reverse().push(all[n - 1]) =~= all.skip(n - 1).reverse());
        }
    }
    proof {
        let n = changes@.len() as int;
        if n > 0 {
            assert(all.take(n).last() == changes@[n - 1]@);
        }
        assert(all.last().version == version);
    }
    out
}

fn copy_changes(changes: &Vec<Change>) -> (r: Vec<Change>)
    ensures
        change_views(r@) == change_views(changes@),
{
    let mut out: Vec<Change> = Vec::new();
    for i in 0..changes.len()
        invariant
            out@.len() == i,
            forall|j: int| 0 <= j < i ==> (#[trigger] out@[j])@ == changes@[j]@,
    {
        out.push(changes[i].clone());
    }
    assert(change_views(out@) =~= change_views(changes@));
    out
}

impl Clone for History {
    fn clone(&self) -> (r: Self)
        ensures
            r@ == self@,
    {
        History {
            undos: copy_changes(&self.undos),
            redos: copy_changes(&self.redos),
            version: self.version,
            last_changed: self.last_changed,
            ignore: self.ignore,
            grouping: self.grouping,
        }
    }
}

impl History {
    pub fn new() -> (r: Self)
        ensures
            r@ == HistoryView::empty(),
    {
        let history = History {
            undos: Vec::new(),
            redos: Vec::new(),
            version: 0,
            last_changed: 0,
            ignore: false,
            grouping: false,
        };
        assert(history@ =~= HistoryView::empty());
        history
    }

    pub fn is_ignoring(&self) -> (r: bool)
        ensures
            r == self@.ignore,
    {
        self.ignore
    }

    pub fn set_ignore(&mut self, ignore: bool)
        ensures
            final(self)@ == (HistoryView { ignore, ..old(self)@ }),
    {
        self.ignore = ignore;
    }

    /// From now on changes belong together.
    pub fn start_grouping(&mut self)
        ensures
            final(self)@ == (HistoryView { grouping: true, ..old(self)@ }),
    {
        self.grouping = true;
    }

    /// From now on changes belong together only if they are close.
    pub fn end_grouping(&mut self)
        ensures
            final(self)@ == (HistoryView { grouping: false, ..old(self)@ }),
    {
        self.grouping = false;
    }

    /// Records a change.
    pub fn push(&mut self, change: Change, now: u64)
        ensures
            final(self)@ == old(self)@.pushed(change@, now),
    {
        if !self.grouping && now >= self.last_changed && now - self.last_changed > GROUP_INTERVAL {
            self.version = self.version.wrapping_add(1);
        }
        self.last_changed = now;
        let mut change = change;
        change.version = self.version;
        self.undos.push(change);
        self.redos = Vec::new();
        assert(self@ =~= old(self)@.pushed(change@, now));
    }

    /// Takes the changes to undo, the last one first.
    pub fn undo(&mut self) -> (r: Vec<Change>)
        ensures
            change_views(r@) == old(self)@.to_undo(),
            final(self)@ == old(self)@.undone(),
    {
        let group = take_group(&mut self.undos);
        let mut more = copy_changes(&group);
        let ghost was = self.redos@;
        let ghost tail = more@;
        self.redos.append(&mut more);
        assert(change_views(self.redos@) =~= change_views(was) + change_views(tail));
        assert(self@ =~= old(self)@.undone());
        group
    }

    /// Takes the changes to do again, the first one first.
    pub fn redo(&mut self) -> (r: Vec<Change>)
        ensures
            change_views(r@) == old(self)@.to_redo(),
            final(self)@ == old(self)@.redone(),
    {
        let group = take_group(&mut self.redos);
        let mut more = copy_changes(&group);
        let ghost was = self.undos@;
        let ghost tail = more@;
        self.undos.append(&mut more);
        assert(change_views(self.undos@) =~= change_views(was) + change_views(tail));
        assert(self@ =~= old(self)@.redone());
        group
    }
}

/// Whether a change is the last one that was made to a text: its new text stands
/// where it says.
pub open spec fn made(text: Seq<char>, change: ChangeView) -> bool {
    &&& 0 <= change.start
    &&& change.new_end == change.start + crate::utf8::bytes(change.new_text)
    &&& change.old_end == change.start + crate::utf8::bytes(change.old_text)
    &&& crate::rope::is_part(text, change.start, change.new_end)
    &&& text.subrange(
        crate::position::floor(text, change.start),
        crate::position::floor(text, change.new_end),
    ) == change.new_text
}

/// A text before a change was made to it.
pub open spec fn unmade(text: Seq<char>, change: ChangeView) -> Seq<char> {
    crate::rope::spliced(text, change.start, change.new_end, change.old_text)
}

/// Whether changes are the ones that were made to a text, the last one last.
pub open spec fn all_made(text: Seq<char>, changes: Seq<ChangeView>) -> bool
    decreases changes.len(),
{
    changes.len() == 0 || (made(text, changes.last()) && all_made(
        unmade(text, changes.last()),
        changes.drop_last(),
    ))
}

/// A text before changes were made to it.
pub open spec fn all_unmade(text: Seq<char>, changes: Seq<ChangeView>) -> Seq<char>
    decreases changes.len(),
{
    if changes.len() == 0 {
        text
    } else {
        all_unmade(unmade(text, changes.last()), changes.drop_last())
    }
}

/// Recording a change as it is made keeps the record true, and unmaking it gives
/// the text back as it was.
pub proof fn law_recorded_changes_can_be_unmade(
    text: Seq<char>,
    history: HistoryView,
    from: int,
    to: int,
    new_text: Seq<char>,
    now: u64,
)
    requires
        0 <= from,
        crate::rope::is_part(text, from, to),
        all_made(text, history.undos),
    ensures
        ({
            let change = ChangeView {
                start: from,
                old_end: to,
                old_text: text.subrange(
                    crate::position::floor(text, from),
                    crate::position::floor(text, to),
                ),
                new_end: from + crate::utf8::bytes(new_text),
                new_text,
                version: 0,
            };
            let after = crate::rope::spliced(text, from, to, new_text);
            let recorded = history.pushed(change, now);
            &&& all_made(after, recorded.undos)
            &&& unmade(after, recorded.undos.last()) == text
        }),
{
    crate::rope::lemma_part(text, from, to);
    crate::rope::law_replacing_back_restores(text, from, to, new_text);
    let a = crate::position::floor(text, from);
    let b = crate::position::floor(text, to);
    crate::utf8::lemma_offset_increases(text, a, b);
    let version = history.next_version(now);
    let change = ChangeView {
        start: from,
        old_end: to,
        old_text: text.subrange(a, b),
        new_end: from + crate::utf8::bytes(new_text),
        new_text,
        version,
    };
    assert(history.undos.push(change).drop_last() =~= history.undos);
}

/// Changes that follow each other within a second are undone together, and so are those of a
/// group; one that comes later begins a new group.
pub proof fn law_quick_changes_belong_together(history: HistoryView, change: ChangeView, now: u64)
    ensures
        history.grouping || now <= history.last_changed + 1000 ==> history.pushed(
            change,
            now,
        ).undos.last().version == history.version,
        !history.grouping && now > history.last_changed + 1000 ==> history.pushed(
            change,
            now,
        ).undos.last().version != history.version,
        history.pushed(change, now).undos.last().version == history.pushed(change, now).version,
        history.pushed(change, now).last_changed == now,
{
}

/// A change is recorded as it was made, behind those that were made before it, and nothing
/// that was undone can be done again after it.
pub proof fn law_changes_are_recorded(history: HistoryView, change: ChangeView, now: u64)
    ensures
        ({
            let after = history.pushed(change, now);
            &&& after.undos.drop_last() == history.undos
            &&& after.undos.last() == ChangeView { version: after.version, ..change }
            &&& after.redos.len() == 0
            &&& after.ignore == history.ignore && after.grouping == history.grouping
        }),
{
    assert(history.pushed(change, now).undos.drop_last() =~= history.undos);
}

proof fn lemma_group(changes: Seq<ChangeView>, version: u64)
    ensures
        ({
            let k = group_len(changes, version);
            &&& 0 <= k <= changes.len()
            &&& forall|i: int|
                changes.len() - k <= i < changes.len() ==> (#[trigger] changes[i]).version
                    == version
            &&& k < changes.len() ==> changes[changes.len() - k - 1].version != version
        }),
    decreases changes.len(),
{
    if changes.len() > 0 && changes.last().version == version {
        let init = changes.drop_last();
        lemma_group(init, version);
        let k = group_len(changes, version);
        assert forall|i: int| changes.len() - k <= i < changes.len() implies (
        #[trigger] changes[i]).version == version by {
            if i < init.len() {
                assert(init[i] == changes[i]);
            }
        }
        if k < changes.len() {
            assert(init[init.len() - (k - 1) - 1] == changes[changes.len() - k - 1]);
        }
    }
}

/// What is undone at once are the last changes of one version, all of them, the last one
/// first, and they can be done again; the changes before them stay.
pub proof fn law_a_whole_group_is_undone(history: HistoryView)
    ensures
        ({
            let n = history.undos.len();
            let group = history.to_undo();
            let k = group.len();
            &&& k <= n
            &&& n > 0 ==> k > 0
            &&& history.undone().undos == history.undos.take(n - k)
            &&& history.undone().redos == history.redos + group
            &&& forall|i: int| 0 <= i < k ==> #[trigger] group[i] == history.undos[n - 1 - i]
            &&& forall|i: int|
                0 <= i < k ==> (#[trigger] group[i]).version == history.undos.last().version
            &&& k < n ==> history.undos[n - k - 1].version != history.undos.last().version
        }),
{
    if history.undos.len() > 0 {
        lemma_group(history.undos, history.undos.last().version);
        lemma_group_len(history.undos, history.undos.last().version);
    }
}

/// What is done again at once are the last changes that were undone, all of one version, in
/// the order in which they were made at first.
pub proof fn law_a_whole_group_is_redone(history: HistoryView)
    ensures
        ({
            let n = history.redos.len();
            let group = history.to_redo();
            let k = group.len();
            &&& k <= n
            &&& n > 0 ==> k > 0
            &&& history.redone().redos == history.redos.take(n - k)
            &&& history.redone().undos == history.undos + group
            &&& forall|i: int| 0 <= i < k ==> #[trigger] group[i] == history.redos[n - 1 - i]
            &&& k < n ==> history.redos[n - k - 1].version != history.redos.last().version
        }),
{
    if history.redos.len() > 0 {
        lemma_group(history.redos, history.redos.last().version);
        lemma_group_len(history.redos, history.redos.last().version);
    }
}

/// A history starts with nothing to undo or redo, takes down what happens and groups only
/// what happens close together.
pub proof fn law_histories_start_blank()
    ensures
        ({
            let history = HistoryView::empty();
            &&& history.undos.len() == 0 && history.redos.len() == 0
            &&& !history.ignore && !history.grouping
            &&& history.version == 0 && history.last_changed == 0
        }),
{
}

} // verus!
