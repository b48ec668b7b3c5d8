//! Lists of names, kept as vectors of strings.

use vstd::prelude::*;

use crate::text::{same, starts_with};

verus! {

/// Whether no name occurs twice in a list.
pub open spec fn distinct(names: Seq<Seq<char>>) -> bool {
    forall|i: int, j: int| 0 <= i < j < names.len() ==> names[i] != names[j]
}

/// The position of a name at or after `from`.
pub open spec fn name_from(names: Seq<Seq<char>>, from: int, name: Seq<char>) -> Option<int>
    decreases names.len() - from,
{
    if from >= names.len() {
        None
    } else if names[from] == name {
        Some(from)
    } else {
        name_from(names, from + 1, name)
    }
}

/// What `name_from` stands for.
pub proof fn lemma_name_from(names: Seq<Seq<char>>, from: int, name: Seq<char>)
    requires
        0 <= from,
    ensures
        match name_from(names, from, name) {
            Some(i) => from <= i < names.len() && names[i] == name,
            None => forall|j: int| from <= j < names.len() ==> names[j] != name,
        },
    decreases names.len() - from,
{
    if from < names.len() && names[from] != name {
        lemma_name_from(names, from + 1, name);
    }
}

/// A name has a position in a list exactly when it is in it.
pub proof fn lemma_named(names: Seq<Seq<char>>, name: Seq<char>)
    ensures
        names.contains(name) <==> name_from(names, 0, name) is Some,
{
    lemma_name_from(names, 0, name);
}

/// Finds a name in a list.
pub fn find_name(names: &Vec<String>, name: &str) -> (r: Option<usize>)
    ensures
        match r {
            Some(i) => i < names@.len() && name_from(crate::text::views(names@), 0, name@) == Some(
                i as int,
            ),
            None => name_from(crate::text::views(names@), 0, name@) is None,
        },
        r is Some <==> crate::text::views(names@).contains(name@),
{
    let ghost views = crate::text::views(names@);
    proof {
        lemma_named(views, name@);
    }
    let mut i: usize = 0;
    while i < names.len()
        invariant
            i <= names@.len(),
            views == crate::text::views(names@),
            name_from(views, 0, name@) == name_from(views, i as int, name@),
        decreases names@.len() - i,
    {
        if same(&names[i], name) {
            return Some(i);
        }
        i = i + 1;
    }
    None
}

/// Copies a list of names.
pub fn copy_names(names: &Vec<String>) -> (r: Vec<String>)
    ensures
        crate::text::views(r@) == crate::text::views(names@),
{
    let mut out: Vec<String> = Vec::new();
    for i in 0..names.len()
        invariant
            out@.len() == i,
            forall|j: int| 0 <= j < i ==> (#[trigger] out@[j])@ == names@[j]@,
    {
        out.push(names[i].clone());
    }
    assert(crate::text::views(out@) =~= crate::text::views(names@));
    out
}

/// Splits a list into the names that start with `prefix` and the others.
pub fn split_by_prefix(names: &Vec<String>, prefix: &str) -> (r: (Vec<String>, Vec<String>))
    ensures
        crate::text::views(r.0@) == crate::text::views(names@).filter(
            |n: Seq<char>| prefix@.is_prefix_of(n),
        ),
        crate::text::views(r.1@) == crate::text::views(names@).filter(
            |n: Seq<char>| !prefix@.is_prefix_of(n),
        ),
{
    let ghost views = crate::text::views(names@);
    let ghost inside = |n: Seq<char>| prefix@.is_prefix_of(n);
    let ghost outside = |n: Seq<char>| !prefix@.is_prefix_of(n);
    let mut with: Vec<String> = Vec::new();
    let mut without: Vec<String> = Vec::new();
    assert(views.take(0) =~= Seq::<Seq<char>>::empty());
    proof {
        reveal(Seq::filter);
        assert(crate::text::views(with@) =~= views.take(0).filter(inside));
        assert(crate::text::views(without@) =~= views.take(0).filter(outside));
    }
    let mut i: usize = 0;
    while i < names.len()
        invariant
            i <= names@.len(),
            views == crate::text::views(names@),
            inside == (|n: Seq<char>| prefix@.is_prefix_of(n)),
            outside == (|n: Seq<char>| !prefix@.is_prefix_of(n)),
            crate::text::views(with@) == views.take(i as int).filter(inside),
            crate::text::views(without@) == views.take(i as int).filter(outside),
        decreases names@.len() - i,
    {
        let ghost w = with@;
        let ghost o = without@;
        proof {
            reveal(Seq::filter);
            assert(views.take(i + 1).drop_last() =~= views.take(i as int));
            assert(views.take(i + 1).last() == names@[i as int]@);
        }
        let name = names[i].clone();
        if starts_with(&name, prefix) {
            with.push(name);
            assert(crate::text::views(with@) =~= crate::text::views(w).push(name@));
        } else {
            without.push(name);
            assert(crate::text::views(without@) =~= crate::text::views(o).push(name@));
        }
        i = i + 1;
    }
    assert(views.take(views.len() as int) =~= views);
    (with, without)
}

/// Leaving names out of a list does not make any occur twice.
pub proof fn lemma_filter_distinct(names: Seq<Seq<char>>, keep: spec_fn(Seq<char>) -> bool)
    requires
        distinct(names),
    ensures
        distinct(names.filter(keep)),
    decreases names.len(),
{
    reveal(Seq::filter);
    if names.len() > 0 {
        let front = names.drop_last();
        lemma_filter_distinct(front, keep);
        if keep(names.last()) {
            let kept = front.filter(keep);
            assert forall|i: int| 0 <= i < kept.len() implies kept[i] != names.last() by {
                assert(front.filter(keep).contains(kept[i]));
                assert(front.contains(kept[i])) by {
                    lemma_filter_within(front, keep, kept[i]);
                }
                let j = choose|j: int| 0 <= j < front.len() && front[j] == kept[i];
                assert(names[j] == front[j]);
            }
        }
    }
}

/// What is left of a list was in it.
pub proof fn lemma_filter_within<T>(s: Seq<T>, keep: spec_fn(T) -> bool, x: T)
    ensures
        s.filter(keep).contains(x) <==> s.contains(x) && keep(x),
    decreases s.len(),
{
    reveal(Seq::filter);
    if s.len() > 0 {
        let front = s.drop_last();
        lemma_filter_within(front, keep, x);
        let kept = front.filter(keep);
        if s.contains(x) {
            let j = choose|j: int| 0 <= j < s.len() && s[j] == x;
            if j < s.len() - 1 {
                assert(front[j] == x);
            }
        }
        if front.contains(x) {
            let j = choose|j: int| 0 <= j < front.len() && front[j] == x;
            assert(s[j] == x);
        }
        if keep(s.last()) {
            let all = kept.push(s.last());
            assert(s.filter(keep) == all);
            if kept.contains(x) {
                let j = choose|j: int| 0 <= j < kept.len() && kept[j] == x;
                assert(all[j] == x);
            }
            if x == s.last() {
                assert(all[all.len() - 1] == x);
                assert(s[s.len() - 1] == x);
            }
            if all.contains(x) && x != s.last() {
                let j = choose|j: int| 0 <= j < all.len() && all[j] == x;
                assert(kept[j] == x);
            }
        }
    }
}

/// Filtering looks at the first element, then at the rest.
pub proof fn lemma_filter_first<T>(s: Seq<T>, keep: spec_fn(T) -> bool)
    requires
        s.len() > 0,
    ensures
        s.filter(keep) == (if keep(s[0]) {
            seq![s[0]] + s.skip(1).filter(keep)
        } else {
            s.skip(1).filter(keep)
        }),
    decreases s.len(),
{
    reveal(Seq::filter);
    if s.len() == 1 {
        assert(s.drop_last() =~= Seq::<T>::empty());
        assert(s.skip(1) =~= Seq::<T>::empty());
        assert(Seq::<T>::empty().filter(keep) =~= Seq::<T>::empty());
        assert(s.filter(keep) =~= (if keep(s[0]) {
            seq![s[0]] + s.skip(1).filter(keep)
        } else {
            s.skip(1).filter(keep)
        }));
    } else {
        lemma_filter_first(s.drop_last(), keep);
        assert(s.drop_last().skip(1) =~= s.skip(1).drop_last());
        assert(s.filter(keep) =~= (if keep(s[0]) {
            seq![s[0]] + s.skip(1).filter(keep)
        } else {
            s.skip(1).filter(keep)
        }));
    }
}

/// A name is found at its first place, and only if it is there.
pub proof fn law_names_are_found_at_their_first_place(names: Seq<Seq<char>>, i: int, name: Seq<char>)
    requires
        0 <= i < names.len(),
        forall|j: int| 0 <= j < i ==> names[j] != names[i],
    ensures
        name_from(names, 0, names[i]) == Some(i),
        !names.contains(name) ==> name_from(names, 0, name) is None,
{
    lemma_first_name(names, 0, i);
    lemma_name_from(names, 0, name);
}

proof fn lemma_first_name(names: Seq<Seq<char>>, from: int, i: int)
    requires
        0 <= from <= i < names.len(),
        forall|j: int| from <= j < i ==> names[j] != names[i],
    ensures
        name_from(names, from, names[i]) == Some(i),
    decreases i - from,
{
    if from < i {
        lemma_first_name(names, from + 1, i);
    }
}

/// Names are distinct if no two places hold the same one.
pub proof fn law_distinct_names_stand_once(names: Seq<Seq<char>>, i: int, j: int)
    requires
        distinct(names),
        0 <= i < names.len(),
        0 <= j < names.len(),
        names[i] == names[j],
    ensures
        i == j,
{
}

} // verus!
