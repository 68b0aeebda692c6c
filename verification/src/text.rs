//! Small helpers on owned strings and their views.
use vstd::prelude::*;

verus! {

/// The views of a sequence of strings.
pub open spec fn texts(strings: Seq<String>) -> Seq<Seq<char>> {
    strings.map_values(|s: String| s@)
}

/// Whether the entry at `index` repeats an earlier entry.
pub open spec fn repeats_at<A>(entries: Seq<A>, index: int) -> bool {
    &&& 0 <= index < entries.len()
    &&& exists|earlier: int| 0 <= earlier < index && #[trigger] entries[earlier] == entries[index]
}

/// Whether `index` is the first position of `entries` that repeats an
/// earlier entry.
pub open spec fn first_repeat<A>(entries: Seq<A>, index: int) -> bool {
    &&& repeats_at(entries, index)
    &&& forall|before: int| 0 <= before < index ==> !#[trigger] repeats_at(entries, before)
}

/// Whether no entry occurs twice.
pub open spec fn all_distinct<A>(entries: Seq<A>) -> bool {
    forall|index: int| 0 <= index < entries.len() ==> !#[trigger] repeats_at(entries, index)
}

/// The first position that repeats an earlier entry, if there is one.
pub open spec fn first_repeat_of<A>(entries: Seq<A>) -> Option<int> {
    if exists|index: int| first_repeat(entries, index) {
        Some(choose|index: int| first_repeat(entries, index))
    } else {
        None
    }
}

/// There is at most one first repeat, and none exactly where the entries
/// are distinct.
pub proof fn lemma_first_repeat_of<A>(entries: Seq<A>)
    ensures
        forall|index: int| first_repeat(entries, index) ==> first_repeat_of(entries) == Some(index),
        all_distinct(entries) <==> first_repeat_of(entries) is None,
{
    assert forall|index: int| first_repeat(entries, index) implies first_repeat_of(entries) == Some(
        index,
    ) by {
        let chosen = choose|other: int| first_repeat(entries, other);
        if chosen < index {
            assert(repeats_at(entries, chosen));
        } else if index < chosen {
            assert(repeats_at(entries, index));
        }
    }
    if !all_distinct(entries) {
        lemma_some_first_repeat(entries, entries.len() as int);
    }
}

/// Where some entry before `upto` repeats an earlier one, a first such
/// entry exists.
proof fn lemma_some_first_repeat<A>(entries: Seq<A>, upto: int)
    requires
        0 <= upto <= entries.len(),
        exists|index: int| 0 <= index < upto && repeats_at(entries, index),
    ensures
        exists|index: int| first_repeat(entries, index),
    decreases upto,
{
    if exists|index: int| 0 <= index < upto - 1 && repeats_at(entries, index) {
        lemma_some_first_repeat(entries, upto - 1);
    } else {
        assert(repeats_at(entries, upto - 1));
        assert(first_repeat(entries, upto - 1));
    }
}

/// Distinct entries differ at any two positions.
pub proof fn lemma_all_distinct_pairs<A>(entries: Seq<A>)
    ensures
        all_distinct(entries) <==> (forall|i: int, j: int|
            0 <= i < j < entries.len() ==> #[trigger] entries[i] != #[trigger] entries[j]),
{
    if all_distinct(entries) {
        assert forall|i: int, j: int| 0 <= i < j < entries.len() implies #[trigger] entries[i]
            != #[trigger] entries[j] by {
            assert(!repeats_at(entries, j));
        }
    }
}

/// Where four sequences in a row hold no entry twice, the first and the
/// third in a row hold none twice, and the second and the third share no
/// entry.
pub proof fn lemma_distinct_parts<A>(first: Seq<A>, second: Seq<A>, third: Seq<A>, rest: Seq<A>)
    requires
        all_distinct(first + second + third + rest),
    ensures
        all_distinct(first + third),
        forall|i: int, j: int|
            0 <= i < second.len() && 0 <= j < third.len() ==> #[trigger] second[i]
                != #[trigger] third[j],
{
    let whole = first + second + third + rest;
    lemma_all_distinct_pairs(whole);
    lemma_all_distinct_pairs(first + third);
    assert forall|i: int, j: int| 0 <= i < j < (first + third).len() implies #[trigger] (first
        + third)[i] != #[trigger] (first + third)[j] by {
        let from = if i < first.len() {
            i
        } else {
            i + second.len()
        };
        let to = if j < first.len() {
            j
        } else {
            j + second.len()
        };
        assert(whole[from] == (first + third)[i]);
        assert(whole[to] == (first + third)[j]);
    }
    assert forall|i: int, j: int|
        0 <= i < second.len() && 0 <= j < third.len() implies #[trigger] second[i]
        != #[trigger] third[j] by {
        assert(whole[first.len() + i] == second[i]);
        assert(whole[first.len() + second.len() + j] == third[j]);
    }
}

/// Whether `name` occurs among the first `upto` of `names`.
pub fn occurs_before(names: &Vec<String>, upto: usize, name: &String) -> (found: bool)
    requires
        upto <= names.len(),
    ensures
        found == exists|earlier: int| 0 <= earlier < upto && #[trigger] names[earlier]@ == name@,
{
    let mut at: usize = 0;
    while at < upto
        invariant
            at <= upto <= names.len(),
            forall|earlier: int| 0 <= earlier < at ==> #[trigger] names[earlier]@ != name@,
        decreases upto - at,
    {
        if names[at] == *name {
            return true;
        }
        at += 1;
    }
    false
}

/// The first position of `names` that repeats an earlier name, if any.
pub fn find_first_repeat(names: &Vec<String>) -> (found: Option<usize>)
    ensures
        match found {
            Some(index) => first_repeat(texts(names@), index as int),
            None => all_distinct(texts(names@)),
        },
        first_repeat_of(texts(names@)) == (match found {
            Some(index) => Some(index as int),
            None => None,
        }),
{
    proof {
        lemma_first_repeat_of(texts(names@));
    }
    let mut at: usize = 0;
    while at < names.len()
        invariant
            at <= names.len(),
            forall|before: int| 0 <= before < at ==> !#[trigger] repeats_at(texts(names@), before),
        decreases names.len() - at,
    {
        if occurs_before(names, at, &names[at]) {
            proof {
                let earlier = choose|earlier: int|
                    0 <= earlier < at && #[trigger] names[earlier]@ == names[at as int]@;
                assert(texts(names@)[earlier] == texts(names@)[at as int]);
            }
            return Some(at);
        }
        proof {
            assert(!repeats_at(texts(names@), at as int)) by {
                if repeats_at(texts(names@), at as int) {
                    let earlier = choose|earlier: int|
                        0 <= earlier < at && #[trigger] texts(names@)[earlier] == texts(names@)[at as int];
                    assert(names[earlier]@ == names[at as int]@);
                }
            }
        }
        at += 1;
    }
    None
}

} // verus!
