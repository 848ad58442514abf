//! What holds of the counters of a group: they are the numbers below the
//! size of the group, each given once, and they lead to different names.

use crate::naming::{
    finalised, group_rank, group_size, occurrences, resolved, Counter, FinalName, NameError,
};
use crate::util::{
    counter_width, lemma_digits_at_most_value, lemma_digits_grow, lemma_zero_padded, zero_padded,
};
use vstd::prelude::*;

verus! {

/// A name occurs in a list no more often than the list is long.
pub proof fn lemma_occurrences_bound(names: Seq<Seq<char>>, name: Seq<char>)
    ensures
        occurrences(names, name) <= names.len(),
    decreases names.len(),
{
    if names.len() > 0 {
        lemma_occurrences_bound(names.drop_last(), name);
    }
}

/// Up to any position a name occurs no more often than up to a later one.
pub proof fn lemma_occurrences_grow(names: Seq<Seq<char>>, name: Seq<char>, i: int, j: int)
    requires
        0 <= i <= j <= names.len(),
    ensures
        occurrences(names.take(i), name) <= occurrences(names.take(j), name),
    decreases j - i,
{
    if i < j {
        lemma_occurrences_grow(names, name, i, j - 1);
        assert(names.take(j).drop_last() =~= names.take(j - 1));
    }
}

/// The name at a position occurs once more up to and with that position.
pub proof fn lemma_occurrences_step(names: Seq<Seq<char>>, i: int)
    requires
        0 <= i < names.len(),
    ensures
        occurrences(names.take(i + 1), names[i]) == occurrences(names.take(i), names[i]) + 1,
{
    assert(names.take(i + 1).drop_last() =~= names.take(i));
}

/// The places of a group lie below its size, and members that stand later
/// have later places: no two members share a place.
pub proof fn lemma_group_ranks_differ(names: Seq<Seq<char>>, name: Seq<char>)
    ensures
        forall|i: int|
            0 <= i < names.len() && names[i] == name ==> #[trigger] group_rank(names, i)
                < occurrences(names, name),
        forall|i: int, j: int|
            0 <= i < j < names.len() && names[i] == name && names[j] == name ==> #[trigger] group_rank(
                names,
                i,
            ) < #[trigger] group_rank(names, j),
{
    assert(names.take(names.len() as int) =~= names);
    assert forall|i: int| 0 <= i < names.len() && names[i] == name implies #[trigger] group_rank(
        names,
        i,
    ) < occurrences(names, name) by {
        lemma_occurrences_step(names, i);
        lemma_occurrences_grow(names, name, i + 1, names.len() as int);
    }
    assert forall|i: int, j: int|
        0 <= i < j < names.len() && names[i] == name && names[j] == name implies #[trigger] group_rank(
        names,
        i,
    ) < #[trigger] group_rank(names, j) by {
        lemma_occurrences_step(names, i);
        lemma_occurrences_grow(names, name, i + 1, j);
    }
}

/// Every number below the size of a group is the place of one of its
/// members, which this function returns: together with
/// `lemma_group_ranks_differ`, the places of a group of `n` names are
/// exactly the numbers from `0` to `n - 1`.
pub proof fn lemma_every_rank_is_taken(names: Seq<Seq<char>>, name: Seq<char>, ordinal: nat) -> (at:
    int)
    requires
        ordinal < occurrences(names, name),
    ensures
        0 <= at < names.len(),
        names[at] == name,
        group_rank(names, at) == ordinal,
    decreases names.len(),
{
    let shorter = names.drop_last();
    let last = names.len() - 1;
    assert(names.take(last) =~= shorter);
    if ordinal < occurrences(shorter, name) {
        let at = lemma_every_rank_is_taken(shorter, name, ordinal);
        assert(shorter.take(at) =~= names.take(at));
        at
    } else {
        last
    }
}

/// Two files of one group never get the same final name, whatever their
/// extensions are: their counters have the same width and stand for
/// different numbers.
pub proof fn lemma_group_members_get_different_names(
    names: Seq<Seq<char>>,
    first: int,
    second: int,
    first_extension: Option<Option<Seq<char>>>,
    second_extension: Option<Option<Seq<char>>>,
)
    requires
        names.len() <= usize::MAX,
        0 <= first < second < names.len(),
        names[first] == names[second],
        resolved(first_extension, names, first, true) is Ok,
        resolved(second_extension, names, second, true) is Ok,
    ensures
        resolved(first_extension, names, first, true)->Ok_0.text() != resolved(
            second_extension,
            names,
            second,
            true,
        )->Ok_0.text(),
{
    let name = names[first];
    let size = occurrences(names, name);
    let one = resolved(first_extension, names, first, true)->Ok_0;
    let two = resolved(second_extension, names, second, true)->Ok_0;
    lemma_group_ranks_differ(names, name);
    lemma_occurrences_bound(names, name);
    let low = group_rank(names, first);
    let high = group_rank(names, second);
    assert(low < high < size);
    let width = counter_width((size - 1) as nat);
    lemma_digits_at_most_value((size - 1) as nat);
    lemma_digits_grow(low, (size - 1) as nat);
    lemma_digits_grow(high, (size - 1) as nat);
    lemma_zero_padded(low, width);
    lemma_zero_padded(high, width);
    assert(one.counter == Some(Counter { ordinal: low as usize, width: width as usize }));
    assert(two.counter == Some(Counter { ordinal: high as usize, width: width as usize }));
    let start = name.len() as int + 1;
    let low_digits = zero_padded(low, width);
    let high_digits = zero_padded(high, width);
    assert(one.text().subrange(start, start + width) =~= low_digits);
    assert(two.text().subrange(start, start + width) =~= high_digits);
}

/// The text of the parts of a final name, or the reason why there are none.
pub open spec fn parts_text(parts: Result<FinalName, NameError>) -> Result<Seq<char>, NameError> {
    match parts {
        Ok(found) => Ok(found.text()),
        Err(error) => Err(error),
    }
}

/// Naming one file and naming all files agree: for a file at any position,
/// `finalised`, given the place of the file in its group and the width of
/// the group's counters, is the name that `resolved` gives. In particular
/// both refuse every member of a group as ambiguous where counters are
/// switched off.
pub proof fn lemma_finalised_is_resolved(
    names: Seq<Seq<char>>,
    at: int,
    extension: Option<Option<Seq<char>>>,
    enable_suffix: bool,
)
    requires
        names.len() <= usize::MAX,
        0 <= at < names.len(),
    ensures
        finalised(
            !enable_suffix,
            extension,
            names[at],
            group_rank(names, at),
            counter_width((group_size(names, at) - 1) as nat),
        ) == parts_text(resolved(extension, names, at, enable_suffix)),
{
    let name = names[at];
    let size = group_size(names, at);
    let rank = group_rank(names, at);
    lemma_group_ranks_differ(names, name);
    lemma_occurrences_bound(names, name);
    assert(rank < size <= names.len());
    let width = counter_width((size - 1) as nat);
    if size > 1 {
        lemma_digits_at_most_value((size - 1) as nat);
        if enable_suffix {
            let digits = zero_padded(rank, width);
            match extension {
                None => {
                    assert(name + seq!['_'] + digits =~= name + (seq!['_'] + digits)
                        + Seq::<char>::empty());
                },
                Some(None) => {},
                Some(Some(text)) => {
                    assert(name + seq!['_'] + digits + seq!['.'] + text =~= name + (seq!['_']
                        + digits) + (seq!['.'] + text));
                },
            }
        }
    } else {
        match extension {
            None => {
                assert(name =~= name + Seq::<char>::empty() + Seq::<char>::empty());
            },
            Some(None) => {},
            Some(Some(text)) => {
                assert(name + seq!['.'] + text =~= name + Seq::<char>::empty() + (seq!['.']
                    + text));
            },
        }
    }
}

} // verus!
