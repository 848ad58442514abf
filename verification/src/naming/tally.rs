//! Counting equal names in one pass, with a table of buckets that is
//! indexed by a hash of the name.

use crate::naming::{group_rank, group_size, occurrences, rendered_of};
use crate::util::char_at;
use vstd::prelude::*;

verus! {

/// The hash of a name: every character in turn is mixed into the hash of
/// what stands before it.
spec fn name_hash(text: Seq<char>) -> u64
    decreases text.len(),
{
    if text.len() == 0 {
        0xcbf29ce484222325
    } else {
        mixed(name_hash(text.drop_last()), char_at(text, text.len() - 1))
    }
}

/// `hash` with the character `c` mixed in.
spec fn mixed(hash: u64, c: char) -> u64 {
    ((((hash ^ (c as u64)) as int) * 0x100000001b3) % 0x1_0000_0000_0000_0000) as u64
}

/// The bucket of a name in a table of `size` buckets.
spec fn slot_of(name: Seq<char>, size: int) -> int {
    (name_hash(name) as int) % size
}

/// Computes `name_hash`.
fn hash_of(text: &str) -> (hash: u64)
    ensures
        hash == name_hash(text@),
{
    let mut hash: u64 = 0xcbf29ce484222325;
    for c in it: text.chars()
        invariant
            it.seq() == text@,
            hash == name_hash(it.seq().take(it.index() as int)),
    {
        proof {
            let k = it.index() as int;
            assert(it.seq().take(k + 1).drop_last() =~= it.seq().take(k));
            assert(char_at(it.seq().take(k + 1), k) == c);
        }
        let wide: u128 = ((hash ^ (c as u64)) as u128) * 0x100000001b3u128;
        hash = (wide % 0x1_0000_0000_0000_0000u128) as u64;
    }
    proof {
        assert(text@.take(text@.len() as int) =~= text@);
    }
    hash
}

/// The table when the first `done` names are counted. Every index in a
/// bucket is that of a counted name whose hash leads to the bucket, and
/// holds in `counts` how often its name was counted; no two indices of a
/// bucket stand for the same name.
spec fn table_ok(
    buckets: Seq<Vec<usize>>,
    counts: Seq<usize>,
    names: Seq<Seq<char>>,
    done: int,
) -> bool {
    &&& buckets.len() == names.len()
    &&& counts.len() == names.len()
    &&& 0 <= done <= names.len()
    &&& forall|b: int, k: int|
        0 <= b < buckets.len() && 0 <= k < buckets[b]@.len() ==> {
            let leader = #[trigger] buckets[b]@[k] as int;
            &&& leader < done
            &&& slot_of(names[leader], names.len() as int) == b
            &&& counts[leader] == occurrences(names.take(done), names[leader])
        }
    &&& forall|b: int, k: int, l: int|
        0 <= b < buckets.len() && 0 <= k < l < buckets[b]@.len() ==> names[#[trigger] buckets[b]@[k] as int]
            != names[#[trigger] buckets[b]@[l] as int]
}

/// Whether `leader` is the index by which the table counts the name at
/// position `at`.
spec fn leads(buckets: Seq<Vec<usize>>, names: Seq<Seq<char>>, leader: int, at: int) -> bool {
    let bucket = buckets[slot_of(names[at], names.len() as int)]@;
    &&& 0 <= leader < names.len()
    &&& names[leader] == names[at]
    &&& exists|k: int| 0 <= k < bucket.len() && #[trigger] bucket[k] == leader
}

/// A name that stands at no position does not occur.
proof fn lemma_occurrences_none(names: Seq<Seq<char>>, name: Seq<char>)
    requires
        forall|j: int| 0 <= j < names.len() ==> #[trigger] names[j] != name,
    ensures
        occurrences(names, name) == 0,
    decreases names.len(),
{
    if names.len() > 0 {
        assert(names.last() == names[names.len() - 1]);
        assert forall|j: int| 0 <= j < names.drop_last().len() implies #[trigger] names.drop_last()[j]
            != name by {
            assert(names.drop_last()[j] == names[j]);
        }
        lemma_occurrences_none(names.drop_last(), name);
    }
}

/// One name more counts for itself and for no other name.
proof fn lemma_occurrences_next(names: Seq<Seq<char>>, name: Seq<char>, done: int)
    requires
        0 <= done < names.len(),
    ensures
        occurrences(names.take(done + 1), name) == occurrences(names.take(done), name) + if names[done]
            == name {
            1nat
        } else {
            0nat
        },
        occurrences(names.take(done), name) <= done,
    decreases done,
{
    assert(names.take(done + 1).drop_last() =~= names.take(done));
    if done > 0 {
        lemma_occurrences_next(names, name, done - 1);
    } else {
        assert(names.take(0) =~= Seq::<Seq<char>>::empty());
    }
}

/// The hash of a name leads to a bucket of the table.
proof fn lemma_slot_in_table(name: Seq<char>, size: int)
    requires
        size > 0,
    ensures
        0 <= slot_of(name, size) < size,
{
}

/// Counting a name whose leader `buckets[b][k]` is in the table adds one to
/// the count of that leader.
proof fn lemma_count_known_name(
    buckets: Seq<Vec<usize>>,
    counts: Seq<usize>,
    names: Seq<Seq<char>>,
    done: int,
    b: int,
    k: int,
)
    requires
        table_ok(buckets, counts, names, done),
        done < names.len() <= usize::MAX,
        b == slot_of(names[done], names.len() as int),
        0 <= k < buckets[b]@.len(),
        names[buckets[b]@[k] as int] == names[done],
    ensures
        counts[buckets[b]@[k] as int] < names.len(),
        table_ok(
            buckets,
            counts.update(
                buckets[b]@[k] as int,
                (counts[buckets[b]@[k] as int] + 1) as usize,
            ),
            names,
            done + 1,
        ),
{
    let size = names.len() as int;
    lemma_slot_in_table(names[done], size);
    let leader = buckets[b]@[k] as int;
    lemma_occurrences_next(names, names[leader], done);
    let after = counts.update(leader, (counts[leader] + 1) as usize);
    assert forall|c: int, l: int| 0 <= c < buckets.len() && 0 <= l < buckets[c]@.len() implies {
        let other = #[trigger] buckets[c]@[l] as int;
        &&& other < done + 1
        &&& slot_of(names[other], size) == c
        &&& after[other] == occurrences(names.take(done + 1), names[other])
    } by {
        let other = buckets[c]@[l] as int;
        lemma_occurrences_next(names, names[other], done);
        if other != leader {
            if names[other] == names[done] {
                assert(c == b);
                if l < k {
                    assert(names[buckets[b]@[l] as int] != names[buckets[b]@[k] as int]);
                } else {
                    assert(names[buckets[b]@[k] as int] != names[buckets[b]@[l] as int]);
                }
            }
        }
    }
}

/// Counting a name that no bucket holds yet makes its position a leader
/// with the count one. `grown` is the table with that position added to
/// the bucket of the name.
proof fn lemma_count_new_name(
    buckets: Seq<Vec<usize>>,
    grown: Seq<Vec<usize>>,
    counts: Seq<usize>,
    names: Seq<Seq<char>>,
    done: int,
    b: int,
)
    requires
        table_ok(buckets, counts, names, done),
        done < names.len() <= usize::MAX,
        b == slot_of(names[done], names.len() as int),
        forall|j: int| 0 <= j < done ==> #[trigger] names[j] != names[done],
        grown.len() == buckets.len(),
        grown[b]@ == buckets[b]@.push(done as usize),
        forall|c: int| 0 <= c < buckets.len() && c != b ==> #[trigger] grown[c] == buckets[c],
    ensures
        occurrences(names.take(done), names[done]) == 0,
        table_ok(grown, counts.update(done, 1), names, done + 1),
        leads(grown, names, done, done),
{
    let size = names.len() as int;
    lemma_slot_in_table(names[done], size);
    assert forall|j: int| 0 <= j < names.take(done).len() implies #[trigger] names.take(done)[j]
        != names[done] by {
        assert(names.take(done)[j] == names[j]);
    }
    lemma_occurrences_none(names.take(done), names[done]);
    lemma_occurrences_next(names, names[done], done);
    let after = counts.update(done, 1);
    assert forall|c: int, l: int| 0 <= c < grown.len() && 0 <= l < grown[c]@.len() implies {
        let other = #[trigger] grown[c]@[l] as int;
        &&& other < done + 1
        &&& slot_of(names[other], size) == c
        &&& after[other] == occurrences(names.take(done + 1), names[other])
    } by {
        if c == b && l == buckets[b]@.len() {
        } else {
            assert(grown[c]@[l] == buckets[c]@[l]);
            let other = buckets[c]@[l] as int;
            lemma_occurrences_next(names, names[other], done);
        }
    }
    assert forall|c: int, l: int, m: int|
        0 <= c < grown.len() && 0 <= l < m < grown[c]@.len() implies names[#[trigger] grown[c]@[l] as int]
        != names[#[trigger] grown[c]@[m] as int] by {
        assert(grown[c]@[l] == buckets[c]@[l]);
        if c == b && m == buckets[b]@.len() {
        } else {
            assert(grown[c]@[m] == buckets[c]@[m]);
        }
    }
    assert(grown[b]@[buckets[b]@.len() as int] == done);
}

/// A leader stays a leader when a bucket grows at its end.
proof fn lemma_leader_stays(
    buckets: Seq<Vec<usize>>,
    grown: Seq<Vec<usize>>,
    names: Seq<Seq<char>>,
    leader: int,
    at: int,
    b: int,
    added: usize,
)
    requires
        0 <= at < names.len(),
        buckets.len() == names.len(),
        leads(buckets, names, leader, at),
        0 <= b < buckets.len(),
        grown.len() == buckets.len(),
        grown[b]@ == buckets[b]@.push(added),
        forall|c: int| 0 <= c < buckets.len() && c != b ==> #[trigger] grown[c] == buckets[c],
    ensures
        leads(grown, names, leader, at),
{
    let size = names.len() as int;
    lemma_slot_in_table(names[at], size);
    let slot = slot_of(names[at], size);
    let bucket = buckets[slot]@;
    let k = choose|k: int| 0 <= k < bucket.len() && #[trigger] bucket[k] == leader;
    assert(grown[slot]@[k] == leader);
}

/// For every name its place among the names equal to it, and the number of
/// those names.
pub(crate) fn tally(entries: &Vec<(Option<Option<String>>, String)>) -> (r: (
    Vec<usize>,
    Vec<usize>,
))
    ensures
        r.0.len() == entries.len(),
        r.1.len() == entries.len(),
        forall|i: int|
            0 <= i < entries.len() ==> (#[trigger] r.0[i]) == group_rank(rendered_of(entries@), i),
        forall|i: int|
            0 <= i < entries.len() ==> (#[trigger] r.1[i]) == group_size(rendered_of(entries@), i),
{
    let n = entries.len();
    let ghost names = rendered_of(entries@);
    let mut buckets: Vec<Vec<usize>> = Vec::new();
    let mut counts: Vec<usize> = Vec::new();
    let mut filled: usize = 0;
    while filled < n
        invariant
            filled <= n,
            buckets.len() == filled,
            counts.len() == filled,
            forall|b: int| 0 <= b < filled ==> (#[trigger] buckets[b])@.len() == 0,
        decreases n - filled,
    {
        buckets.push(Vec::new());
        counts.push(0);
        filled += 1;
    }
    let mut leaders: Vec<usize> = Vec::new();
    let mut ranks: Vec<usize> = Vec::new();
    let mut i: usize = 0;
    proof {
        assert(names.len() == n);
    }
    while i < n
        invariant
            i <= n,
            n == entries.len(),
            names == rendered_of(entries@),
            table_ok(buckets@, counts@, names, i as int),
            leaders.len() == i,
            ranks.len() == i,
            forall|j: int| 0 <= j < i ==> leads(buckets@, names, (#[trigger] leaders[j]) as int, j),
            forall|j: int| 0 <= j < i ==> (#[trigger] ranks[j]) == group_rank(names, j),
        decreases n - i,
    {
        let hash = hash_of(entries[i].1.as_str());
        let b: usize = (hash % (n as u64)) as usize;
        proof {
            lemma_slot_in_table(names[i as int], n as int);
            assert(b == slot_of(names[i as int], n as int));
        }
        let mut k: usize = 0;
        let mut found: Option<usize> = None;
        while k < buckets[b].len() && found.is_none()
            invariant
                i < n,
                n == entries.len(),
                names == rendered_of(entries@),
                table_ok(buckets@, counts@, names, i as int),
                b < buckets.len(),
                k <= buckets[b as int]@.len(),
                forall|l: int| 0 <= l < k ==> names[(#[trigger] buckets[b as int]@[l]) as int] != names[i as int],
                found matches Some(leader) ==> k < buckets[b as int]@.len() && buckets[b as int]@[k as int]
                    == leader && names[leader as int] == names[i as int],
            decreases
                    buckets[b as int]@.len() - k + if found is None {
                        1int
                    } else {
                        0int
                    },
        {
            let leader = buckets[b][k];
            if entries[leader].1 == entries[i].1 {
                found = Some(leader);
            } else {
                k += 1;
            }
        }
        match found {
            Some(leader) => {
                proof {
                    lemma_count_known_name(buckets@, counts@, names, i as int, b as int, k as int);
                }
                ranks.push(counts[leader]);
                counts[leader] = counts[leader] + 1;
                leaders.push(leader);
                proof {
                    assert(buckets@[b as int]@[k as int] == leader);
                }
            },
            None => {
                let ghost before = buckets@;
                proof {
                    assert forall|j: int| 0 <= j < i implies #[trigger] names[j] != names[i as int] by {
                        if names[j] == names[i as int] {
                            let leader = leaders[j] as int;
                            let bucket = buckets@[slot_of(names[j], n as int)]@;
                            let l = choose|l: int| 0 <= l < bucket.len() && #[trigger] bucket[l] == leader;
                            assert(names[buckets@[b as int]@[l] as int] != names[i as int]);
                        }
                    }
                }
                ranks.push(0);
                counts[i] = 1;
                buckets[b].push(i);
                leaders.push(i);
                proof {
                    lemma_count_new_name(before, buckets@, counts@.update(i as int, 0), names, i as int, b as int);
                    assert forall|j: int| 0 <= j < i implies leads(
                        buckets@,
                        names,
                        (#[trigger] leaders[j]) as int,
                        j,
                    ) by {
                        lemma_leader_stays(before, buckets@, names, leaders[j] as int, j, b as int, i);
                    }
                }
            },
        }
        i += 1;
    }
    let mut sizes: Vec<usize> = Vec::new();
    let mut j: usize = 0;
    proof {
        assert(names.take(n as int) =~= names);
    }
    while j < n
        invariant
            j <= n,
            n == entries.len(),
            names == rendered_of(entries@),
            names.take(n as int) == names,
            table_ok(buckets@, counts@, names, n as int),
            leaders.len() == n,
            forall|m: int| 0 <= m < n ==> leads(buckets@, names, (#[trigger] leaders[m]) as int, m),
            sizes.len() == j,
            forall|m: int| 0 <= m < j ==> (#[trigger] sizes[m]) == group_size(names, m),
        decreases n - j,
    {
        proof {
            let leader = leaders[j as int] as int;
            assert(leads(buckets@, names, leader, j as int));
            let bucket = buckets@[slot_of(names[j as int], n as int)]@;
            lemma_slot_in_table(names[j as int], n as int);
            let l = choose|l: int| 0 <= l < bucket.len() && #[trigger] bucket[l] == leader;
            assert(buckets@[slot_of(names[j as int], n as int)]@[l] == leader);
        }
        sizes.push(counts[leaders[j]]);
        j += 1;
    }
    (ranks, sizes)
}

} // verus!
