//! Splitting a capture into seed files: hashing the messages and keeping the
//! first message of each hash.
use vstd::prelude::*;
use std::collections::HashSet;

verus! {

broadcast use vstd::std_specs::hash::group_hash_axioms;

/// The 64-bit XXH3 hash (seed 0, default secret) of `data`.
pub uninterp spec fn xxh3_64_of(data: Seq<u8>) -> u64;

/// Calls `xxhash_rust::xxh3::xxh3_64`, which hashes `data` with seed 0 and the
/// default secret. The contract claims only that the result is a function of
/// the bytes of `data` alone; the hash function itself is not stated.
#[verifier::external_body]
fn xxh3_64(data: &[u8]) -> (hash: u64)
    ensures
        hash == xxh3_64_of(data@),
{
    xxhash_rust::xxh3::xxh3_64(data)
}

/// The hash by which a message is recognised as a duplicate.
pub fn message_hash(message: &[u8]) -> (hash: u64)
    ensures
        hash == xxh3_64_of(message@),
{
    xxh3_64(message)
}

/// The hashes of `messages`, in order.
pub fn message_hashes(messages: &Vec<Vec<u8>>) -> (hashes: Vec<u64>)
    ensures
        hashes@.len() == messages@.len(),
        forall|i: int| 0 <= i < messages@.len() ==> #[trigger] hashes@[i] == xxh3_64_of(messages@[i]@),
{
    let mut hashes: Vec<u64> = Vec::new();
    let n = messages.len();
    for i in 0..n
        invariant
            n == messages@.len(),
            hashes@.len() == i,
            forall|j: int| 0 <= j < i ==> #[trigger] hashes@[j] == xxh3_64_of(messages@[j]@),
    {
        hashes.push(message_hash(messages[i].as_slice()));
    }
    hashes
}

/// The values of `s` at their first occurrence, in order.
pub open spec fn first_occurrences(s: Seq<u64>) -> Seq<u64>
    decreases s.len(),
{
    if s.len() == 0 {
        Seq::empty()
    } else {
        let prefix = first_occurrences(s.drop_last());
        if s.drop_last().contains(s.last()) {
            prefix
        } else {
            prefix.push(s.last())
        }
    }
}

/// First occurrences, value by value: none of the empty sequence; a value
/// seen before adds nothing; a new value is added at the end.
pub proof fn lemma_first_occurrences_push(s: Seq<u64>, x: u64)
    ensures
        first_occurrences(Seq::empty()).len() == 0,
        s.contains(x) ==> first_occurrences(s.push(x)) == first_occurrences(s),
        !s.contains(x) ==> first_occurrences(s.push(x)) == first_occurrences(s).push(x),
{
    assert(s.push(x).drop_last() =~= s);
}

/// The first occurrences of the values of `s` hold every value of `s` once.
pub proof fn lemma_first_occurrences(s: Seq<u64>)
    ensures
        first_occurrences(s).no_duplicates(),
        first_occurrences(s).to_set() == s.to_set(),
        first_occurrences(s).len() == s.to_set().len(),
    decreases s.len(),
{
    let f = first_occurrences(s);
    if s.len() > 0 {
        let p = s.drop_last();
        lemma_first_occurrences(p);
        let fp = first_occurrences(p);
        assert(s =~= p.push(s.last()));
        assert forall|x: u64| #[trigger] s.contains(x) <==> p.contains(x) || x == s.last() by {
            if s.contains(x) && x != s.last() {
                let k = choose|k: int| 0 <= k < s.len() && s[k] == x;
                assert(p[k] == x);
            }
            if p.contains(x) {
                let k = choose|k: int| 0 <= k < p.len() && p[k] == x;
                assert(s[k] == x);
            }
            if x == s.last() {
                assert(s[s.len() - 1] == x);
            }
        }
        if !p.contains(s.last()) {
            assert(fp.to_set().contains(s.last()) == p.to_set().contains(s.last()));
            assert(!fp.contains(s.last()));
            assert forall|x: u64| #[trigger] f.contains(x) <==> fp.contains(x) || x == s.last() by {
                if f.contains(x) && x != s.last() {
                    let k = choose|k: int| 0 <= k < f.len() && f[k] == x;
                    assert(fp[k] == x);
                }
                if fp.contains(x) {
                    let k = choose|k: int| 0 <= k < fp.len() && fp[k] == x;
                    assert(f[k] == x);
                }
                if x == s.last() {
                    assert(f[f.len() - 1] == x);
                }
            }
        }
        assert forall|x: u64| f.to_set().contains(x) == s.to_set().contains(x) by {
            assert(fp.to_set().contains(x) == p.to_set().contains(x));
        }
        assert(f.to_set() =~= s.to_set());
    } else {
        assert(f.to_set() =~= s.to_set());
    }
    f.unique_seq_to_set();
}

/// The distinct hashes of `hashes`, each at its first occurrence, in order.
pub fn unique_hashes(hashes: &Vec<u64>) -> (unique: Vec<u64>)
    ensures
        unique@ == first_occurrences(hashes@),
        unique@.no_duplicates(),
        unique@.to_set() == hashes@.to_set(),
        unique@.len() == hashes@.to_set().len(),
{
    let flags = first_occurrence_flags(hashes);
    let mut unique: Vec<u64> = Vec::new();
    let n = hashes.len();
    for i in 0..n
        invariant
            n == hashes@.len(),
            flags@.len() == n,
            forall|j: int|
                0 <= j < n ==> #[trigger] flags@[j] == !hashes@.take(j).contains(hashes@[j]),
            unique@ == first_occurrences(hashes@.take(i as int)),
    {
        assert(hashes@.take(i + 1).drop_last() =~= hashes@.take(i as int));
        assert(hashes@.take(i + 1).last() == hashes@[i as int]);
        if flags[i] {
            unique.push(hashes[i]);
        }
    }
    assert(hashes@.take(n as int) =~= hashes@);
    proof {
        lemma_first_occurrences(hashes@);
    }
    unique
}

/// For each hash, whether it is the first occurrence of its value.
pub fn first_occurrence_flags(hashes: &Vec<u64>) -> (flags: Vec<bool>)
    ensures
        flags@.len() == hashes@.len(),
        forall|i: int|
            0 <= i < hashes@.len() ==> #[trigger] flags@[i] == !hashes@.take(i).contains(
                hashes@[i],
            ),
{
    let mut seen: HashSet<u64> = HashSet::new();
    let mut flags: Vec<bool> = Vec::new();
    let n = hashes.len();
    for i in 0..n
        invariant
            n == hashes@.len(),
            flags@.len() == i,
            seen@ == hashes@.take(i as int).to_set(),
            forall|j: int|
                0 <= j < i ==> #[trigger] flags@[j] == !hashes@.take(j).contains(hashes@[j]),
    {
        let h = hashes[i];
        let first = seen.insert(h);
        proof {
            let t = hashes@.take(i as int);
            let t1 = hashes@.take(i + 1);
            assert(t1 =~= t.push(h));
            assert forall|x: u64| #[trigger] t1.contains(x) <==> t.contains(x) || x == h by {
                if t1.contains(x) && x != h {
                    let k = choose|k: int| 0 <= k < t1.len() && t1[k] == x;
                    assert(t[k] == x);
                }
                if t.contains(x) {
                    let k = choose|k: int| 0 <= k < t.len() && t[k] == x;
                    assert(t1[k] == x);
                }
                if x == h {
                    assert(t1[i as int] == x);
                }
            }
            assert(seen@ =~= t1.to_set());
        }
        flags.push(first);
    }
    flags
}

} // verus!
