//! Lists of names without repetition: where a name stands in such a list.

use crate::text::same_text;
use vstd::prelude::*;
use vstd::string::*;

verus! {

/// Index of the first `key` in `keys`, or the length of `keys` if it holds none.
pub open spec fn position(keys: Seq<Seq<char>>, key: Seq<char>) -> int
    decreases keys.len(),
{
    if keys.len() == 0 {
        0
    } else if keys[0] == key {
        0
    } else {
        1 + position(keys.drop_first(), key)
    }
}

/// `keys` without its first `key`.
pub open spec fn without(keys: Seq<Seq<char>>, key: Seq<char>) -> Seq<Seq<char>> {
    if position(keys, key) < keys.len() {
        keys.remove(position(keys, key))
    } else {
        keys
    }
}

/// `keys` with `key` at its end, unless it holds `key` already.
pub open spec fn with(keys: Seq<Seq<char>>, key: Seq<char>) -> Seq<Seq<char>> {
    if position(keys, key) < keys.len() {
        keys
    } else {
        keys.push(key)
    }
}

pub proof fn lemma_position(keys: Seq<Seq<char>>, key: Seq<char>)
    ensures
        0 <= position(keys, key) <= keys.len(),
        position(keys, key) < keys.len() ==> keys[position(keys, key)] == key,
        forall|k: int| 0 <= k < position(keys, key) ==> keys[k] != key,
        position(keys, key) < keys.len() <==> keys.contains(key),
    decreases keys.len(),
{
    if keys.len() > 0 && keys[0] != key {
        let rest = keys.drop_first();
        lemma_position(rest, key);
        assert forall|k: int| 0 <= k < position(keys, key) implies keys[k] != key by {
            if k > 0 {
                assert(rest[k - 1] == keys[k]);
            }
        }
        if rest.contains(key) {
            let j = choose|j: int| 0 <= j < rest.len() && rest[j] == key;
            assert(keys[j + 1] == key);
        }
        if keys.contains(key) {
            let j = choose|j: int| 0 <= j < keys.len() && keys[j] == key;
            assert(rest[j - 1] == key);
        }
    } else if keys.len() > 0 {
        assert(keys[0] == key);
    }
}

/// Where a name stands once another name has been added at the end.
pub proof fn lemma_position_push(keys: Seq<Seq<char>>, key: Seq<char>, h: Seq<char>)
    ensures
        position(keys.push(key), h) == if position(keys, h) < keys.len() {
            position(keys, h)
        } else if h == key {
            keys.len() as int
        } else {
            keys.len() as int + 1
        },
    decreases keys.len(),
{
    let more = keys.push(key);
    if keys.len() > 0 {
        assert(more.drop_first() == keys.drop_first().push(key));
        assert(more[0] == keys[0]);
        if keys[0] != h {
            lemma_position_push(keys.drop_first(), key, h);
            assert(position(more, h) == 1 + position(more.drop_first(), h));
            assert(position(keys, h) == 1 + position(keys.drop_first(), h));
        } else {
            assert(position(more, h) == 0);
            assert(position(keys, h) == 0);
        }
    } else {
        assert(more[0] == key);
        assert(more.drop_first().len() == 0);
        assert(position(more.drop_first(), h) == 0);
        assert(position(keys, h) == 0);
    }
}

/// In a list without repetition a name stands where `position` finds it.
pub proof fn lemma_position_unique(keys: Seq<Seq<char>>, i: int)
    requires
        keys.no_duplicates(),
        0 <= i < keys.len(),
    ensures
        position(keys, keys[i]) == i,
{
    lemma_position(keys, keys[i]);
}

/// Adding a new name keeps a list free of repetition.
pub proof fn lemma_with_distinct(keys: Seq<Seq<char>>, key: Seq<char>)
    requires
        keys.no_duplicates(),
    ensures
        with(keys, key).no_duplicates(),
        with(keys, key).contains(key),
        forall|k: Seq<char>| keys.contains(k) ==> with(keys, key).contains(k),
{
    lemma_position(keys, key);
    let w = with(keys, key);
    if position(keys, key) >= keys.len() {
        assert(w[keys.len() as int] == key);
        assert forall|k: Seq<char>| keys.contains(k) implies w.contains(k) by {
            let j = choose|j: int| 0 <= j < keys.len() && keys[j] == k;
            assert(w[j] == k);
        }
    }
}

/// Taking a name out keeps a list free of repetition, and the name is gone.
pub proof fn lemma_without_distinct(keys: Seq<Seq<char>>, key: Seq<char>)
    requires
        keys.no_duplicates(),
    ensures
        without(keys, key).no_duplicates(),
        !without(keys, key).contains(key),
        forall|k: Seq<char>| k != key ==> (without(keys, key).contains(k) <==> keys.contains(k)),
        keys.contains(key) ==> without(keys, key).len() == keys.len() - 1,
{
    lemma_position(keys, key);
    let p = position(keys, key);
    let w = without(keys, key);
    if p < keys.len() {
        assert forall|i: int, j: int| 0 <= i < w.len() && 0 <= j < w.len() && i != j implies w[i]
            != w[j] by {
            let a = if i < p { i } else { i + 1 };
            let b = if j < p { j } else { j + 1 };
            assert(w[i] == keys[a] && w[j] == keys[b]);
        }
        if w.contains(key) {
            let j = choose|j: int| 0 <= j < w.len() && w[j] == key;
            let b = if j < p { j } else { j + 1 };
            assert(keys[b] == key);
        }
        assert forall|k: Seq<char>| k != key implies (w.contains(k) <==> keys.contains(k)) by {
            if w.contains(k) {
                let j = choose|j: int| 0 <= j < w.len() && w[j] == k;
                let b = if j < p { j } else { j + 1 };
                assert(keys[b] == k);
            }
            if keys.contains(k) {
                let j = choose|j: int| 0 <= j < keys.len() && keys[j] == k;
                let b = if j < p { j } else { j - 1 };
                assert(w[b] == k);
            }
        }
    }
}

/// Index of the first `key` in `keys`, or the length of `keys`.
pub fn find(keys: &Vec<String>, key: &str) -> (r: usize)
    ensures
        r == position(keys.deep_view(), key@),
        r <= keys.len(),
{
    let mut i: usize = 0;
    assert(keys.deep_view().subrange(0, keys.len() as int) == keys.deep_view());
    while i < keys.len()
        invariant
            i <= keys.len(),
            position(keys.deep_view(), key@) == i + position(
                keys.deep_view().subrange(i as int, keys.len() as int),
                key@,
            ),
        decreases keys.len() - i,
    {
        let ghost rest = keys.deep_view().subrange(i as int, keys.len() as int);
        assert(rest[0] == keys@[i as int]@);
        assert(rest.drop_first() == keys.deep_view().subrange(i + 1, keys.len() as int));
        if same_text(keys[i].as_str(), key) {
            return i;
        }
        i += 1;
    }
    assert(keys.deep_view().subrange(i as int, keys.len() as int).len() == 0);
    i
}

} // verus!
