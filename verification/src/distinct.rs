//! Keeping the first of several items that share a key.

use vstd::prelude::*;

verus! {

/// Some item of `s` has the key `k`.
pub open spec fn has_key<T, K>(s: Seq<T>, key: spec_fn(T) -> K, k: K) -> bool {
    exists|i: int| 0 <= i < s.len() && #[trigger] key(s[i]) == k
}

/// No two items of `s` share a key.
pub open spec fn distinct_keys<T, K>(s: Seq<T>, key: spec_fn(T) -> K) -> bool {
    forall|i: int, j: int| 0 <= i < j < s.len() ==> #[trigger] key(s[i]) != #[trigger] key(s[j])
}

/// The items of `s` whose key no earlier item has, in their order: of several
/// items with one key the first stays.
pub open spec fn keep_first<T, K>(s: Seq<T>, key: spec_fn(T) -> K) -> Seq<T>
    decreases s.len(),
{
    if s.len() == 0 {
        Seq::empty()
    } else {
        let front = keep_first(s.drop_last(), key);
        if has_key(s.drop_last(), key, key(s.last())) {
            front
        } else {
            front.push(s.last())
        }
    }
}

/// The set of keys that occur in `s`.
pub open spec fn key_set<T, K>(s: Seq<T>, key: spec_fn(T) -> K) -> Set<K> {
    Set::new(|k: K| has_key(s, key, k))
}

/// What [`keep_first`] keeps: no key twice, every key of the input, and only
/// items of the input.
pub proof fn lemma_keep_first<T, K>(s: Seq<T>, key: spec_fn(T) -> K)
    ensures
        distinct_keys(keep_first(s, key), key),
        forall|k: K| has_key(keep_first(s, key), key, k) <==> has_key(s, key, k),
        forall|i: int|
            0 <= i < keep_first(s, key).len() ==> s.contains(#[trigger] keep_first(s, key)[i]),
        keep_first(s, key).len() <= s.len(),
    decreases s.len(),
{
    let r = keep_first(s, key);
    if s.len() > 0 {
        let init = s.drop_last();
        let front = keep_first(init, key);
        lemma_keep_first(init, key);
        assert forall|k: K| has_key(r, key, k) <==> has_key(s, key, k) by {
            if has_key(r, key, k) {
                let i = choose|i: int| 0 <= i < r.len() && #[trigger] key(r[i]) == k;
                if i < front.len() {
                    assert(key(front[i]) == k);
                    assert(has_key(init, key, k));
                    let j = choose|j: int| 0 <= j < init.len() && #[trigger] key(init[j]) == k;
                    assert(key(s[j]) == k);
                } else {
                    assert(key(s[s.len() - 1]) == k);
                }
            }
            if has_key(s, key, k) {
                let j = choose|j: int| 0 <= j < s.len() && #[trigger] key(s[j]) == k;
                if j < init.len() {
                    assert(key(init[j]) == k);
                    assert(has_key(init, key, k));
                    assert(has_key(front, key, k));
                    let i = choose|i: int| 0 <= i < front.len() && #[trigger] key(front[i]) == k;
                    assert(key(r[i]) == k);
                } else if has_key(init, key, key(s.last())) {
                    assert(has_key(init, key, k));
                    assert(has_key(front, key, k));
                } else {
                    assert(key(r[r.len() - 1]) == k);
                }
            }
        }
        assert forall|i: int| 0 <= i < r.len() implies s.contains(#[trigger] r[i]) by {
            if i < front.len() {
                assert(init.contains(front[i]));
                let j = choose|j: int| 0 <= j < init.len() && init[j] == front[i];
                assert(s[j] == r[i]);
            } else {
                assert(s[s.len() - 1] == r[i]);
            }
        }
        assert forall|i: int, j: int| 0 <= i < j < r.len() implies #[trigger] key(r[i])
            != #[trigger] key(r[j]) by {
            if j >= front.len() {
                assert(key(front[i]) == key(r[i]));
                if key(r[i]) == key(r[j]) {
                    assert(has_key(front, key, key(s.last())));
                }
            } else {
                assert(key(front[i]) != key(front[j]));
            }
        }
    }
}

/// Keeping the first of each key changes nothing in a sequence that holds no
/// key twice.
pub proof fn lemma_keep_first_of_distinct<T, K>(s: Seq<T>, key: spec_fn(T) -> K)
    requires
        distinct_keys(s, key),
    ensures
        keep_first(s, key) == s,
    decreases s.len(),
{
    if s.len() > 0 {
        let init = s.drop_last();
        assert forall|i: int, j: int| 0 <= i < j < init.len() implies #[trigger] key(init[i])
            != #[trigger] key(init[j]) by {
            assert(key(s[i]) != key(s[j]));
        }
        lemma_keep_first_of_distinct(init, key);
        if has_key(init, key, key(s.last())) {
            let j = choose|j: int| 0 <= j < init.len() && #[trigger] key(init[j]) == key(s.last());
            assert(key(s[j]) != key(s[s.len() - 1]));
        }
        assert(keep_first(s, key) =~= s);
    } else {
        assert(keep_first(s, key) =~= s);
    }
}

/// The keys that [`keep_first`] keeps are those of its input, so two inputs
/// with the same keys, in whatever order, keep the same set of keys.
pub proof fn lemma_keep_first_key_set<T, K>(s: Seq<T>, key: spec_fn(T) -> K)
    ensures
        key_set(keep_first(s, key), key) == key_set(s, key),
{
    lemma_keep_first(s, key);
    assert(key_set(keep_first(s, key), key) =~= key_set(s, key));
}

/// A path paired with the label under which it is shown.
pub type EntryView = (Seq<char>, Seq<char>);

/// The path of an entry: the key by which entries are told apart.
pub open spec fn path_key() -> spec_fn(EntryView) -> Seq<char> {
    |e: EntryView| e.0
}

/// A text is its own key.
pub open spec fn text_key() -> spec_fn(Seq<char>) -> Seq<char> {
    |t: Seq<char>| t
}

/// Whether some entry of `entries` has the path `path`.
pub fn has_path(entries: &Vec<(String, String)>, path: &String) -> (r: bool)
    ensures
        r == has_key(entries.deep_view(), path_key(), path@),
{
    let mut i: usize = 0;
    while i < entries.len()
        invariant
            i <= entries.len(),
            forall|j: int| 0 <= j < i ==> entries.deep_view()[j].0 != path@,
        decreases entries.len() - i,
    {
        if entries[i].0 == *path {
            assert(path_key()(entries.deep_view()[i as int]) == path@);
            return true;
        }
        i += 1;
    }
    false
}

/// Whether `texts` holds `text`.
pub fn has_text(texts: &Vec<String>, text: &String) -> (r: bool)
    ensures
        r == has_key(texts.deep_view(), text_key(), text@),
{
    let mut i: usize = 0;
    while i < texts.len()
        invariant
            i <= texts.len(),
            forall|j: int| 0 <= j < i ==> texts.deep_view()[j] != text@,
        decreases texts.len() - i,
    {
        if texts[i] == *text {
            assert(text_key()(texts.deep_view()[i as int]) == text@);
            return true;
        }
        i += 1;
    }
    false
}

/// The entries with a path that no earlier entry has: of several entries for
/// one path the first stays, whatever its label.
pub fn distinct_entries(entries: &Vec<(String, String)>) -> (r: Vec<(String, String)>)
    ensures
        r.deep_view() == keep_first(entries.deep_view(), path_key()),
        distinct_keys(r.deep_view(), path_key()),
{
    let ghost all = entries.deep_view();
    let mut out: Vec<(String, String)> = Vec::new();
    let mut i: usize = 0;
    assert(all.take(0) =~= Seq::empty());
    assert(out.deep_view() =~= Seq::empty());
    while i < entries.len()
        invariant
            i <= entries.len(),
            all == entries.deep_view(),
            out.deep_view() == keep_first(all.take(i as int), path_key()),
        decreases entries.len() - i,
    {
        proof {
            lemma_keep_first(all.take(i as int), path_key());
            assert(all.take(i + 1).drop_last() =~= all.take(i as int));
            assert(all.take(i + 1).last() == all[i as int]);
        }
        let ghost before = out.deep_view();
        if !has_path(&out, &entries[i].0) {
            out.push((entries[i].0.clone(), entries[i].1.clone()));
            assert(out.deep_view() =~= before.push(all[i as int]));
        }
        i += 1;
    }
    proof {
        assert(all.take(i as int) =~= all);
        lemma_keep_first(all, path_key());
    }
    out
}

/// The texts that no earlier text equals, in their order.
pub fn distinct_texts(texts: &Vec<String>) -> (r: Vec<String>)
    ensures
        r.deep_view() == keep_first(texts.deep_view(), text_key()),
        distinct_keys(r.deep_view(), text_key()),
{
    let ghost all = texts.deep_view();
    let mut out: Vec<String> = Vec::new();
    let mut i: usize = 0;
    assert(all.take(0) =~= Seq::empty());
    assert(out.deep_view() =~= Seq::empty());
    while i < texts.len()
        invariant
            i <= texts.len(),
            all == texts.deep_view(),
            out.deep_view() == keep_first(all.take(i as int), text_key()),
        decreases texts.len() - i,
    {
        proof {
            lemma_keep_first(all.take(i as int), text_key());
            assert(all.take(i + 1).drop_last() =~= all.take(i as int));
            assert(all.take(i + 1).last() == all[i as int]);
        }
        let ghost before = out.deep_view();
        if !has_text(&out, &texts[i]) {
            out.push(texts[i].clone());
            assert(out.deep_view() =~= before.push(all[i as int]));
        }
        i += 1;
    }
    proof {
        assert(all.take(i as int) =~= all);
        lemma_keep_first(all, text_key());
    }
    out
}

} // verus!
