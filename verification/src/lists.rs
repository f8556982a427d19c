//! Lists in which nothing stands twice.
//!
//! The registries keep the tokens of an account, the operators of an owner
//! and the holders of a role in plain vectors, in the order in which the
//! entries came. This module holds what is needed to use such a vector as a
//! set that remembers its order.

use vstd::prelude::*;

verus! {

/// The strings of `s`, each as its sequence of characters.
pub open spec fn texts(s: Seq<String>) -> Seq<Seq<char>> {
    s.map_values(|x: String| x@)
}

/// `s` with the occurrence of `t` taken out; `s` itself where `t` does not
/// occur.
pub open spec fn without(s: Seq<u64>, t: u64) -> Seq<u64> {
    if s.contains(t) {
        s.remove(s.index_of(t))
    } else {
        s
    }
}

/// Pushing an element that does not occur yet keeps a sequence free of
/// duplicates and adds just that element to what it contains.
pub proof fn lemma_push_new<A>(s: Seq<A>, x: A)
    requires
        s.no_duplicates(),
        !s.contains(x),
    ensures
        s.push(x).no_duplicates(),
        forall|y: A| #[trigger] s.push(x).contains(y) <==> (s.contains(y) || y == x),
        s.push(x).to_set() == s.to_set().insert(x),
{
    let r = s.push(x);
    assert forall|i: int, j: int| 0 <= i < r.len() && 0 <= j < r.len() && i != j implies r[i]
        != r[j] by {
        if i < s.len() {
            assert(r[i] == s[i]);
        }
        if j < s.len() {
            assert(r[j] == s[j]);
        }
    }
    assert forall|y: A| #[trigger] r.contains(y) <==> (s.contains(y) || y == x) by {
        if r.contains(y) {
            let i = choose|i: int| 0 <= i < r.len() && r[i] == y;
            if i < s.len() {
                assert(s[i] == y);
            }
        }
        if s.contains(y) {
            let i = choose|i: int| 0 <= i < s.len() && s[i] == y;
            assert(r[i] == y);
        }
        if y == x {
            assert(r[s.len() as int] == y);
        }
    }
    assert(r.to_set() =~= s.to_set().insert(x));
}

/// Removing an index keeps a sequence free of duplicates and takes just the
/// element at that index out of what it contains.
pub proof fn lemma_remove_at<A>(s: Seq<A>, k: int)
    requires
        s.no_duplicates(),
        0 <= k < s.len(),
    ensures
        s.remove(k).no_duplicates(),
        s.remove(k).len() == s.len() - 1,
        forall|y: A| #[trigger] s.remove(k).contains(y) <==> (s.contains(y) && y != s[k]),
        s.remove(k).to_set() == s.to_set().remove(s[k]),
{
    let r = s.remove(k);
    s.remove_ensures(k);
    assert forall|i: int, j: int| 0 <= i < r.len() && 0 <= j < r.len() && i != j implies r[i]
        != r[j] by {
        let si = if i < k { i } else { i + 1 };
        let sj = if j < k { j } else { j + 1 };
        assert(r[i] == s[si]);
        assert(r[j] == s[sj]);
    }
    assert forall|y: A| #[trigger] r.contains(y) <==> (s.contains(y) && y != s[k]) by {
        if r.contains(y) {
            let i = choose|i: int| 0 <= i < r.len() && r[i] == y;
            let si = if i < k { i } else { i + 1 };
            assert(r[i] == s[si]);
        }
        if s.contains(y) && y != s[k] {
            let j = choose|j: int| 0 <= j < s.len() && s[j] == y;
            let ri = if j < k { j } else { j - 1 };
            assert(r[ri] == s[j]);
        }
    }
    assert(r.to_set() =~= s.to_set().remove(s[k]));
}

/// What `without` does to a sequence in which nothing occurs twice: the
/// result has no duplicates either, holds what `s` held but for `t`, and is
/// shorter by one exactly when `t` occurred.
pub proof fn lemma_without(s: Seq<u64>, t: u64)
    requires
        s.no_duplicates(),
    ensures
        without(s, t).no_duplicates(),
        forall|x: u64| #[trigger] without(s, t).contains(x) <==> (s.contains(x) && x != t),
        without(s, t).len() == if s.contains(t) { s.len() - 1 } else { s.len() as int },
{
    if s.contains(t) {
        lemma_remove_at(s, s.index_of(t));
    }
}

/// Where `t` stands at index `k` of a sequence without duplicates, `without`
/// removes exactly that index.
pub proof fn lemma_without_at(s: Seq<u64>, t: u64, k: int)
    requires
        s.no_duplicates(),
        0 <= k < s.len(),
        s[k] == t,
    ensures
        without(s, t) == s.remove(k),
{
    assert(s.contains(t));
    let j = s.index_of(t);
    assert(0 <= j < s.len() && s[j] == t);
}

/// The first index at which `name` stands in `list`, if it stands there.
pub fn position_of_name(list: &Vec<String>, name: &String) -> (r: Option<usize>)
    ensures
        match r {
            Some(k) => k < list.len() && texts(list@)[k as int] == name@ && texts(
                list@,
            ).contains(name@) && forall|j: int| 0 <= j < k ==> texts(list@)[j] != name@,
            None => !texts(list@).contains(name@),
        },
{
    let mut i: usize = 0;
    while i < list.len()
        invariant
            i <= list.len(),
            forall|j: int| 0 <= j < i ==> list[j]@ != name@,
        decreases list.len() - i,
    {
        if list[i] == *name {
            assert(texts(list@)[i as int] == name@);
            return Some(i);
        }
        i += 1;
    }
    assert(!texts(list@).contains(name@)) by {
        if texts(list@).contains(name@) {
            let j = choose|j: int| 0 <= j < texts(list@).len() && texts(list@)[j] == name@;
            assert(list[j]@ == name@);
        }
    }
    None
}

/// The first index at which `token_id` stands in `list`, if it stands there.
pub fn position_of_token(list: &Vec<u64>, token_id: u64) -> (r: Option<usize>)
    ensures
        match r {
            Some(k) => k < list.len() && list[k as int] == token_id && forall|j: int|
                0 <= j < k ==> list[j] != token_id,
            None => !list@.contains(token_id),
        },
{
    let mut i: usize = 0;
    while i < list.len()
        invariant
            i <= list.len(),
            forall|j: int| 0 <= j < i ==> list[j] != token_id,
        decreases list.len() - i,
    {
        if list[i] == token_id {
            return Some(i);
        }
        i += 1;
    }
    None
}

/// A copy of `list`, string by string.
pub fn copy_names(list: &Vec<String>) -> (r: Vec<String>)
    ensures
        texts(r@) == texts(list@),
{
    let mut out: Vec<String> = Vec::new();
    let mut i: usize = 0;
    while i < list.len()
        invariant
            i <= list.len(),
            out.len() == i,
            forall|j: int| 0 <= j < i ==> out[j]@ == list[j]@,
        decreases list.len() - i,
    {
        out.push(list[i].clone());
        i += 1;
    }
    assert(texts(out@) =~= texts(list@));
    out
}

/// A copy of `list`.
pub fn copy_tokens(list: &Vec<u64>) -> (r: Vec<u64>)
    ensures
        r@ == list@,
{
    let mut out: Vec<u64> = Vec::new();
    let mut i: usize = 0;
    while i < list.len()
        invariant
            i <= list.len(),
            out.len() == i,
            forall|j: int| 0 <= j < i ==> out[j] == list[j],
        decreases list.len() - i,
    {
        out.push(list[i]);
        i += 1;
    }
    assert(out@ =~= list@);
    out
}

/// Puts `name` at the end of `list` unless it stands there already; says
/// whether it was added.
pub fn add_name(list: &mut Vec<String>, name: &String) -> (added: bool)
    requires
        texts(old(list)@).no_duplicates(),
    ensures
        texts(final(list)@).no_duplicates(),
        added == !texts(old(list)@).contains(name@),
        texts(final(list)@) == if added {
            texts(old(list)@).push(name@)
        } else {
            texts(old(list)@)
        },
        texts(final(list)@).to_set() == texts(old(list)@).to_set().insert(name@),
{
    if position_of_name(list, name).is_some() {
        assert(texts(list@).to_set() =~= texts(list@).to_set().insert(name@));
        return false;
    }
    proof {
        lemma_push_new(texts(list@), name@);
        assert(texts(list@.push(*name)) =~= texts(list@).push(name@));
    }
    list.push(name.clone());
    true
}

/// Takes `name` out of `list` if it stands there; says whether it was taken
/// out. The order of the others stays.
pub fn remove_name(list: &mut Vec<String>, name: &String) -> (removed: bool)
    requires
        texts(old(list)@).no_duplicates(),
    ensures
        texts(final(list)@).no_duplicates(),
        removed == texts(old(list)@).contains(name@),
        forall|x: Seq<char>| #[trigger]
            texts(final(list)@).contains(x) <==> (texts(old(list)@).contains(x) && x != name@),
        texts(final(list)@).to_set() == texts(old(list)@).to_set().remove(name@),
{
    match position_of_name(list, name) {
        Some(k) => {
            proof {
                lemma_remove_at(texts(list@), k as int);
                assert(texts(list@.remove(k as int)) =~= texts(list@).remove(k as int));
            }
            list.remove(k);
            true
        },
        None => {
            assert(texts(list@).to_set() =~= texts(list@).to_set().remove(name@));
            false
        },
    }
}

/// Takes `token_id` out of `list` if it stands there; says whether it was
/// taken out. The order of the others stays.
pub fn remove_token(list: &mut Vec<u64>, token_id: u64) -> (removed: bool)
    requires
        old(list)@.no_duplicates(),
    ensures
        final(list)@.no_duplicates(),
        removed == old(list)@.contains(token_id),
        final(list)@ == without(old(list)@, token_id),
{
    proof {
        lemma_without(list@, token_id);
    }
    match position_of_token(list, token_id) {
        Some(k) => {
            proof {
                lemma_without_at(list@, token_id, k as int);
            }
            list.remove(k);
            true
        },
        None => false,
    }
}

} // verus!
