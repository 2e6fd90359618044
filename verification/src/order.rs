//! Stable insertion order: the order `sort_by_key` and `sort_by` give to a
//! list, stated as an insertion sort, and the exact positions where it puts
//! each element.
use vstd::prelude::*;

verus! {

/// `s` with `t` inserted before its first element that `t` strictly
/// precedes (after every element it does not precede).
pub open spec fn sorted_insert<T>(s: Seq<T>, t: T, precedes: spec_fn(T, T) -> bool) -> Seq<T>
    decreases s.len(),
{
    if s.len() == 0 {
        seq![t]
    } else if precedes(t, s[0]) {
        seq![t] + s
    } else {
        seq![s[0]] + sorted_insert(s.drop_first(), t, precedes)
    }
}

/// The stable order of `s` under the strict order `precedes`.
pub open spec fn stable_sort<T>(s: Seq<T>, precedes: spec_fn(T, T) -> bool) -> Seq<T>
    decreases s.len(),
{
    if s.len() == 0 {
        Seq::empty()
    } else {
        sorted_insert(stable_sort(s.drop_last(), precedes), s.last(), precedes)
    }
}

/// Inserting at the first element that `t` precedes.
pub proof fn lemma_sorted_insert_at<T>(s: Seq<T>, t: T, precedes: spec_fn(T, T) -> bool, k: int)
    requires
        0 <= k <= s.len(),
        forall|j: int| 0 <= j < k ==> !precedes(t, #[trigger] s[j]),
        k == s.len() || precedes(t, s[k]),
    ensures
        sorted_insert(s, t, precedes) == s.take(k).push(t) + s.skip(k),
    decreases k,
{
    if s.len() == 0 {
        assert(s.take(k).push(t) + s.skip(k) =~= seq![t]);
    } else if k == 0 {
        assert(s.take(0).push(t) + s.skip(0) =~= seq![t] + s);
    } else {
        let rest = s.drop_first();
        assert forall|j: int| 0 <= j < k - 1 implies !precedes(t, #[trigger] rest[j]) by {
            assert(rest[j] == s[j + 1]);
        }
        if k < s.len() {
            assert(rest[k - 1] == s[k]);
        }
        lemma_sorted_insert_at(rest, t, precedes, k - 1);
        assert(seq![s[0]] + (rest.take(k - 1).push(t) + rest.skip(k - 1)) =~= s.take(k).push(t)
            + s.skip(k));
    }
}

/// The stable order keeps the elements.
pub proof fn lemma_stable_sort_len<T>(s: Seq<T>, precedes: spec_fn(T, T) -> bool)
    ensures
        stable_sort(s, precedes).len() == s.len(),
    decreases s.len(),
{
    if s.len() > 0 {
        lemma_stable_sort_len(s.drop_last(), precedes);
        lemma_sorted_insert_len(stable_sort(s.drop_last(), precedes), s.last(), precedes);
    }
}

pub proof fn lemma_sorted_insert_len<T>(s: Seq<T>, t: T, precedes: spec_fn(T, T) -> bool)
    ensures
        sorted_insert(s, t, precedes).len() == s.len() + 1,
    decreases s.len(),
{
    if s.len() > 0 && !precedes(t, s[0]) {
        lemma_sorted_insert_len(s.drop_first(), t, precedes);
    }
}

/// Every element of the stable order comes from `s`.
pub proof fn lemma_stable_sort_members<T>(s: Seq<T>, precedes: spec_fn(T, T) -> bool)
    ensures
        forall|i: int|
            0 <= i < stable_sort(s, precedes).len() ==> s.contains(
                #[trigger] stable_sort(s, precedes)[i],
            ),
    decreases s.len(),
{
    if s.len() > 0 {
        let r = stable_sort(s.drop_last(), precedes);
        lemma_stable_sort_members(s.drop_last(), precedes);
        lemma_sorted_insert_members(r, s.last(), precedes);
        assert forall|i: int|
            0 <= i < stable_sort(s, precedes).len() implies s.contains(
            #[trigger] stable_sort(s, precedes)[i],
        ) by {
            let x = stable_sort(s, precedes)[i];
            if x == s.last() {
                assert(s[s.len() - 1] == x);
            } else {
                assert(r.contains(x));
                let j = choose|j: int| 0 <= j < r.len() && r[j] == x;
                assert(s.drop_last().contains(x));
                let k = choose|k: int| 0 <= k < s.drop_last().len() && s.drop_last()[k] == x;
                assert(s[k] == x);
            }
        }
    }
}

pub proof fn lemma_sorted_insert_members<T>(s: Seq<T>, t: T, precedes: spec_fn(T, T) -> bool)
    ensures
        forall|i: int|
            0 <= i < sorted_insert(s, t, precedes).len() ==> (#[trigger] sorted_insert(
                s,
                t,
                precedes,
            )[i] == t || s.contains(sorted_insert(s, t, precedes)[i])),
    decreases s.len(),
{
    lemma_sorted_insert_len(s, t, precedes);
    if s.len() > 0 && !precedes(t, s[0]) {
        let rest = s.drop_first();
        lemma_sorted_insert_members(rest, t, precedes);
        assert forall|i: int|
            0 <= i < sorted_insert(s, t, precedes).len() implies (#[trigger] sorted_insert(
            s,
            t,
            precedes,
        )[i] == t || s.contains(sorted_insert(s, t, precedes)[i])) by {
            if i > 0 {
                let x = sorted_insert(rest, t, precedes)[i - 1];
                assert(sorted_insert(s, t, precedes)[i] == x);
                if x != t {
                    let j = choose|j: int| 0 <= j < rest.len() && rest[j] == x;
                    assert(s[j + 1] == x);
                }
            } else {
                assert(s[0] == sorted_insert(s, t, precedes)[0]);
            }
        }
    } else if s.len() > 0 {
        assert forall|i: int|
            0 <= i < sorted_insert(s, t, precedes).len() implies (#[trigger] sorted_insert(
            s,
            t,
            precedes,
        )[i] == t || s.contains(sorted_insert(s, t, precedes)[i])) by {
            if i > 0 {
                assert(sorted_insert(s, t, precedes)[i] == s[i - 1]);
            }
        }
    }
}

/// No element of `s` strictly precedes one before it.
pub open spec fn sorted_by<T>(s: Seq<T>, precedes: spec_fn(T, T) -> bool) -> bool {
    forall|i: int, j: int| 0 <= i < j < s.len() ==> !precedes(#[trigger] s[j], #[trigger] s[i])
}

/// A strict order: irreflexive and transitive.
pub open spec fn strict_order<T>(precedes: spec_fn(T, T) -> bool) -> bool {
    &&& forall|a: T| !#[trigger] precedes(a, a)
    &&& forall|a: T, b: T, c: T| #[trigger] precedes(a, b) && #[trigger] precedes(b, c) ==> precedes(a, c)
}

proof fn lemma_sorted_insert_sorted<T>(s: Seq<T>, t: T, precedes: spec_fn(T, T) -> bool)
    requires
        strict_order(precedes),
        sorted_by(s, precedes),
    ensures
        sorted_by(sorted_insert(s, t, precedes), precedes),
    decreases s.len(),
{
    lemma_sorted_insert_len(s, t, precedes);
    let r = sorted_insert(s, t, precedes);
    if s.len() == 0 {
    } else if precedes(t, s[0]) {
        assert(r =~= seq![t] + s);
        assert forall|i: int, j: int| 0 <= i < j < r.len() implies !precedes(#[trigger] r[j], #[trigger] r[i]) by {
            if i == 0 {
                assert(r[j] == s[j - 1]);
                if precedes(s[j - 1], t) {
                    if j - 1 > 0 {
                        assert(!precedes(s[j - 1], s[0]));
                    }
                }
            } else {
                assert(r[i] == s[i - 1]);
                assert(r[j] == s[j - 1]);
            }
        }
    } else {
        let rest = s.drop_first();
        assert(sorted_by(rest, precedes)) by {
            assert forall|i: int, j: int| 0 <= i < j < rest.len() implies !precedes(#[trigger] rest[j], #[trigger] rest[i]) by {
                assert(rest[i] == s[i + 1]);
                assert(rest[j] == s[j + 1]);
            }
        }
        lemma_sorted_insert_sorted(rest, t, precedes);
        lemma_sorted_insert_members(rest, t, precedes);
        let q = sorted_insert(rest, t, precedes);
        assert(r =~= seq![s[0]] + q);
        assert forall|i: int, j: int| 0 <= i < j < r.len() implies !precedes(#[trigger] r[j], #[trigger] r[i]) by {
            assert(r[j] == q[j - 1]);
            if i == 0 {
                let x = q[j - 1];
                if x != t {
                    assert(rest.contains(x));
                    let k = choose|k: int| 0 <= k < rest.len() && rest[k] == x;
                    assert(s[k + 1] == x);
                }
            } else {
                assert(r[i] == q[i - 1]);
            }
        }
    }
}

/// The stable order of a list under a strict order is sorted.
pub proof fn lemma_stable_sort_sorted<T>(s: Seq<T>, precedes: spec_fn(T, T) -> bool)
    requires
        strict_order(precedes),
    ensures
        sorted_by(stable_sort(s, precedes), precedes),
    decreases s.len(),
{
    if s.len() > 0 {
        lemma_stable_sort_sorted(s.drop_last(), precedes);
        lemma_sorted_insert_sorted(stable_sort(s.drop_last(), precedes), s.last(), precedes);
    }
}

/// Positions ordered by their `u16` keys.
pub open spec fn by_u16_keys(keys: Seq<u16>) -> spec_fn(usize, usize) -> bool {
    |a: usize, b: usize| keys[a as int] < keys[b as int]
}

/// Lexicographic order of character sequences, which for strings is the
/// order of `str::cmp` (UTF-8 byte order and code-point order agree).
pub open spec fn lex_less(a: Seq<char>, b: Seq<char>) -> bool
    decreases a.len(),
{
    if a.len() == 0 {
        b.len() > 0
    } else if b.len() == 0 {
        false
    } else if a[0] != b[0] {
        a[0] < b[0]
    } else {
        lex_less(a.drop_first(), b.drop_first())
    }
}

/// Positions ordered by their text keys.
pub open spec fn by_text_keys(keys: Seq<Seq<char>>) -> spec_fn(usize, usize) -> bool {
    |a: usize, b: usize| lex_less(keys[a as int], keys[b as int])
}

proof fn lemma_lex_less_irreflexive(a: Seq<char>)
    ensures
        !lex_less(a, a),
    decreases a.len(),
{
    if a.len() > 0 {
        lemma_lex_less_irreflexive(a.drop_first());
    }
}

proof fn lemma_lex_less_transitive(a: Seq<char>, b: Seq<char>, c: Seq<char>)
    requires
        lex_less(a, b),
        lex_less(b, c),
    ensures
        lex_less(a, c),
    decreases a.len(),
{
    if a.len() > 0 && b.len() > 0 && c.len() > 0 && a[0] == b[0] && b[0] == c[0] {
        lemma_lex_less_transitive(a.drop_first(), b.drop_first(), c.drop_first());
    }
}

/// Positions ordered by `u16` keys are strictly ordered.
pub proof fn lemma_u16_keys_strict(keys: Seq<u16>)
    ensures
        strict_order(by_u16_keys(keys)),
{
}

/// Positions ordered by text keys are strictly ordered.
pub proof fn lemma_text_keys_strict(keys: Seq<Seq<char>>)
    ensures
        strict_order(by_text_keys(keys)),
{
    let p = by_text_keys(keys);
    assert forall|a: usize| !#[trigger] p(a, a) by {
        lemma_lex_less_irreflexive(keys[a as int]);
    }
    assert forall|a: usize, b: usize, c: usize| #[trigger] p(a, b) && #[trigger] p(b, c) implies p(a, c) by {
        lemma_lex_less_transitive(keys[a as int], keys[b as int], keys[c as int]);
    }
}

/// Whether `a` sorts strictly before `b`.
pub fn text_less(a: &Vec<char>, b: &Vec<char>) -> (result: bool)
    ensures
        result == lex_less(a@, b@),
{
    let mut i: usize = 0;
    assert(a@.skip(0) =~= a@);
    assert(b@.skip(0) =~= b@);
    while i < a.len() && i < b.len() && a[i] == b[i]
        invariant
            0 <= i <= a.len(),
            i <= b.len(),
            lex_less(a@, b@) == lex_less(a@.skip(i as int), b@.skip(i as int)),
        decreases a.len() - i,
    {
        assert(a@.skip(i as int).drop_first() =~= a@.skip(i + 1));
        assert(b@.skip(i as int).drop_first() =~= b@.skip(i + 1));
        i += 1;
    }
    if i == a.len() {
        i < b.len()
    } else if i == b.len() {
        false
    } else {
        a[i] < b[i]
    }
}

/// The stable order of the positions `kept`, by the key each one has in `keys`.
pub fn sort_by_u16(kept: &Vec<usize>, keys: &Vec<u16>) -> (order: Vec<usize>)
    requires
        forall|i: int| 0 <= i < kept@.len() ==> #[trigger] kept@[i] < keys@.len(),
    ensures
        order@ == stable_sort(kept@, by_u16_keys(keys@)),
{
    let ghost precedes = by_u16_keys(keys@);
    let mut order: Vec<usize> = Vec::new();
    let mut i: usize = 0;
    while i < kept.len()
        invariant
            0 <= i <= kept.len(),
            precedes == by_u16_keys(keys@),
            forall|j: int| 0 <= j < kept@.len() ==> #[trigger] kept@[j] < keys@.len(),
            order@ == stable_sort(kept@.take(i as int), precedes),
            forall|j: int| 0 <= j < order@.len() ==> #[trigger] order@[j] < keys@.len(),
        decreases kept.len() - i,
    {
        let t = kept[i];
        let mut k: usize = 0;
        while k < order.len() && !(keys[t] < keys[order[k]])
            invariant
                0 <= k <= order.len(),
                t < keys@.len(),
                precedes == by_u16_keys(keys@),
                forall|j: int| 0 <= j < order@.len() ==> #[trigger] order@[j] < keys@.len(),
                forall|j: int| 0 <= j < k ==> !precedes(t, #[trigger] order@[j]),
            decreases order.len() - k,
        {
            k += 1;
        }
        proof {
            lemma_sorted_insert_at(order@, t, precedes, k as int);
            lemma_stable_sort_members(kept@.take(i as int), precedes);
            assert(kept@.take(i + 1).drop_last() =~= kept@.take(i as int));
            assert(kept@.take(i + 1).last() == t);
        }
        let ghost before = order@;
        order.insert(k, t);
        assert(order@ =~= before.take(k as int).push(t) + before.skip(k as int));
        i += 1;
    }
    assert(kept@.take(kept@.len() as int) =~= kept@);
    order
}

/// The stable order of the positions `kept`, by the text key each one has in `keys`.
pub fn sort_by_text(kept: &Vec<usize>, keys: &Vec<Vec<char>>) -> (order: Vec<usize>)
    requires
        forall|i: int| 0 <= i < kept@.len() ==> #[trigger] kept@[i] < keys@.len(),
    ensures
        order@ == stable_sort(kept@, by_text_keys(keys@.map_values(|k: Vec<char>| k@))),
{
    let ghost views = keys@.map_values(|k: Vec<char>| k@);
    let ghost precedes = by_text_keys(views);
    let mut order: Vec<usize> = Vec::new();
    let mut i: usize = 0;
    while i < kept.len()
        invariant
            0 <= i <= kept.len(),
            views == keys@.map_values(|k: Vec<char>| k@),
            precedes == by_text_keys(views),
            forall|j: int| 0 <= j < kept@.len() ==> #[trigger] kept@[j] < keys@.len(),
            order@ == stable_sort(kept@.take(i as int), precedes),
            forall|j: int| 0 <= j < order@.len() ==> #[trigger] order@[j] < keys@.len(),
        decreases kept.len() - i,
    {
        let t = kept[i];
        let mut k: usize = 0;
        while k < order.len() && !text_less(&keys[t], &keys[order[k]])
            invariant
                0 <= k <= order.len(),
                t < keys@.len(),
                views == keys@.map_values(|k: Vec<char>| k@),
                precedes == by_text_keys(views),
                forall|j: int| 0 <= j < order@.len() ==> #[trigger] order@[j] < keys@.len(),
                forall|j: int| 0 <= j < k ==> !precedes(t, #[trigger] order@[j]),
            decreases order.len() - k,
        {
            k += 1;
        }
        proof {
            if k < order.len() {
                assert(views[t as int] == keys@[t as int]@);
                assert(views[order@[k as int] as int] == keys@[order@[k as int] as int]@);
            }
            lemma_sorted_insert_at(order@, t, precedes, k as int);
            lemma_stable_sort_members(kept@.take(i as int), precedes);
            assert(kept@.take(i + 1).drop_last() =~= kept@.take(i as int));
            assert(kept@.take(i + 1).last() == t);
        }
        let ghost before = order@;
        order.insert(k, t);
        assert(order@ =~= before.take(k as int).push(t) + before.skip(k as int));
        i += 1;
    }
    assert(kept@.take(kept@.len() as int) =~= kept@);
    order
}

/// Positions ordered by their text keys, greatest first.
pub open spec fn by_text_keys_desc(keys: Seq<Seq<char>>) -> spec_fn(usize, usize) -> bool {
    |a: usize, b: usize| lex_less(keys[b as int], keys[a as int])
}

/// The stable order of the positions `kept`, greatest text key first.
pub fn sort_by_text_desc(kept: &Vec<usize>, keys: &Vec<Vec<char>>) -> (order: Vec<usize>)
    requires
        forall|i: int| 0 <= i < kept@.len() ==> #[trigger] kept@[i] < keys@.len(),
    ensures
        order@ == stable_sort(kept@, by_text_keys_desc(keys@.map_values(|k: Vec<char>| k@))),
{
    let ghost views = keys@.map_values(|k: Vec<char>| k@);
    let ghost precedes = by_text_keys_desc(views);
    let mut order: Vec<usize> = Vec::new();
    let mut i: usize = 0;
    while i < kept.len()
        invariant
            0 <= i <= kept.len(),
            views == keys@.map_values(|k: Vec<char>| k@),
            precedes == by_text_keys_desc(views),
            forall|j: int| 0 <= j < kept@.len() ==> #[trigger] kept@[j] < keys@.len(),
            order@ == stable_sort(kept@.take(i as int), precedes),
            forall|j: int| 0 <= j < order@.len() ==> #[trigger] order@[j] < keys@.len(),
        decreases kept.len() - i,
    {
        let t = kept[i];
        let mut k: usize = 0;
        while k < order.len() && !text_less(&keys[order[k]], &keys[t])
            invariant
                0 <= k <= order.len(),
                t < keys@.len(),
                views == keys@.map_values(|k: Vec<char>| k@),
                precedes == by_text_keys_desc(views),
                forall|j: int| 0 <= j < order@.len() ==> #[trigger] order@[j] < keys@.len(),
                forall|j: int| 0 <= j < k ==> !precedes(t, #[trigger] order@[j]),
            decreases order.len() - k,
        {
            k += 1;
        }
        proof {
            if k < order.len() {
                assert(views[t as int] == keys@[t as int]@);
                assert(views[order@[k as int] as int] == keys@[order@[k as int] as int]@);
            }
            lemma_sorted_insert_at(order@, t, precedes, k as int);
            lemma_stable_sort_members(kept@.take(i as int), precedes);
            assert(kept@.take(i + 1).drop_last() =~= kept@.take(i as int));
            assert(kept@.take(i + 1).last() == t);
        }
        let ghost before = order@;
        order.insert(k, t);
        assert(order@ =~= before.take(k as int).push(t) + before.skip(k as int));
        i += 1;
    }
    assert(kept@.take(kept@.len() as int) =~= kept@);
    order
}

/// Filtering a prefix one element longer.
pub proof fn lemma_filter_take_step<A>(s: Seq<A>, i: int, pred: spec_fn(A) -> bool)
    requires
        0 <= i < s.len(),
    ensures
        s.take(i + 1).filter(pred) == if pred(s[i]) {
            s.take(i).filter(pred).push(s[i])
        } else {
            s.take(i).filter(pred)
        },
{
    reveal(Seq::filter);
    assert(s.take(i + 1).drop_last() =~= s.take(i));
    assert(s.take(i + 1).last() == s[i]);
}

} // verus!
