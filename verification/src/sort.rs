use vstd::prelude::*;

verus! {

/// An item with the key it is ordered by: a sequence of numbers compared
/// lexicographically, a proper prefix first.
pub struct Keyed<T> {
    pub key: Vec<u64>,
    pub item: T,
}

/// Lexicographic order on keys; a proper prefix comes before the longer key.
pub open spec fn key_lt(a: Seq<u64>, b: Seq<u64>) -> bool
    decreases a.len(),
{
    if a.len() == 0 {
        b.len() > 0
    } else if b.len() == 0 {
        false
    } else if a[0] < b[0] {
        true
    } else if a[0] > b[0] {
        false
    } else {
        key_lt(a.drop_first(), b.drop_first())
    }
}

pub proof fn lemma_key_lt_irreflexive(a: Seq<u64>)
    ensures
        !key_lt(a, a),
    decreases a.len(),
{
    if a.len() > 0 {
        lemma_key_lt_irreflexive(a.drop_first());
    }
}

pub proof fn lemma_key_lt_transitive(a: Seq<u64>, b: Seq<u64>, c: Seq<u64>)
    requires
        key_lt(a, b),
        key_lt(b, c),
    ensures
        key_lt(a, c),
    decreases a.len(),
{
    if a.len() > 0 && b.len() > 0 && c.len() > 0 && a[0] == b[0] && b[0] == c[0] {
        lemma_key_lt_transitive(a.drop_first(), b.drop_first(), c.drop_first());
    }
}

pub proof fn lemma_key_lt_total(a: Seq<u64>, b: Seq<u64>)
    ensures
        a == b || key_lt(a, b) || key_lt(b, a),
        !(key_lt(a, b) && key_lt(b, a)),
    decreases a.len(),
{
    if a.len() > 0 && b.len() > 0 && a[0] == b[0] {
        lemma_key_lt_total(a.drop_first(), b.drop_first());
        if a.drop_first() == b.drop_first() {
            assert(a =~= seq![a[0]] + a.drop_first());
            assert(b =~= seq![b[0]] + b.drop_first());
        }
    }
    if a.len() == 0 && b.len() == 0 {
        assert(a =~= b);
    }
}

/// Compares two keys.
pub fn key_less(a: &Vec<u64>, b: &Vec<u64>) -> (r: bool)
    ensures
        r == key_lt(a@, b@),
{
    let mut i: usize = 0;
    assert(a@.skip(0) =~= a@);
    assert(b@.skip(0) =~= b@);
    while i < a.len() && i < b.len()
        invariant
            i <= a.len(),
            i <= b.len(),
            forall|j: int| 0 <= j < i ==> a@[j] == b@[j],
            key_lt(a@, b@) == key_lt(a@.skip(i as int), b@.skip(i as int)),
        decreases a.len() - i,
    {
        if a[i] < b[i] {
            return true;
        }
        if a[i] > b[i] {
            return false;
        }
        let ghost x = a@.skip(i as int);
        let ghost y = b@.skip(i as int);
        assert(x.drop_first() =~= a@.skip(i + 1));
        assert(y.drop_first() =~= b@.skip(i + 1));
        i = i + 1;
    }
    i < b.len()
}

/// `r` lists the items of `o` with their keys in nondecreasing order, items with equal
/// keys in their order in `o`; `p[i]` is where `r[i]` stood in `o`.
pub open spec fn stable_perm<T>(p: Seq<int>, r: Seq<Keyed<T>>, o: Seq<Keyed<T>>) -> bool {
    &&& p.len() == r.len() == o.len()
    &&& forall|i: int| 0 <= i < p.len() ==> 0 <= #[trigger] p[i] < o.len()
    &&& forall|i: int, j: int| 0 <= i < j < p.len() ==> p[i] != p[j]
    &&& forall|i: int| 0 <= i < p.len() ==> #[trigger] r[i] == o[p[i]]
    &&& forall|i: int, j: int|
        0 <= i < j < r.len() ==> !key_lt(#[trigger] r[j].key@, #[trigger] r[i].key@)
    &&& forall|i: int, j: int|
        0 <= i < j < r.len() && #[trigger] r[i].key@ == #[trigger] r[j].key@ ==> p[i] < p[j]
}

/// `r` is `o` stably sorted by key.
pub open spec fn is_stable_sort_of<T>(r: Seq<Keyed<T>>, o: Seq<Keyed<T>>) -> bool {
    exists|p: Seq<int>| stable_perm(p, r, o)
}

/// Sorts by key, keeping items with equal keys in their order (insertion sort).
pub fn stable_sort<T>(v: &mut Vec<Keyed<T>>)
    ensures
        is_stable_sort_of(final(v)@, old(v)@),
{
    let ghost orig = v@;
    let n = v.len();
    let ghost mut p: Seq<int> = Seq::new(n as nat, |k: int| k);
    let mut i: usize = 0;
    while i < n
        invariant
            v.len() == n,
            orig.len() == n,
            p.len() == n,
            0 <= i <= n,
            forall|k: int| 0 <= k < n ==> 0 <= #[trigger] p[k] < n,
            forall|a: int, b: int| 0 <= a < b < n ==> p[a] != p[b],
            forall|k: int| 0 <= k < n ==> #[trigger] v@[k] == orig[p[k]],
            forall|k: int| i <= k < n ==> #[trigger] p[k] == k,
            forall|k: int| 0 <= k < i ==> #[trigger] p[k] < i,
            forall|a: int, b: int|
                0 <= a < b < i ==> !key_lt(#[trigger] v@[b].key@, #[trigger] v@[a].key@),
            forall|a: int, b: int|
                0 <= a < b < i && #[trigger] v@[a].key@ == #[trigger] v@[b].key@ ==> p[a] < p[b],
        decreases n - i,
    {
        let mut j: usize = 0;
        while j < i && !key_less(&v[i].key, &v[j].key)
            invariant
                v.len() == n,
                0 <= j <= i < n,
                forall|k: int| 0 <= k < j ==> !key_lt(v@[i as int].key@, #[trigger] v@[k].key@),
            decreases i - j,
        {
            j = j + 1;
        }
        let ghost old_v = v@;
        let ghost old_p = p;
        let ghost xk = old_v[i as int].key@;
        let x = v.remove(i);
        v.insert(j, x);
        proof {
            p = old_p.take(j as int) + seq![old_p[i as int]] + old_p.subrange(j as int, i as int)
                + old_p.skip(i + 1);
            let nv = v@;
            // where each new position came from
            assert forall|k: int| 0 <= k < n implies #[trigger] nv[k] == (if k < j {
                old_v[k]
            } else if k == j {
                old_v[i as int]
            } else if k <= i {
                old_v[k - 1]
            } else {
                old_v[k]
            }) && p[k] == (if k < j {
                old_p[k]
            } else if k == j {
                old_p[i as int]
            } else if k <= i {
                old_p[k - 1]
            } else {
                old_p[k]
            }) by {}
            // the inserted key is below every key it was put in front of
            assert forall|k: int| j <= k < i implies key_lt(xk, #[trigger] old_v[k].key@) by {
                if k > j {
                    lemma_key_lt_total(old_v[j as int].key@, old_v[k].key@);
                    if old_v[j as int].key@ != old_v[k].key@ {
                        lemma_key_lt_transitive(xk, old_v[j as int].key@, old_v[k].key@);
                    }
                }
            }
            assert forall|k: int| 0 <= k < j implies !key_lt(xk, #[trigger] old_v[k].key@) by {}
            assert forall|a: int, b: int| 0 <= a < b < n implies p[a] != p[b] by {}
            assert forall|a: int, b: int| 0 <= a < b < i + 1 implies !key_lt(
                #[trigger] nv[b].key@,
                #[trigger] nv[a].key@,
            ) by {
                if a < j && b == j {
                    lemma_key_lt_total(xk, old_v[a].key@);
                } else if a == j && b > j {
                    lemma_key_lt_total(xk, old_v[b - 1].key@);
                }
            }
            assert forall|a: int, b: int|
                0 <= a < b < i + 1 && #[trigger] nv[a].key@ == #[trigger] nv[b].key@ implies p[a]
                < p[b] by {
                if a == j && b > j {
                    lemma_key_lt_irreflexive(xk);
                }
            }
        }
        i = i + 1;
    }
    proof {
        assert(stable_perm(p, v@, orig));
    }
}

/// `r` lists the items of `o` ordered by `key` (nondecreasing), items with equal keys
/// in their order in `o`; `p[i]` is where `r[i]` stood in `o`.
pub open spec fn stable_perm_by<T>(
    p: Seq<int>,
    r: Seq<T>,
    o: Seq<T>,
    key: spec_fn(T) -> Seq<u64>,
) -> bool {
    &&& p.len() == r.len() == o.len()
    &&& forall|i: int| 0 <= i < p.len() ==> 0 <= #[trigger] p[i] < o.len()
    &&& forall|i: int, j: int| 0 <= i < j < p.len() ==> p[i] != p[j]
    &&& forall|i: int| 0 <= i < p.len() ==> #[trigger] r[i] == o[p[i]]
    &&& forall|i: int, j: int|
        0 <= i < j < r.len() ==> !key_lt(key(#[trigger] r[j]), key(#[trigger] r[i]))
    &&& forall|i: int, j: int|
        0 <= i < j < r.len() && key(#[trigger] r[i]) == key(#[trigger] r[j]) ==> p[i] < p[j]
}

/// `r` is `o` stably sorted by `key`.
pub open spec fn stably_sorted_by<T>(r: Seq<T>, o: Seq<T>, key: spec_fn(T) -> Seq<u64>) -> bool {
    exists|p: Seq<int>| stable_perm_by(p, r, o, key)
}

/// Sorts `items` stably by `keys`, where `keys[i]` is the key of `items[i]`.
pub fn sort_by_keys<T>(items: Vec<T>, keys: Vec<Vec<u64>>, Ghost(key): Ghost<spec_fn(T) -> Seq<u64>>) -> (r: Vec<T>)
    requires
        items.len() == keys.len(),
        forall|i: int| 0 <= i < items.len() ==> #[trigger] keys@[i]@ == key(items@[i]),
    ensures
        stably_sorted_by(r@, items@, key),
{
    let ghost o = items@;
    let mut items = items;
    let mut keys = keys;
    let mut keyed: Vec<Keyed<T>> = Vec::new();
    let n = items.len();
    while items.len() > 0
        invariant
            items.len() == keys.len(),
            keyed.len() + items.len() == n,
            o.len() == n,
            forall|i: int| 0 <= i < keyed.len() ==> #[trigger] keyed@[i].item == o[i],
            forall|i: int| 0 <= i < keyed.len() ==> #[trigger] keyed@[i].key@ == key(o[i]),
            forall|i: int| 0 <= i < items.len() ==> #[trigger] items@[i] == o[keyed.len() + i],
            forall|i: int| 0 <= i < items.len() ==> #[trigger] keys@[i]@ == key(items@[i]),
        decreases items.len(),
    {
        let item = items.remove(0);
        let k = keys.remove(0);
        keyed.push(Keyed { key: k, item });
    }
    let ghost ko = keyed@;
    stable_sort(&mut keyed);
    let ghost ks = keyed@;
    let mut out: Vec<T> = Vec::new();
    while keyed.len() > 0
        invariant
            out.len() + keyed.len() == n,
            ks.len() == n,
            forall|i: int| 0 <= i < out.len() ==> #[trigger] out@[i] == ks[i].item,
            forall|i: int| 0 <= i < keyed.len() ==> #[trigger] keyed@[i] == ks[out.len() + i],
        decreases keyed.len(),
    {
        let k = keyed.remove(0);
        out.push(k.item);
    }
    proof {
        let p = choose|p: Seq<int>| stable_perm(p, ks, ko);
        assert forall|i: int| 0 <= i < n implies key(#[trigger] out@[i]) == ks[i].key@ by {
            assert(ks[i] == ko[p[i]]);
        }
        assert(stable_perm_by(p, out@, o, key));
    }
    out
}

} // verus!
