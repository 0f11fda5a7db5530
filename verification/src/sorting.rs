//! Sorting of paths.
use crate::paths;
use crate::paths::UnixPath;
use vstd::prelude::*;

verus! {

/// No path comes before one that stands ahead of it.
pub open spec fn in_path_order(list: Seq<Seq<u8>>) -> bool {
    forall|i: int, j: int| 0 <= i < j < list.len() ==> !paths::path_less(list[j], list[i])
}

/// Whether a path has the components `key`.
pub open spec fn has_components(key: Seq<paths::Component>) -> spec_fn(Seq<u8>) -> bool {
    |path: Seq<u8>| paths::components(path) == key
}

/// `output` holds the paths of `input` in path order, and paths that have the same components in
/// the order in which they stood.
pub open spec fn is_stable_sort(input: Seq<Seq<u8>>, output: Seq<Seq<u8>>) -> bool {
    &&& in_path_order(output)
    &&& forall|key: Seq<paths::Component>|
        #![trigger has_components(key)]
        output.filter(has_components(key)) == input.filter(has_components(key))
}

/// Where `b` does not come before `a`, nor `c` before `b`, `c` does not come before `a`.
proof fn not_before_transitive(a: Seq<u8>, b: Seq<u8>, c: Seq<u8>)
    requires
        !paths::path_less(b, a),
        !paths::path_less(c, b),
    ensures
        !paths::path_less(c, a),
{
    let (x, y, z) = (paths::components(a), paths::components(b), paths::components(c));
    if paths::parts_less(z, x) {
        paths::parts_less_total(x, y);
        paths::parts_less_total(y, z);
        if paths::parts_less(x, y) {
            paths::parts_less_transitive(z, x, y);
        }
    }
}

proof fn before_differs(a: Seq<u8>, b: Seq<u8>)
    requires
        paths::path_less(a, b),
    ensures
        paths::components(a) != paths::components(b),
        !paths::path_less(b, a),
{
    let (x, y) = (paths::components(a), paths::components(b));
    paths::parts_less_irreflexive(x);
    if paths::parts_less(y, x) {
        paths::parts_less_transitive(x, y, x);
    }
}

proof fn filter_none(list: Seq<Seq<u8>>, pred: spec_fn(Seq<u8>) -> bool)
    requires
        forall|i: int| 0 <= i < list.len() ==> !pred(#[trigger] list[i]),
    ensures
        list.filter(pred) == Seq::<Seq<u8>>::empty(),
    decreases list.len(),
{
    reveal(Seq::filter);
    if list.len() > 0 {
        assert forall|i: int| 0 <= i < list.drop_last().len() implies !pred(
            #[trigger] list.drop_last()[i],
        ) by {
            assert(list.drop_last()[i] == list[i]);
        }
        filter_none(list.drop_last(), pred);
        assert(!pred(list[list.len() - 1]));
    }
}

proof fn filter_one(path: Seq<u8>, pred: spec_fn(Seq<u8>) -> bool)
    ensures
        seq![path].filter(pred) == if pred(path) {
            seq![path]
        } else {
            Seq::empty()
        },
{
    reveal(Seq::filter);
    assert(seq![path].drop_last() =~= Seq::<Seq<u8>>::empty());
    reveal_with_fuel(Seq::filter, 2);
    assert(seq![path].filter(pred) =~= if pred(path) {
        seq![path]
    } else {
        Seq::empty()
    });
}

/// Putting a path behind all that come before it, and ahead of the rest, sorts it in.
proof fn sorted_in(input: Seq<Seq<u8>>, output: Seq<Seq<u8>>, path: Seq<u8>, k: int)
    requires
        is_stable_sort(input, output),
        0 <= k <= output.len(),
        forall|i: int| 0 <= i < k ==> paths::path_less(#[trigger] output[i], path),
        k < output.len() ==> !paths::path_less(output[k], path),
    ensures
        is_stable_sort(seq![path] + input, output.insert(k, path)),
{
    let next = output.insert(k, path);
    assert forall|i: int, j: int| 0 <= i < j < next.len() implies !paths::path_less(
        next[j],
        next[i],
    ) by {
        if j == k {
            before_differs(output[i], path);
        } else if i == k {
            if j - 1 > k {
                not_before_transitive(path, output[k], output[j - 1]);
            }
        }
    }
    assert forall|key: Seq<paths::Component>|
        #![trigger has_components(key)]
        next.filter(has_components(key)) == (seq![path] + input).filter(has_components(key)) by {
        let pred = has_components(key);
        let (low, high) = (output.take(k), output.skip(k));
        assert(output =~= low + high);
        assert(next =~= low + (seq![path] + high));
        Seq::filter_distributes_over_add(low, high, pred);
        Seq::filter_distributes_over_add(seq![path], high, pred);
        Seq::filter_distributes_over_add(low, seq![path] + high, pred);
        Seq::filter_distributes_over_add(seq![path], input, pred);
        filter_one(path, pred);
        if pred(path) {
            assert forall|i: int| 0 <= i < low.len() implies !pred(#[trigger] low[i]) by {
                assert(low[i] == output[i]);
                before_differs(output[i], path);
            }
            filter_none(low, pred);
            assert(next.filter(pred) =~= seq![path] + high.filter(pred));
            assert(output.filter(pred) =~= high.filter(pred));
        } else {
            assert(next.filter(pred) =~= low.filter(pred) + high.filter(pred));
            assert((seq![path] + input).filter(pred) =~= input.filter(pred));
        }
    }
}

/// Sorts paths component by component, and keeps the order of paths that are alike.
pub fn sort_paths(paths: Vec<UnixPath>) -> (sorted: Vec<UnixPath>)
    ensures
        is_stable_sort(paths::path_bytes(paths@), paths::path_bytes(sorted@)),
{
    let mut rest = paths;
    let ghost all = paths::path_bytes(rest@);
    let mut sorted: Vec<UnixPath> = Vec::new();
    proof {
        assert(all.skip(all.len() as int) =~= Seq::<Seq<u8>>::empty());
        assert(paths::path_bytes(sorted@) =~= Seq::<Seq<u8>>::empty());
    }
    while rest.len() > 0
        invariant
            rest@.len() <= all.len(),
            paths::path_bytes(rest@) == all.take(rest@.len() as int),
            is_stable_sort(all.skip(rest@.len() as int), paths::path_bytes(sorted@)),
        decreases rest@.len(),
    {
        let ghost n = rest@.len() as int;
        let ghost before = rest@;
        let path = rest.pop().unwrap();
        proof {
            assert(paths::path_bytes(before)[n - 1] == path@);
            assert(all[n - 1] == path@);
            assert(paths::path_bytes(rest@) =~= all.take(n - 1)) by {
                assert forall|i: int| 0 <= i < n - 1 implies paths::path_bytes(rest@)[i] == all[i] by {
                    assert(paths::path_bytes(before)[i] == all.take(n)[i]);
                }
            }
            assert(all.skip(n - 1) =~= seq![path@] + all.skip(n));
        }
        let ghost list = paths::path_bytes(sorted@);
        let mut k: usize = 0;
        while k < sorted.len() && sorted[k].before(&path)
            invariant
                k <= sorted@.len(),
                list == paths::path_bytes(sorted@),
                forall|i: int| 0 <= i < k ==> paths::path_less(#[trigger] list[i], path@),
            decreases sorted@.len() - k,
        {
            k = k + 1;
        }
        proof {
            sorted_in(all.skip(n), list, path@, k as int);
        }
        let ghost bytes = path@;
        sorted.insert(k, path);
        assert(paths::path_bytes(sorted@) =~= list.insert(k as int, bytes));
    }
    assert(all.skip(0) =~= all);
    sorted
}

/// A sorted list holds exactly the paths that it was made of.
pub proof fn sort_keeps_paths(input: Seq<Seq<u8>>, output: Seq<Seq<u8>>, path: Seq<u8>)
    requires
        is_stable_sort(input, output),
    ensures
        output.contains(path) <==> input.contains(path),
{
    let pred = has_components(paths::components(path));
    assert(output.filter(pred) == input.filter(pred));
    if output.contains(path) {
        let i = choose|i: int| 0 <= i < output.len() && output[i] == path;
        output.lemma_filter_contains(pred, i);
        input.lemma_filter_contains_rev(pred, path);
    }
    if input.contains(path) {
        let i = choose|i: int| 0 <= i < input.len() && input[i] == path;
        input.lemma_filter_contains(pred, i);
        output.lemma_filter_contains_rev(pred, path);
    }
}

/// Two sorted lists that agree on the paths of each sequence of components are the same list.
proof fn sorted_lists_agree(a: Seq<Seq<u8>>, b: Seq<Seq<u8>>)
    requires
        is_stable_sort(a, b),
        in_path_order(a),
    ensures
        a == b,
    decreases a.len(),
{
    if a.len() == 0 {
        if b.len() > 0 {
            sort_keeps_paths(a, b, b[0]);
            assert(b.contains(b[0]));
        }
        assert(a =~= b);
    } else {
        assert(a.contains(a[0]));
        sort_keeps_paths(a, b, a[0]);
        let i = choose|i: int| 0 <= i < b.len() && b[i] == a[0];
        assert(b.contains(b[0]));
        sort_keeps_paths(a, b, b[0]);
        let j = choose|j: int| 0 <= j < a.len() && a[j] == b[0];
        let (x, y) = (paths::components(a[0]), paths::components(b[0]));
        paths::parts_less_total(x, y);
        assert(!paths::path_less(b[0], a[0])) by {
            if paths::path_less(b[0], a[0]) {
                before_differs(b[0], a[0]);
            }
        }
        assert(!paths::path_less(a[0], b[0])) by {
            if paths::path_less(a[0], b[0]) {
                before_differs(a[0], b[0]);
            }
        }
        assert(x == y);
        let (ta, tb) = (a.drop_first(), b.drop_first());
        assert(a =~= seq![a[0]] + ta);
        assert(b =~= seq![b[0]] + tb);
        let pred = has_components(x);
        Seq::filter_distributes_over_add(seq![a[0]], ta, pred);
        Seq::filter_distributes_over_add(seq![b[0]], tb, pred);
        filter_one(a[0], pred);
        filter_one(b[0], pred);
        assert(b.filter(pred) == a.filter(pred));
        assert(a.filter(pred)[0] == a[0]);
        assert(b.filter(pred)[0] == b[0]);
        assert forall|key: Seq<paths::Component>|
            #![trigger has_components(key)]
            tb.filter(has_components(key)) == ta.filter(has_components(key)) by {
            let p = has_components(key);
            Seq::filter_distributes_over_add(seq![a[0]], ta, p);
            Seq::filter_distributes_over_add(seq![b[0]], tb, p);
            filter_one(a[0], p);
            assert(b.filter(p) == a.filter(p));
            let head = seq![a[0]].filter(p);
            assert((head + ta.filter(p)).skip(head.len() as int) =~= ta.filter(p));
            assert((head + tb.filter(p)).skip(head.len() as int) =~= tb.filter(p));
        }
        sorted_lists_agree(ta, tb);
    }
}

/// The stable sort of a list is unique.
pub proof fn stable_sort_unique(input: Seq<Seq<u8>>, a: Seq<Seq<u8>>, b: Seq<Seq<u8>>)
    requires
        is_stable_sort(input, a),
        is_stable_sort(input, b),
    ensures
        a == b,
{
    assert forall|key: Seq<paths::Component>|
        #![trigger has_components(key)]
        b.filter(has_components(key)) == a.filter(has_components(key)) by {
        assert(a.filter(has_components(key)) == input.filter(has_components(key)));
        assert(b.filter(has_components(key)) == input.filter(has_components(key)));
    }
    sorted_lists_agree(a, b);
}

/// No two paths of a list have the same components.
pub open spec fn all_distinct(list: Seq<Seq<u8>>) -> bool {
    forall|i: int, j: int|
        0 <= i < j < list.len() ==> paths::components(list[i]) != paths::components(list[j])
}

proof fn filter_distinct(list: Seq<Seq<u8>>, i: int)
    requires
        all_distinct(list),
        0 <= i < list.len(),
    ensures
        list.filter(has_components(paths::components(list[i]))) == seq![list[i]],
{
    let pred = has_components(paths::components(list[i]));
    let (low, high) = (list.take(i), list.skip(i + 1));
    assert(list =~= low + (seq![list[i]] + high));
    Seq::filter_distributes_over_add(low, seq![list[i]] + high, pred);
    Seq::filter_distributes_over_add(seq![list[i]], high, pred);
    filter_one(list[i], pred);
    filter_none(low, pred);
    filter_none(high, pred);
    assert(list.filter(pred) =~= seq![list[i]]);
}

/// Where no two paths are alike, the order in which they were listed does not show in the sorted
/// list.
pub proof fn listing_order_is_irrelevant(
    input_a: Seq<Seq<u8>>,
    input_b: Seq<Seq<u8>>,
    a: Seq<Seq<u8>>,
    b: Seq<Seq<u8>>,
)
    requires
        all_distinct(input_a),
        all_distinct(input_b),
        forall|path: Seq<u8>| input_a.contains(path) <==> input_b.contains(path),
        is_stable_sort(input_a, a),
        is_stable_sort(input_b, b),
    ensures
        a == b,
{
    assert forall|key: Seq<paths::Component>|
        #![trigger has_components(key)]
        input_b.filter(has_components(key)) == input_a.filter(has_components(key)) by {
        let pred = has_components(key);
        if exists|i: int| 0 <= i < input_a.len() && pred(#[trigger] input_a[i]) {
            let i = choose|i: int| 0 <= i < input_a.len() && pred(#[trigger] input_a[i]);
            assert(input_a.contains(input_a[i]));
            assert(input_b.contains(input_a[i]));
            let j = choose|j: int| 0 <= j < input_b.len() && input_b[j] == input_a[i];
            filter_distinct(input_a, i);
            filter_distinct(input_b, j);
        } else {
            filter_none(input_a, pred);
            assert forall|j: int| 0 <= j < input_b.len() implies !pred(#[trigger] input_b[j]) by {
                assert(input_b.contains(input_b[j]));
                assert(input_a.contains(input_b[j]));
            }
            filter_none(input_b, pred);
        }
    }
    assert forall|key: Seq<paths::Component>|
        #![trigger has_components(key)]
        b.filter(has_components(key)) == a.filter(has_components(key)) by {
        assert(a.filter(has_components(key)) == input_a.filter(has_components(key)));
        assert(b.filter(has_components(key)) == input_b.filter(has_components(key)));
    }
    sorted_lists_agree(a, b);
}

proof fn filter_keeps_count(list: Seq<Seq<u8>>, pred: spec_fn(Seq<u8>) -> bool, path: Seq<u8>)
    requires
        pred(path),
    ensures
        list.filter(pred).to_multiset().count(path) == list.to_multiset().count(path),
    decreases list.len(),
{
    reveal(Seq::filter);
    if list.len() == 0 {
        assert(list.filter(pred) =~= list);
    } else {
        let (init, last) = (list.drop_last(), list.last());
        filter_keeps_count(init, pred, path);
        assert(list =~= init.push(last));
        vstd::seq_lib::to_multiset_build(init, last);
        vstd::seq_lib::to_multiset_build(init.filter(pred), last);
    }
}

/// Sorting loses nothing and adds nothing, puts no path ahead of one that comes before it, and
/// leaves paths of the same components as they stood.
pub proof fn sorted_paths_are_the_same_in_order(input: Seq<Seq<u8>>, output: Seq<Seq<u8>>)
    requires
        is_stable_sort(input, output),
    ensures
        output.to_multiset() == input.to_multiset(),
        output.len() == input.len(),
        forall|i: int, j: int|
            0 <= i < j < output.len() ==> !paths::path_less(#[trigger] output[j], #[trigger] output[i]),
        forall|path: Seq<u8>|
            #![trigger paths::components(path)]
            output.filter(|other: Seq<u8>| paths::components(other) == paths::components(path))
                == input.filter(|other: Seq<u8>| paths::components(other) == paths::components(path)),
{
    assert forall|path: Seq<u8>| #[trigger] output.to_multiset().count(path)
        == input.to_multiset().count(path) by {
        let pred = has_components(paths::components(path));
        filter_keeps_count(output, pred, path);
        filter_keeps_count(input, pred, path);
        assert(output.filter(pred) == input.filter(pred));
    }
    assert(output.to_multiset() =~= input.to_multiset());
    vstd::seq_lib::to_multiset_len(output);
    vstd::seq_lib::to_multiset_len(input);
    assert forall|path: Seq<u8>|
        #![trigger paths::components(path)]
        output.filter(|other: Seq<u8>| paths::components(other) == paths::components(path))
            == input.filter(|other: Seq<u8>| paths::components(other) == paths::components(path)) by {
        let pred = has_components(paths::components(path));
        assert(pred =~= |other: Seq<u8>| paths::components(other) == paths::components(path));
        assert(output.filter(pred) == input.filter(pred));
    }
}

} // verus!
