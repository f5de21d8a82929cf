use vstd::prelude::*;

use crate::rect::Rect;

verus! {

/// Replacing `a` by the bounding union with `r` costs less area than
/// keeping both.
pub open spec fn merges(a: Rect, r: Rect) -> bool {
    a.union_fits(r) && a.spec_container(r).spec_area() < a.spec_area() + r.spec_area()
}

/// An existing entry `a` takes the request `r` in: it already covers it, or
/// merging is cheaper.
pub open spec fn absorbs(a: Rect, r: Rect) -> bool {
    a.covers(r) || merges(a, r)
}

/// `i` is the first entry of `list` that takes `r` in.
pub open spec fn first_absorber(list: Seq<Rect>, r: Rect, i: int) -> bool {
    0 <= i < list.len() && absorbs(list[i], r) && forall|j: int| 0 <= j < i ==> !absorbs(#[trigger] list[j], r)
}

/// The damage list after scheduling `r`: unchanged where an entry covers
/// `r`, the first absorbing entry widened to the union otherwise, or `r`
/// appended where no entry takes it in.
pub open spec fn scheduled(list: Seq<Rect>, r: Rect) -> Seq<Rect> {
    if exists|i: int| first_absorber(list, r, i) {
        let i = choose|i: int| first_absorber(list, r, i);
        if list[i].covers(r) {
            list
        } else {
            list.update(i, list[i].spec_container(r))
        }
    } else {
        list.push(r)
    }
}

/// Adds the rectangle `(x, y, w, h)` to the damage list with the greedy
/// first-match merge.
pub fn schedule(redraws: &mut Vec<Rect>, x: i32, y: i32, w: i32, h: i32)
    ensures
        final(redraws)@ == scheduled(old(redraws)@, Rect { x, y, w, h }),
{
    let request = Rect::new(x, y, w, h);
    let ghost list = redraws@;
    let n = redraws.len();
    let mut push = true;
    let mut i: usize = 0;
    while i < n
        invariant_except_break
            push,
            redraws@ == list,
            forall|j: int| 0 <= j < i ==> !absorbs(#[trigger] list[j], request),
        invariant
            n == list.len(),
            list == old(redraws)@,
            i <= n,
        ensures
            push ==> redraws@ == list && forall|j: int| 0 <= j < n ==> !absorbs(#[trigger] list[j], request),
            !push ==> redraws@ == scheduled(list, request),
        decreases n - i,
    {
        let rect = redraws[i];
        if rect.contains(&request) {
            proof { lemma_first_absorber(list, request, i as int) }
            push = false;
            break;
        }
        if rect.container_fits(&request) {
            let container = rect.container(&request);
            if (container.area() as i128) < (rect.area() as i128) + (request.area() as i128) {
                proof { lemma_first_absorber(list, request, i as int) }
                redraws.set(i, container);
                assert(first_absorber(list, request, i as int));
                assert(scheduled(list, request) == list.update(i as int, list[i as int].spec_container(request)));
                push = false;
                break;
            }
        }
        i = i + 1;
    }
    if push {
        redraws.push(request);
    }
}

/// The first absorbing entry is the one that `scheduled` picks.
proof fn lemma_first_absorber(list: Seq<Rect>, r: Rect, i: int)
    requires
        first_absorber(list, r, i),
    ensures
        (choose|k: int| first_absorber(list, r, k)) == i,
{
    assert forall|k: int| first_absorber(list, r, k) implies k == i by {
        if k < i {
            assert(!absorbs(list[k], r));
        } else if k > i {
            assert(!absorbs(list[i], r));
        }
    }
}

/// Where some entry takes `r` in, a first one does.
proof fn lemma_first_exists(list: Seq<Rect>, r: Rect, i: int)
    requires
        0 <= i < list.len(),
        absorbs(list[i], r),
    ensures
        exists|k: int| first_absorber(list, r, k),
    decreases i,
{
    if exists|j: int| 0 <= j < i && absorbs(list[j], r) {
        let j = choose|j: int| 0 <= j < i && absorbs(list[j], r);
        lemma_first_exists(list, r, j);
    } else {
        assert(first_absorber(list, r, i));
    }
}

/// Where the first entry that takes `r` in covers it, scheduling `r`
/// leaves the list as it is.
proof fn lemma_covering_absorber(list: Seq<Rect>, r: Rect, i: int)
    requires
        0 <= i < list.len(),
        absorbs(list[i], r),
        forall|j: int| 0 <= j < list.len() && absorbs(list[j], r) ==> list[j].covers(r),
    ensures
        scheduled(list, r) == list,
{
    lemma_first_exists(list, r, i);
    let k = choose|k: int| first_absorber(list, r, k);
    lemma_first_absorber(list, r, k);
}

/// Scheduling a request that an earlier request `a` covers adds nothing:
/// the list after `b` is the list after `a`. This holds wherever no entry
/// scheduled before `a` would merge with `b` without covering it.
pub proof fn lemma_covered_request_ignored(list: Seq<Rect>, a: Rect, b: Rect)
    requires
        a.covers(b),
        forall|j: int| 0 <= j < list.len() && absorbs(list[j], b) ==> list[j].covers(b),
    ensures
        scheduled(scheduled(list, a), b) == scheduled(list, a),
{
    let l1 = scheduled(list, a);
    if exists|i: int| first_absorber(list, a, i) {
        let i = choose|i: int| first_absorber(list, a, i);
        if list[i].covers(a) {
            assert(list[i].covers(b));
            lemma_covering_absorber(list, b, i);
        } else {
            let u = list[i].spec_container(a);
            assert(l1 == list.update(i, u));
            assert(u.covers(b));
            assert forall|j: int| 0 <= j < l1.len() && absorbs(l1[j], b) implies l1[j].covers(b) by {
                if j != i {
                    assert(l1[j] == list[j]);
                }
            }
            lemma_covering_absorber(l1, b, i);
        }
    } else {
        assert(l1 == list.push(a));
        assert forall|j: int| 0 <= j < l1.len() && absorbs(l1[j], b) implies l1[j].covers(b) by {
            if j < list.len() {
                assert(l1[j] == list[j]);
            }
        }
        lemma_covering_absorber(l1, b, list.len() as int);
    }
}

/// When the union of `a` and `b` has less area than the two together,
/// scheduling `b` right after `a` was appended replaces `a` by the union
/// rather than appending `b`.
pub proof fn lemma_cheaper_union_replaces(list: Seq<Rect>, a: Rect, b: Rect)
    requires
        forall|j: int| 0 <= j < list.len() ==> !absorbs(#[trigger] list[j], a),
        forall|j: int| 0 <= j < list.len() ==> !absorbs(#[trigger] list[j], b),
        a.union_fits(b),
        a.spec_container(b).spec_area() < a.spec_area() + b.spec_area(),
    ensures
        scheduled(list, a) == list.push(a),
        scheduled(scheduled(list, a), b) == list.push(a.spec_container(b)),
{
    let l1 = list.push(a);
    assert(scheduled(list, a) == l1);
    assert(first_absorber(l1, b, list.len() as int)) by {
        assert forall|j: int| 0 <= j < list.len() implies !absorbs(#[trigger] l1[j], b) by {
            assert(l1[j] == list[j]);
        }
    }
    lemma_first_absorber(l1, b, list.len() as int);
    if a.covers(b) {
        assert(a.spec_container(b) == a);
        assert(l1 == list.push(a.spec_container(b)));
    } else {
        assert(l1.update(list.len() as int, a.spec_container(b)) =~= list.push(a.spec_container(b)));
    }
}

/// Where the first entry that takes `b` in does not cover it, the merge
/// is cheaper: the union fits, and scheduling `b` replaces that entry in
/// place by the union, leaving the others and appending nothing.
pub proof fn lemma_union_replaces_first(list: Seq<Rect>, b: Rect, i: int)
    requires
        first_absorber(list, b, i),
        !list[i].covers(b),
    ensures
        list[i].union_fits(b),
        list[i].spec_container(b).spec_area() < list[i].spec_area() + b.spec_area(),
        scheduled(list, b) == list.update(i, list[i].spec_container(b)),
        scheduled(list, b).len() == list.len(),
{
    lemma_first_absorber(list, b, i);
}

} // verus!
