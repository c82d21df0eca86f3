//! The descendants of a process in a snapshot of (process id, parent id)
//! pairs, found breadth first, as the host kills a child's whole tree.
//! Process ids are reused, so the parent links of a snapshot may form
//! cycles; every process is visited once.

use vstd::prelude::*;

verus! {

/// Whether the snapshot lists `child` as a child of `parent` (a process is
/// never its own child).
pub open spec fn is_link(pairs: Seq<(u32, u32)>, child: u32, parent: u32) -> bool {
    child != parent && exists|k: int| 0 <= k < pairs.len() && #[trigger] pairs[k] == (child, parent)
}

/// Whether each process of `c` after the first is listed as a child of the
/// one before it.
pub open spec fn is_chain(pairs: Seq<(u32, u32)>, c: Seq<u32>) -> bool {
    forall|i: int| 0 <= i < c.len() - 1 ==> #[trigger] is_link(pairs, c[i + 1], c[i])
}

/// Whether `p` descends from `root`: it is not the root, and a chain of
/// parent links leads from the root down to it.
pub open spec fn is_descendant(pairs: Seq<(u32, u32)>, root: u32, p: u32) -> bool {
    &&& p != root
    &&& exists|c: Seq<u32>| c.len() >= 2 && c[0] == root && c.last() == p && #[trigger] is_chain(pairs, c)
}

/// The process ids listed as children in the snapshot.
pub open spec fn listed(pairs: Seq<(u32, u32)>) -> Set<u32> {
    pairs.map_values(|p: (u32, u32)| p.0).to_set()
}

/// Whether every child that the snapshot lists for `x` is the root or was found.
pub open spec fn children_found(pairs: Seq<(u32, u32)>, root: u32, found: Seq<u32>, x: u32, upto: int) -> bool {
    forall|k: int|
        0 <= k < upto && #[trigger] pairs[k].1 == x && pairs[k].0 != x ==> pairs[k].0 == root
            || found.contains(pairs[k].0)
}

fn contains_pid(v: &Vec<u32>, p: u32) -> (r: bool)
    ensures
        r == v@.contains(p),
{
    let mut i: usize = 0;
    while i < v.len()
        invariant
            i <= v.len(),
            forall|j: int| 0 <= j < i ==> v@[j] != p,
        decreases v.len() - i,
    {
        if v[i] == p {
            return true;
        }
        i += 1;
    }
    false
}

/// A set of distinct listed children is no larger than the snapshot.
proof fn lemma_found_bounded(pairs: Seq<(u32, u32)>, found: Seq<u32>)
    requires
        found.no_duplicates(),
        forall|i: int| 0 <= i < found.len() ==> listed(pairs).contains(#[trigger] found[i]),
    ensures
        found.len() <= pairs.len(),
{
    let firsts = pairs.map_values(|p: (u32, u32)| p.0);
    firsts.lemma_cardinality_of_set();
    found.unique_seq_to_set();
    assert(found.to_set().subset_of(firsts.to_set())) by {
        assert forall|x: u32| found.to_set().contains(x) implies firsts.to_set().contains(x) by {
            let i = choose|i: int| 0 <= i < found.len() && found[i] == x;
            assert(listed(pairs).contains(found[i]));
        }
    }
    vstd::set_lib::lemma_len_subset(found.to_set(), firsts.to_set());
}

/// Finding more processes keeps the children of `x` found.
proof fn lemma_children_found_grows(
    pairs: Seq<(u32, u32)>,
    root: u32,
    a: Seq<u32>,
    b: Seq<u32>,
    x: u32,
    upto: int,
)
    requires
        children_found(pairs, root, a, x, upto),
        forall|y: u32| a.contains(y) ==> b.contains(y),
    ensures
        children_found(pairs, root, b, x, upto),
{
    assert forall|k: int|
        0 <= k < upto && #[trigger] pairs[k].1 == x && pairs[k].0 != x implies pairs[k].0 == root
            || b.contains(pairs[k].0) by {
        if pairs[k].0 != root {
            assert(a.contains(pairs[k].0));
        }
    }
}

/// The invariant of the search: what was found is distinct, not the root,
/// descends from the root, and is listed in the snapshot.
pub open spec fn found_ok(pairs: Seq<(u32, u32)>, root: u32, found: Seq<u32>) -> bool {
    &&& found.len() <= pairs.len()
    &&& found.no_duplicates()
    &&& !found.contains(root)
    &&& forall|i: int| 0 <= i < found.len() ==> #[trigger] is_descendant(pairs, root, found[i])
    &&& forall|i: int| 0 <= i < found.len() ==> listed(pairs).contains(#[trigger] found[i])
}

/// Once the children of the root and of every process found were found,
/// whatever a chain from the root reaches was found or is the root.
proof fn lemma_closed_reaches(pairs: Seq<(u32, u32)>, root: u32, found: Seq<u32>, c: Seq<u32>, i: int)
    requires
        children_found(pairs, root, found, root, pairs.len() as int),
        forall|j: int|
            0 <= j < found.len() ==> #[trigger] children_found(pairs, root, found, found[j], pairs.len() as int),
        c.len() >= 1,
        c[0] == root,
        is_chain(pairs, c),
        0 <= i < c.len(),
    ensures
        c[i] == root || found.contains(c[i]),
    decreases i,
{
    if i > 0 {
        lemma_closed_reaches(pairs, root, found, c, i - 1);
        let i0 = i - 1;
        let x = c[i0];
        assert(c[i0 + 1] == c[i]);
        assert(is_link(pairs, c[i0 + 1], c[i0]));
        let k = choose|k: int| 0 <= k < pairs.len() && #[trigger] pairs[k] == (c[i], x);
        if x != root {
            let m = choose|m: int| 0 <= m < found.len() && found[m] == x;
            assert(children_found(pairs, root, found, found[m], pairs.len() as int));
        }
        assert(pairs[k].1 == x && pairs[k].0 != x);
    }
}

/// Adds to `found` the children of `x` (the root or a process found) that
/// are neither the root nor found yet, in snapshot order.
fn add_children(pairs: &Vec<(u32, u32)>, root: u32, found: &mut Vec<u32>, x: u32)
    requires
        found_ok(pairs@, root, old(found)@),
        x == root || is_descendant(pairs@, root, x),
    ensures
        found_ok(pairs@, root, final(found)@),
        final(found)@.len() >= old(found)@.len(),
        final(found)@.subrange(0, old(found)@.len() as int) == old(found)@,
        forall|y: u32| old(found)@.contains(y) ==> final(found)@.contains(y),
        children_found(pairs@, root, final(found)@, x, pairs@.len() as int),
{
    let ghost found0 = found@;
    let mut k: usize = 0;
    while k < pairs.len()
        invariant
            k <= pairs.len(),
            x == root || is_descendant(pairs@, root, x),
            found_ok(pairs@, root, found@),
            found@.len() >= found0.len(),
            found@.subrange(0, found0.len() as int) == found0,
            forall|y: u32| found0.contains(y) ==> found@.contains(y),
            children_found(pairs@, root, found@, x, k as int),
        decreases pairs.len() - k,
    {
        let (child, parent) = pairs[k];
        if parent == x && child != x && child != root && !contains_pid(&found, child) {
            let ghost before = found@;
            proof {
                assert(is_link(pairs@, child, x)) by {
                    assert(pairs@[k as int] == (child, x));
                }
                assert(listed(pairs@).contains(child)) by {
                    let firsts = pairs@.map_values(|p: (u32, u32)| p.0);
                    assert(firsts[k as int] == child);
                }
                if x == root {
                    let c = seq![root, child];
                    assert(is_chain(pairs@, c)) by {
                        assert forall|i: int| 0 <= i < c.len() - 1 implies #[trigger] is_link(
                            pairs@,
                            c[i + 1],
                            c[i],
                        ) by {
                            assert(i == 0);
                        }
                    }
                    assert(c.last() == child);
                } else {
                    let c0 = choose|c: Seq<u32>|
                        c.len() >= 2 && c[0] == root && c.last() == x && #[trigger] is_chain(pairs@, c);
                    let c = c0.push(child);
                    assert(is_chain(pairs@, c)) by {
                        assert forall|i: int| 0 <= i < c.len() - 1 implies #[trigger] is_link(
                            pairs@,
                            c[i + 1],
                            c[i],
                        ) by {
                            if i < c0.len() - 1 {
                                assert(c[i + 1] == c0[i + 1] && c[i] == c0[i]);
                                assert(is_link(pairs@, c0[i + 1], c0[i]));
                            } else {
                                assert(c[i] == c0.last());
                            }
                        }
                    }
                    assert(c.last() == child && c[0] == root);
                }
                assert(is_descendant(pairs@, root, child));
            }
            found.push(child);
            proof {
                assert(found@ == before.push(child));
                assert forall|y: u32| before.contains(y) implies found@.contains(y) by {
                    let i = choose|i: int| 0 <= i < before.len() && before[i] == y;
                    assert(found@[i] == y);
                }
                assert(!found@.contains(root)) by {
                    if found@.contains(root) {
                        let i = choose|i: int| 0 <= i < found@.len() && found@[i] == root;
                        if i < before.len() {
                            assert(before[i] == root);
                        }
                    }
                }
                assert(found@.no_duplicates()) by {
                    assert forall|i: int, j: int|
                        0 <= i < found@.len() && 0 <= j < found@.len() && i != j implies found@[i]
                        != found@[j] by {
                        if i < before.len() && j < before.len() {
                            assert(before[i] != before[j]);
                        } else if i < before.len() {
                            assert(before.contains(before[i]));
                        } else if j < before.len() {
                            assert(before.contains(before[j]));
                        }
                    }
                }
                assert(found@.subrange(0, found0.len() as int) =~= found0) by {
                    assert(before.subrange(0, found0.len() as int) == found0);
                }
                assert forall|i: int| 0 <= i < found.len() implies #[trigger] is_descendant(
                    pairs@,
                    root,
                    found@[i],
                ) by {
                    if i < before.len() {
                        assert(found@[i] == before[i]);
                    }
                }
                assert forall|i: int| 0 <= i < found.len() implies listed(pairs@).contains(
                    #[trigger] found@[i],
                ) by {
                    if i < before.len() {
                        assert(found@[i] == before[i]);
                    }
                }
                lemma_found_bounded(pairs@, found@);
                lemma_children_found_grows(pairs@, root, before, found@, x, k as int);
                assert(found@[found@.len() - 1] == child);
                assert(found_ok(pairs@, root, found@));
            }
        }
        proof {
            assert(children_found(pairs@, root, found@, x, k + 1)) by {
                assert forall|kk: int|
                    0 <= kk < k + 1 && #[trigger] pairs@[kk].1 == x && pairs@[kk].0 != x implies pairs@[kk].0
                    == root || found@.contains(pairs@[kk].0) by {
                    if kk == k {
                        if pairs@[kk].0 != root && !found@.contains(pairs@[kk].0) {
                            assert(pairs@[kk] == (child, parent));
                        }
                    }
                }
            }
        }
        k += 1;
    }
}

/// Collects the descendants of `root` in a snapshot of (process id, parent
/// id) pairs: its children, their children and so on, breadth first, each
/// once, never the root itself, also when parent links form a cycle.
pub fn collect_descendants(pairs: &Vec<(u32, u32)>, root: u32) -> (r: Vec<u32>)
    ensures
        r@.no_duplicates(),
        !r@.contains(root),
        forall|p: u32| r@.contains(p) <==> is_descendant(pairs@, root, p),
{
    let mut found: Vec<u32> = Vec::new();
    assert(found_ok(pairs@, root, found@));
    add_children(pairs, root, &mut found, root);
    let mut head: usize = 0;
    while head < found.len()
        invariant
            head <= found.len(),
            found_ok(pairs@, root, found@),
            children_found(pairs@, root, found@, root, pairs.len() as int),
            forall|j: int|
                0 <= j < head ==> #[trigger] children_found(pairs@, root, found@, found@[j], pairs.len() as int),
        decreases pairs.len() - head,
    {
        let x = found[head];
        let ghost before = found@;
        add_children(pairs, root, &mut found, x);
        proof {
            lemma_children_found_grows(pairs@, root, before, found@, root, pairs.len() as int);
            assert forall|j: int| 0 <= j < head + 1 implies #[trigger] children_found(
                pairs@,
                root,
                found@,
                found@[j],
                pairs.len() as int,
            ) by {
                assert(found@[j] == found@.subrange(0, before.len() as int)[j]);
                if j < head {
                    assert(children_found(pairs@, root, before, before[j], pairs.len() as int));
                    lemma_children_found_grows(pairs@, root, before, found@, before[j], pairs.len() as int);
                }
            }
        }
        head += 1;
    }
    proof {
        assert forall|p: u32| is_descendant(pairs@, root, p) implies #[trigger] found@.contains(p) by {
            let c = choose|c: Seq<u32>|
                c.len() >= 2 && c[0] == root && c.last() == p && #[trigger] is_chain(pairs@, c);
            lemma_closed_reaches(pairs@, root, found@, c, c.len() - 1);
        }
        assert forall|p: u32| #[trigger] found@.contains(p) implies is_descendant(pairs@, root, p) by {
            let i = choose|i: int| 0 <= i < found@.len() && found@[i] == p;
        }
    }
    found
}

} // verus!
