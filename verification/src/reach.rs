//! Reachability over directed edges, used by the audit's completeness score
//! and by the lineage queries.
//!
//! Edges are handed in as `(source, target)` id pairs.  The specification
//! side talks about paths: a node `t` is reachable from `s` when some
//! non-empty sequence of ids starts at `s`, ends at `t`, and links each
//! consecutive pair through an edge.

use vstd::prelude::*;
use vstd::set_lib::lemma_len_subset;

verus! {

/// The views of a sequence of id pairs.
pub open spec fn pair_views(ps: Seq<(String, String)>) -> Seq<(Seq<char>, Seq<char>)> {
    ps.map_values(|p: (String, String)| (p.0@, p.1@))
}

/// Some pair in `ps` goes from `a` to `b`.
pub open spec fn link(ps: Seq<(Seq<char>, Seq<char>)>, a: Seq<char>, b: Seq<char>) -> bool {
    exists|j: int| 0 <= j < ps.len() && ps[j].0 == a && ps[j].1 == b
}

/// `p` is a non-empty walk whose consecutive elements are linked in `ps`.
pub open spec fn is_path(ps: Seq<(Seq<char>, Seq<char>)>, p: Seq<Seq<char>>) -> bool {
    &&& p.len() >= 1
    &&& forall|i: int| 0 <= i < p.len() - 1 ==> link(ps, #[trigger] p[i], p[i + 1])
}

/// `b` can be reached from `a` by following pairs of `ps` (in zero or more steps).
pub open spec fn reaches(ps: Seq<(Seq<char>, Seq<char>)>, a: Seq<char>, b: Seq<char>) -> bool {
    exists|p: Seq<Seq<char>>| #[trigger] is_path(ps, p) && p.first() == a && p.last() == b
}

/// Some element of `vs` has view `x`.
pub open spec fn contains_view(vs: Seq<String>, x: Seq<char>) -> bool {
    exists|i: int| 0 <= i < vs.len() && #[trigger] vs[i]@ == x
}

pub proof fn lemma_reaches_refl(ps: Seq<(Seq<char>, Seq<char>)>, a: Seq<char>)
    ensures
        reaches(ps, a, a),
{
    let p: Seq<Seq<char>> = seq![a];
    assert(is_path(ps, p));
}

pub proof fn lemma_reaches_step(
    ps: Seq<(Seq<char>, Seq<char>)>,
    a: Seq<char>,
    b: Seq<char>,
    c: Seq<char>,
)
    requires
        reaches(ps, a, b),
        link(ps, b, c),
    ensures
        reaches(ps, a, c),
{
    let p = choose|p: Seq<Seq<char>>| #[trigger] is_path(ps, p) && p.first() == a && p.last() == b;
    let q = p.push(c);
    assert forall|i: int| 0 <= i < q.len() - 1 implies link(ps, #[trigger] q[i], q[i + 1]) by {
        if i < p.len() - 1 {
            assert(link(ps, p[i], p[i + 1]));
        } else {
            assert(q[i] == b);
            assert(q[i + 1] == c);
        }
    }
    assert(is_path(ps, q));
    assert(q.first() == a && q.last() == c);
}

/// Every id on a path out of a closed set stays inside the set.
proof fn lemma_path_stays_in_closed(
    ps: Seq<(Seq<char>, Seq<char>)>,
    vs: Seq<String>,
    p: Seq<Seq<char>>,
    i: int,
)
    requires
        is_path(ps, p),
        contains_view(vs, p.first()),
        forall|a: Seq<char>, b: Seq<char>|
            contains_view(vs, a) && #[trigger] link(ps, a, b) ==> contains_view(vs, b),
        0 <= i < p.len(),
    ensures
        contains_view(vs, p[i]),
    decreases i,
{
    if i > 0 {
        lemma_path_stays_in_closed(ps, vs, p, i - 1);
        assert(link(ps, p[i - 1], p[i]));
    }
}

/// A set of ids that contains the start and is closed under links contains
/// everything reachable from the start.
pub proof fn lemma_closed_contains_reachable(
    ps: Seq<(Seq<char>, Seq<char>)>,
    vs: Seq<String>,
    s: Seq<char>,
    t: Seq<char>,
)
    requires
        contains_view(vs, s),
        forall|a: Seq<char>, b: Seq<char>|
            contains_view(vs, a) && #[trigger] link(ps, a, b) ==> contains_view(vs, b),
        reaches(ps, s, t),
    ensures
        contains_view(vs, t),
{
    let p = choose|p: Seq<Seq<char>>| #[trigger] is_path(ps, p) && p.first() == s && p.last() == t;
    lemma_path_stays_in_closed(ps, vs, p, p.len() - 1);
}

/// Reachability only depends on which id pairs are linked, not on how the
/// pair list orders or repeats them.
pub proof fn lemma_reaches_same_links(
    ps1: Seq<(Seq<char>, Seq<char>)>,
    ps2: Seq<(Seq<char>, Seq<char>)>,
    a: Seq<char>,
    b: Seq<char>,
)
    requires
        forall|x: Seq<char>, y: Seq<char>| #[trigger] link(ps1, x, y) <==> #[trigger] link(ps2, x, y),
    ensures
        reaches(ps1, a, b) <==> reaches(ps2, a, b),
{
    if reaches(ps1, a, b) {
        let p = choose|p: Seq<Seq<char>>| #[trigger] is_path(ps1, p) && p.first() == a && p.last() == b;
        assert forall|i: int| 0 <= i < p.len() - 1 implies link(ps2, #[trigger] p[i], p[i + 1]) by {
            assert(link(ps1, p[i], p[i + 1]));
        }
        assert(is_path(ps2, p));
    }
    if reaches(ps2, a, b) {
        let p = choose|p: Seq<Seq<char>>| #[trigger] is_path(ps2, p) && p.first() == a && p.last() == b;
        assert forall|i: int| 0 <= i < p.len() - 1 implies link(ps1, #[trigger] p[i], p[i + 1]) by {
            assert(link(ps2, p[i], p[i + 1]));
        }
        assert(is_path(ps1, p));
    }
}

/// Two pair lists with the same set of pairs link the same ids.
pub proof fn lemma_same_pair_set_same_links(
    ps1: Seq<(Seq<char>, Seq<char>)>,
    ps2: Seq<(Seq<char>, Seq<char>)>,
)
    requires
        ps1.to_set() == ps2.to_set(),
    ensures
        forall|x: Seq<char>, y: Seq<char>| #[trigger] link(ps1, x, y) <==> #[trigger] link(ps2, x, y),
{
    assert forall|x: Seq<char>, y: Seq<char>| #[trigger] link(ps1, x, y) implies link(ps2, x, y) by {
        let j = choose|j: int| 0 <= j < ps1.len() && ps1[j].0 == x && ps1[j].1 == y;
        assert(ps1[j] == (x, y));
        assert(ps1.contains((x, y)));
        assert(ps2.to_set().contains((x, y)));
        let k = choose|k: int| 0 <= k < ps2.len() && ps2[k] == (x, y);
        assert(ps2[k].0 == x && ps2[k].1 == y);
    }
    assert forall|x: Seq<char>, y: Seq<char>| #[trigger] link(ps2, x, y) implies link(ps1, x, y) by {
        let j = choose|j: int| 0 <= j < ps2.len() && ps2[j].0 == x && ps2[j].1 == y;
        assert(ps2[j] == (x, y));
        assert(ps2.contains((x, y)));
        assert(ps1.to_set().contains((x, y)));
        let k = choose|k: int| 0 <= k < ps1.len() && ps1[k] == (x, y);
        assert(ps1[k].0 == x && ps1[k].1 == y);
    }
}

/// From an id with no outgoing pair, nothing but the id itself is reachable.
pub proof fn lemma_no_outgoing_reaches_only_self(
    ps: Seq<(Seq<char>, Seq<char>)>,
    s: Seq<char>,
    t: Seq<char>,
)
    requires
        forall|j: int| 0 <= j < ps.len() ==> (#[trigger] ps[j].0) != s,
        reaches(ps, s, t),
    ensures
        t == s,
{
    let p = choose|p: Seq<Seq<char>>| #[trigger] is_path(ps, p) && p.first() == s && p.last() == t;
    if p.len() >= 2 {
        assert(link(ps, p[0], p[1]));
        let j = choose|j: int| 0 <= j < ps.len() && ps[j].0 == p[0] && ps[j].1 == p[1];
        assert(false);
    }
}

/// Whether `v` holds a string whose characters equal those of `x`.
pub fn contains_string(v: &Vec<String>, x: &String) -> (r: bool)
    ensures
        r == contains_view(v@, x@),
{
    let mut i: usize = 0;
    while i < v.len()
        invariant
            0 <= i <= v@.len(),
            forall|k: int| 0 <= k < i ==> (#[trigger] v@[k]@) != x@,
        decreases v@.len() - i,
    {
        if v[i] == *x {
            assert(v@[i as int]@ == x@);
            return true;
        }
        i = i + 1;
    }
    false
}

/// The universe the traversal moves in: the start id and every pair target.
pub open spec fn id_universe(ps: Seq<(Seq<char>, Seq<char>)>, s: Seq<char>) -> Set<Seq<char>> {
    ps.map_values(|p: (Seq<char>, Seq<char>)| p.1).to_set().insert(s)
}

proof fn lemma_id_universe(ps: Seq<(Seq<char>, Seq<char>)>, s: Seq<char>)
    ensures
        id_universe(ps, s).finite(),
        id_universe(ps, s).contains(s),
        forall|j: int| 0 <= j < ps.len() ==> id_universe(ps, s).contains(#[trigger] ps[j].1),
{
    let targets = ps.map_values(|p: (Seq<char>, Seq<char>)| p.1);
    assert(targets.to_set().finite());
    assert forall|j: int| 0 <= j < ps.len() implies id_universe(ps, s).contains(#[trigger] ps[j].1) by {
        assert(targets[j] == ps[j].1);
        assert(targets.contains(ps[j].1));
    }
}

/// The set of views of the elements of `vs`.
pub open spec fn view_set(vs: Seq<String>) -> Set<Seq<char>> {
    vs.map_values(|x: String| x@).to_set()
}

proof fn lemma_view_set_contains(vs: Seq<String>, t: Seq<char>)
    ensures
        view_set(vs).contains(t) == contains_view(vs, t),
{
    let views = vs.map_values(|x: String| x@);
    if contains_view(vs, t) {
        let i = choose|i: int| 0 <= i < vs.len() && vs[i]@ == t;
        assert(views[i] == t);
        assert(views.contains(t));
    }
    if views.to_set().contains(t) {
        let i = choose|i: int| 0 <= i < views.len() && views[i] == t;
        assert(vs[i]@ == t);
    }
}

/// Collect every id reachable from `start` along the given pairs.
///
/// The result is exactly the set of reachable ids; it lists each id once.
pub fn reach_ids(pairs: &Vec<(String, String)>, start: &String) -> (r: Vec<String>)
    ensures
        forall|t: Seq<char>|
            #[trigger] contains_view(r@, t) <==> reaches(pair_views(pairs@), start@, t),
        forall|k1: int, k2: int| 0 <= k1 < k2 < r@.len() ==> (#[trigger] r@[k1])@ != (#[trigger] r@[k2])@,
{
    let ghost ps = pair_views(pairs@);
    let ghost s = start@;
    let ghost univ = id_universe(ps, s);
    proof {
        lemma_id_universe(ps, s);
        lemma_reaches_refl(ps, s);
    }
    let mut visited: Vec<String> = Vec::new();
    let mut queue: Vec<String> = Vec::new();
    queue.push(start.clone());
    proof {
        assert(queue@[0]@ == s);
    }

    while queue.len() > 0
        invariant
            univ == id_universe(ps, s),
            univ.finite(),
            ps == pair_views(pairs@),
            forall|k: int|
                0 <= k < queue@.len() ==> univ.contains(#[trigger] queue@[k]@) && reaches(
                    ps,
                    s,
                    queue@[k]@,
                ),
            forall|k: int|
                0 <= k < visited@.len() ==> univ.contains(#[trigger] visited@[k]@) && reaches(
                    ps,
                    s,
                    visited@[k]@,
                ),
            forall|a: Seq<char>, b: Seq<char>|
                contains_view(visited@, a) && #[trigger] link(ps, a, b) ==> contains_view(
                    visited@,
                    b,
                ) || contains_view(queue@, b),
            contains_view(visited@, s) || contains_view(queue@, s),
            forall|k1: int, k2: int|
                0 <= k1 < k2 < visited@.len() ==> (#[trigger] visited@[k1])@ != (
                #[trigger] visited@[k2])@,
        decreases univ.difference(view_set(visited@)).len(), queue@.len(),
    {
        proof {
            lemma_len_subset(view_set(visited@), univ);
        }
        let ghost old_visited = visited@;
        let ghost old_queue = queue@;
        let current = queue.pop().unwrap();
        assert(current@ == old_queue[old_queue.len() - 1]@);
        if contains_string(&visited, &current) {
            proof {
                assert forall|a: Seq<char>, b: Seq<char>|
                    contains_view(visited@, a) && #[trigger] link(ps, a, b) implies contains_view(
                    visited@,
                    b,
                ) || contains_view(queue@, b) by {
                    if !contains_view(visited@, b) {
                        let i = choose|i: int| 0 <= i < old_queue.len() && old_queue[i]@ == b;
                        if i < old_queue.len() - 1 {
                            assert(queue@[i]@ == b);
                        } else {
                            assert(b == current@);
                        }
                    }
                }
                if !contains_view(visited@, s) {
                    let i = choose|i: int| 0 <= i < old_queue.len() && old_queue[i]@ == s;
                    if i < old_queue.len() - 1 {
                        assert(queue@[i]@ == s);
                    } else {
                        assert(s == current@);
                    }
                }
            }
            continue;
        }
        let ghost pre_diff = univ.difference(view_set(old_visited));
        visited.push(current.clone());
        proof {
            assert(visited@ == old_visited.push(current));
            assert forall|t: Seq<char>| contains_view(old_visited, t) implies contains_view(
                visited@,
                t,
            ) by {
                let i = choose|i: int| 0 <= i < old_visited.len() && old_visited[i]@ == t;
                assert(visited@[i]@ == t);
            }
            assert(visited@[visited@.len() - 1]@ == current@);
            // the decreases measure shrinks: current joins the visited views
            lemma_view_set_contains(old_visited, current@);
            assert forall|t: Seq<char>| view_set(old_visited).contains(t) implies view_set(
                visited@,
            ).contains(t) by {
                lemma_view_set_contains(old_visited, t);
                lemma_view_set_contains(visited@, t);
            }
            lemma_view_set_contains(visited@, current@);
            assert(view_set(visited@).contains(current@));
            assert(univ.difference(view_set(visited@)).subset_of(
                pre_diff.remove(current@),
            ));
            lemma_len_subset(
                univ.difference(view_set(visited@)),
                pre_diff.remove(current@),
            );
            assert(pre_diff.contains(current@));
            assert(pre_diff.remove(current@).len() < pre_diff.len());
            // carry the closure facts over the pop and the push
            assert forall|a: Seq<char>, b: Seq<char>|
                contains_view(old_visited, a) && #[trigger] link(ps, a, b) implies contains_view(
                visited@,
                b,
            ) || contains_view(queue@, b) by {
                if contains_view(old_visited, b) {
                } else {
                    assert(contains_view(old_queue, b));
                    let i = choose|i: int| 0 <= i < old_queue.len() && old_queue[i]@ == b;
                    if i < old_queue.len() - 1 {
                        assert(queue@[i]@ == b);
                    } else {
                        assert(b == current@);
                        assert(contains_view(visited@, b));
                    }
                }
            }
            if !contains_view(old_visited, s) {
                let i = choose|i: int| 0 <= i < old_queue.len() && old_queue[i]@ == s;
                if i < old_queue.len() - 1 {
                    assert(queue@[i]@ == s);
                } else {
                    assert(s == current@);
                    assert(contains_view(visited@, s));
                }
            }
        }
        let mut j: usize = 0;
        while j < pairs.len()
            invariant
                univ == id_universe(ps, s),
                univ.finite(),
                ps == pair_views(pairs@),
                0 <= j <= pairs@.len(),
                contains_view(visited@, current@),
                visited@ == old_visited.push(current),
                reaches(ps, s, current@),
                forall|k: int|
                    0 <= k < queue@.len() ==> univ.contains(#[trigger] queue@[k]@) && reaches(
                        ps,
                        s,
                        queue@[k]@,
                    ),
                forall|k: int|
                    0 <= k < visited@.len() ==> univ.contains(#[trigger] visited@[k]@) && reaches(
                        ps,
                        s,
                        visited@[k]@,
                    ),
                // links out of previously visited ids are still covered
                forall|a: Seq<char>, b: Seq<char>|
                    contains_view(old_visited, a) && #[trigger] link(ps, a, b) ==> contains_view(
                        visited@,
                        b,
                    ) || contains_view(queue@, b),
                // links out of the current id are covered up to pair j
                forall|jj: int|
                    0 <= jj < j && (#[trigger] ps[jj].0) == current@ ==> contains_view(
                        visited@,
                        ps[jj].1,
                    ) || contains_view(queue@, ps[jj].1),
                contains_view(visited@, s) || contains_view(queue@, s),
                forall|k1: int, k2: int|
                    0 <= k1 < k2 < visited@.len() ==> (#[trigger] visited@[k1])@ != (
                    #[trigger] visited@[k2])@,
            decreases pairs@.len() - j,
        {
            let ghost q_before = queue@;
            let pr = &pairs[j];
            if pr.0 == *&current {
                assert(ps[j as int].0 == current@);
                if !contains_string(&visited, &pr.1) {
                    queue.push(pr.1.clone());
                    proof {
                        assert(queue@ == q_before.push(pairs@[j as int].1));
                        assert(queue@[queue@.len() - 1]@ == ps[j as int].1);
                        assert(link(ps, current@, ps[j as int].1));
                        lemma_reaches_step(ps, s, current@, ps[j as int].1);
                        lemma_id_universe(ps, s);
                    }
                }
            }
            proof {
                // pushes only extend the queue, so earlier witnesses survive
                assert forall|t: Seq<char>| contains_view(q_before, t) implies contains_view(
                    queue@,
                    t,
                ) by {
                    let i = choose|i: int| 0 <= i < q_before.len() && q_before[i]@ == t;
                    assert(queue@[i]@ == t);
                }
                assert forall|jj: int|
                    0 <= jj < j + 1 && (#[trigger] ps[jj].0) == current@ implies contains_view(
                    visited@,
                    ps[jj].1,
                ) || contains_view(queue@, ps[jj].1) by {
                    if jj < j {
                    } else {
                        assert(jj == j);
                        if ps[jj].0 == current@ {
                            if contains_view(old_visited.push(current), ps[jj].1) {
                            } else {
                                assert(contains_view(queue@, ps[jj].1));
                            }
                        }
                    }
                }
            }
            j = j + 1;
        }
        proof {
            // closure now also holds for the freshly visited id
            assert forall|a: Seq<char>, b: Seq<char>|
                contains_view(visited@, a) && #[trigger] link(ps, a, b) implies contains_view(
                visited@,
                b,
            ) || contains_view(queue@, b) by {
                if contains_view(old_visited, a) {
                } else {
                    let i = choose|i: int| 0 <= i < visited@.len() && visited@[i]@ == a;
                    assert(i == visited@.len() - 1);
                    assert(a == current@);
                    let jj = choose|jj: int| 0 <= jj < ps.len() && ps[jj].0 == a && ps[jj].1 == b;
                    assert(contains_view(visited@, ps[jj].1) || contains_view(queue@, ps[jj].1));
                }
            }
        }
    }
    proof {
        assert(queue@.len() == 0);
        assert(contains_view(visited@, s));
        assert forall|t: Seq<char>| reaches(ps, s, t) implies contains_view(visited@, t) by {
            assert forall|a: Seq<char>, b: Seq<char>|
                contains_view(visited@, a) && #[trigger] link(ps, a, b) implies contains_view(
                visited@,
                b,
            ) by {
                assert(!contains_view(queue@, b));
            }
            lemma_closed_contains_reachable(ps, visited@, s, t);
        }
    }
    visited
}

} // verus!
