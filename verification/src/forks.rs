//! Forks of a conversation: the first point at which its records branch, the
//! way that leads there, and every branch behind it.

use vstd::prelude::*;
use vstd::string::*;

use crate::text::{clone_opt, concat2, decimal, decimal_text, lemma_texts_push, opt_text, texts};

verus! {

/// A record and the one that it continues.
#[derive(Debug, PartialEq, Eq)]
pub struct NativeDagRecord {
    pub uuid: String,
    pub parent_uuid: Option<String>,
}

/// One branch of a fork: everything that continues its first record.
#[derive(Debug, PartialEq, Eq)]
pub struct NativeForkBranch {
    pub label: String,
    pub root_uuid: String,
    pub node_uuids: Vec<String>,
    pub leaf_uuids: Vec<String>,
}

/// A fork: the record that is continued more than once, what leads there, and
/// the branches.
#[derive(Debug, PartialEq, Eq)]
pub struct NativeForkView {
    pub fork_parent_uuid: String,
    pub prefix_uuids: Vec<String>,
    pub branches: Vec<NativeForkBranch>,
    pub default_branch: Option<usize>,
}

/// Whether one of `d` has the identifier `t`.
pub open spec fn has_uuid(d: Seq<NativeDagRecord>, t: Seq<char>) -> bool {
    exists|j: int| 0 <= j < d.len() && #[trigger] d[j].uuid@ == t
}

/// The records, each identifier once, as it is first seen.
pub open spec fn first_seen(records: Seq<NativeDagRecord>) -> Seq<NativeDagRecord>
    decreases records.len(),
{
    if records.len() == 0 {
        Seq::empty()
    } else {
        let head = first_seen(records.drop_last());
        if has_uuid(head, records.last().uuid@) {
            head
        } else {
            head.push(records.last())
        }
    }
}

/// No identifier occurs twice.
pub open spec fn distinct(d: Seq<NativeDagRecord>) -> bool {
    forall|i: int, j: int|
        0 <= i < j < d.len() ==> (#[trigger] d[i]).uuid@ != (#[trigger] d[j]).uuid@
}

/// The index of the record with the identifier `t`.
pub open spec fn index_of(d: Seq<NativeDagRecord>, t: Seq<char>) -> Option<int> {
    if has_uuid(d, t) {
        Some(choose|j: int| 0 <= j < d.len() && #[trigger] d[j].uuid@ == t)
    } else {
        None
    }
}

/// The record that record `i` continues, where it is there.
pub open spec fn parent_at(d: Seq<NativeDagRecord>, i: int) -> Option<int> {
    match d[i].parent_uuid {
        Some(p) => index_of(d, p@),
        None => None,
    }
}

/// The records among the first `k` that continue record `i`, in order.
pub open spec fn children_below(d: Seq<NativeDagRecord>, i: int, k: nat) -> Seq<int>
    decreases k,
{
    if k == 0 {
        Seq::empty()
    } else {
        let head = children_below(d, i, (k - 1) as nat);
        if parent_at(d, k - 1) == Some(i) {
            head.push(k - 1)
        } else {
            head
        }
    }
}

/// The records that continue record `i`, in order.
pub open spec fn children_at(d: Seq<NativeDagRecord>, i: int) -> Seq<int> {
    children_below(d, i, d.len())
}

/// Whether record `i` is continued more than once.
pub open spec fn forks_at(d: Seq<NativeDagRecord>, i: int) -> bool {
    children_at(d, i).len() > 1
}

/// Whether `f` is the first record that is continued more than once.
pub open spec fn first_fork(d: Seq<NativeDagRecord>, f: int) -> bool {
    &&& 0 <= f < d.len()
    &&& forks_at(d, f)
    &&& forall|i: int| 0 <= i < f ==> !#[trigger] forks_at(d, i)
}

/// The record that `k` steps towards the start lead to.
pub open spec fn ancestor(d: Seq<NativeDagRecord>, i: int, k: nat) -> Option<int>
    decreases k,
{
    if k == 0 {
        Some(i)
    } else {
        match ancestor(d, i, (k - 1) as nat) {
            Some(j) => parent_at(d, j),
            None => None,
        }
    }
}

/// Whether the steps from record `i` towards the start lead back to it.
pub open spec fn on_cycle(d: Seq<NativeDagRecord>, i: int) -> bool {
    exists|p: nat| p >= 1 && #[trigger] ancestor(d, i, p) == Some(i)
}

/// Whether the first fork of the records lies on a cycle. No such records come
/// from a conversation: a record continues an earlier one.
pub open spec fn fork_on_cycle(records: Seq<NativeDagRecord>) -> bool {
    exists|f: int| #[trigger] first_fork(first_seen(records), f) && on_cycle(
        first_seen(records),
        f,
    )
}

/// Record `i` and everything that continues it, each record before what
/// continues it and in order, `fuel` generations deep.
pub open spec fn preorder(d: Seq<NativeDagRecord>, i: int, fuel: nat) -> Seq<int>
    decreases fuel, 0nat,
{
    if fuel == 0 {
        Seq::empty()
    } else {
        seq![i] + preorder_all(d, children_at(d, i), (fuel - 1) as nat)
    }
}

/// The same for each of a list of records.
pub open spec fn preorder_all(d: Seq<NativeDagRecord>, list: Seq<int>, fuel: nat) -> Seq<int>
    decreases fuel, 1 + list.len(),
{
    if list.len() == 0 {
        Seq::empty()
    } else {
        preorder(d, list[0], fuel) + preorder_all(d, list.skip(1), fuel)
    }
}

/// Record `i` and everything that continues it.
pub open spec fn subtree(d: Seq<NativeDagRecord>, i: int) -> Seq<int> {
    preorder(d, i, d.len())
}

/// Those of `nodes` that nothing continues.
pub open spec fn leaves(d: Seq<NativeDagRecord>, nodes: Seq<int>) -> Seq<int>
    decreases nodes.len(),
{
    if nodes.len() == 0 {
        Seq::empty()
    } else {
        let head = leaves(d, nodes.drop_last());
        if children_at(d, nodes.last()).len() == 0 {
            head.push(nodes.last())
        } else {
            head
        }
    }
}

/// The identifiers of records.
pub open spec fn uuids(d: Seq<NativeDagRecord>, nodes: Seq<int>) -> Seq<Seq<char>> {
    nodes.map_values(|i: int| d[i].uuid@)
}

/// Whether `up` is the way from record `f` towards the start: step by step, up
/// to where there is nothing to continue or a record would come again.
pub open spec fn is_ascent(d: Seq<NativeDagRecord>, f: int, up: Seq<int>) -> bool {
    &&& up.len() > 0
    &&& up[0] == f
    &&& forall|k: int| 1 <= k < up.len() ==> parent_at(d, up[k - 1]) == Some(#[trigger] up[k])
    &&& up.skip(1).no_duplicates()
    &&& match parent_at(d, up.last()) {
        Some(next) => up.skip(1).contains(next),
        None => true,
    }
}

/// The identifier that the way towards the start ends with although no record
/// has it.
pub open spec fn dangling(d: Seq<NativeDagRecord>, i: int) -> Option<Seq<char>> {
    if parent_at(d, i) is None {
        opt_text(d[i].parent_uuid)
    } else {
        None
    }
}

/// The identifiers on the way from `f` towards the start.
pub open spec fn ascent_uuids(d: Seq<NativeDagRecord>, up: Seq<int>) -> Seq<Seq<char>> {
    match dangling(d, up.last()) {
        Some(t) => uuids(d, up).push(t),
        None => uuids(d, up),
    }
}

/// Whether `b` is the branch number `n` of a fork, which starts at `root`.
pub open spec fn shows_branch(
    d: Seq<NativeDagRecord>,
    root: int,
    n: nat,
    b: NativeForkBranch,
) -> bool {
    &&& b.label@ == "Branch "@ + decimal(n + 1)
    &&& b.root_uuid@ == d[root].uuid@
    &&& texts(b.node_uuids@) == uuids(d, subtree(d, root))
    &&& texts(b.leaf_uuids@) == uuids(d, leaves(d, subtree(d, root)))
}

/// Whether `view` shows the fork at record `f`, its default branch aside.
pub open spec fn shows_fork(d: Seq<NativeDagRecord>, f: int, view: NativeForkView) -> bool {
    &&& view.fork_parent_uuid@ == d[f].uuid@
    &&& exists|up: Seq<int>| #[trigger] is_ascent(d, f, up) && texts(view.prefix_uuids@)
        == ascent_uuids(d, up).reverse()
    &&& view.branches@.len() == children_at(d, f).len()
    &&& forall|n: int|
        0 <= n < view.branches@.len() ==> shows_branch(
            d,
            children_at(d, f)[n],
            n as nat,
            #[trigger] view.branches@[n],
        )
}

/// Whether `b` holds the record `hint`.
pub open spec fn branch_has(b: NativeForkBranch, hint: Seq<char>) -> bool {
    texts(b.node_uuids@).contains(hint)
}

/// The branch that is open by default: the first that holds the hint.
pub open spec fn default_of(
    branches: Seq<NativeForkBranch>,
    hint: Option<Seq<char>>,
    r: Option<usize>,
) -> bool {
    match hint {
        None => r is None,
        Some(h) => match r {
            None => forall|n: int| 0 <= n < branches.len() ==> !#[trigger] branch_has(
                branches[n],
                h,
            ),
            Some(i) => {
                &&& i < branches.len()
                &&& branch_has(branches[i as int], h)
                &&& forall|n: int| 0 <= n < i ==> !#[trigger] branch_has(branches[n], h)
            },
        },
    }
}

proof fn lemma_first_seen_distinct(records: Seq<NativeDagRecord>)
    ensures
        distinct(first_seen(records)),
        first_seen(records).len() <= records.len(),
    decreases records.len(),
{
    if records.len() > 0 {
        lemma_first_seen_distinct(records.drop_last());
    }
}

proof fn lemma_index_of(d: Seq<NativeDagRecord>, j: int)
    requires
        distinct(d),
        0 <= j < d.len(),
    ensures
        index_of(d, d[j].uuid@) == Some(j),
{
    let t = d[j].uuid@;
    assert(has_uuid(d, t));
    let c = choose|c: int| 0 <= c < d.len() && #[trigger] d[c].uuid@ == t;
    if c < j {
        assert(d[c].uuid@ != d[j].uuid@);
    } else if j < c {
        assert(d[j].uuid@ != d[c].uuid@);
    }
}

proof fn lemma_parent_range(d: Seq<NativeDagRecord>, i: int)
    ensures
        parent_at(d, i) is Some ==> 0 <= parent_at(d, i)->0 < d.len(),
{
}

proof fn lemma_children_range(d: Seq<NativeDagRecord>, i: int, k: nat)
    requires
        k <= d.len(),
    ensures
        forall|n: int|
            0 <= n < children_below(d, i, k).len() ==> 0 <= #[trigger] children_below(d, i, k)[n]
                < k && parent_at(d, children_below(d, i, k)[n]) == Some(i),
        forall|j: int|
            0 <= j < k && #[trigger] parent_at(d, j) == Some(i) ==> children_below(
                d,
                i,
                k,
            ).contains(j),
        children_below(d, i, k).no_duplicates(),
    decreases k,
{
    if k > 0 {
        lemma_children_range(d, i, (k - 1) as nat);
        let head = children_below(d, i, (k - 1) as nat);
        let all = children_below(d, i, k);
        assert forall|j: int| 0 <= j < k && #[trigger] parent_at(d, j) == Some(i) implies all.contains(
            j,
        ) by {
            if j < k - 1 {
                assert(head.contains(j));
                let n = choose|n: int| 0 <= n < head.len() && head[n] == j;
                assert(all[n] == j);
            } else {
                assert(all[all.len() - 1] == j);
            }
        }
    }
}

proof fn lemma_ancestor_range(d: Seq<NativeDagRecord>, i: int, k: nat)
    requires
        0 <= i < d.len(),
    ensures
        ancestor(d, i, k) is Some ==> 0 <= ancestor(d, i, k)->0 < d.len(),
    decreases k,
{
    if k > 0 {
        lemma_ancestor_range(d, i, (k - 1) as nat);
    }
}

/// Steps add up.
proof fn lemma_ancestor_adds(d: Seq<NativeDagRecord>, i: int, a: nat, b: nat)
    ensures
        ancestor(d, i, a + b) == match ancestor(d, i, a) {
            Some(j) => ancestor(d, j, b),
            None => None,
        },
    decreases b,
{
    if b > 0 {
        lemma_ancestor_adds(d, i, a, (b - 1) as nat);
    }
}

/// Distinct indices below `n` are at most `n`.
proof fn lemma_pigeonhole(s: Seq<int>, n: nat)
    requires
        s.no_duplicates(),
        forall|i: int| 0 <= i < s.len() ==> 0 <= #[trigger] s[i] < n,
    ensures
        s.len() <= n,
{
    s.unique_seq_to_set();
    let range = vstd::set_lib::set_int_range(0, n as int);
    vstd::set_lib::lemma_int_range(0, n as int);
    assert(s.to_set().subset_of(range)) by {
        assert forall|x: int| s.to_set().contains(x) implies range.contains(x) by {
            let k = choose|k: int| 0 <= k < s.len() && s[k] == x;
            assert(0 <= s[k] < n);
        }
    }
    vstd::set_lib::lemma_len_subset(s.to_set(), range);
}

/// The records on the way from `i` up to `k` steps.
spec fn way(d: Seq<NativeDagRecord>, i: int, k: nat) -> Seq<int> {
    Seq::new(k + 1, |n: int| ancestor(d, i, n as nat)->0)
}

/// A way that leads to a record off every cycle meets no record twice, so it is
/// shorter than there are records.
proof fn lemma_way_is_short(d: Seq<NativeDagRecord>, i: int, k: nat, f: int)
    requires
        0 <= i < d.len(),
        ancestor(d, i, k) == Some(f),
        !on_cycle(d, f),
    ensures
        k < d.len(),
{
    let w = way(d, i, k);
    assert forall|n: int| 0 <= n <= k implies #[trigger] ancestor(d, i, n as nat) is Some by {
        lemma_ancestor_adds(d, i, n as nat, (k - n) as nat);
    }
    assert forall|n: int| 0 <= n < w.len() implies 0 <= #[trigger] w[n] < d.len() by {
        assert(ancestor(d, i, n as nat) is Some);
        lemma_ancestor_range(d, i, n as nat);
    }
    assert forall|a: int, b: int| 0 <= a < b < w.len() implies w[a] != w[b] by {
        if w[a] == w[b] {
            assert(ancestor(d, i, a as nat) is Some && ancestor(d, i, b as nat) is Some);
            let x = w[a];
            let p = (b - a) as nat;
            lemma_ancestor_adds(d, i, a as nat, p);
            assert(ancestor(d, x, p) == Some(x));
            lemma_ancestor_adds(d, i, a as nat, (k - a) as nat);
            assert(ancestor(d, x, (k - a) as nat) == Some(f));
            lemma_ancestor_adds(d, x, p, (k - a) as nat);
            lemma_ancestor_adds(d, x, (k - a) as nat, p);
            assert(p + (k - a) as nat == (k - a) as nat + p);
            assert(ancestor(d, f, p) == Some(f));
            assert(on_cycle(d, f));
        }
    }
    lemma_pigeonhole(w, d.len());
}

/// A record that lies on a cycle is met again within as many steps as there are
/// records.
proof fn lemma_cycle_is_short(d: Seq<NativeDagRecord>, f: int, p: nat)
    requires
        0 <= f < d.len(),
        p >= 1,
        ancestor(d, f, p) == Some(f),
    ensures
        exists|q: nat| 1 <= q <= d.len() && #[trigger] ancestor(d, f, q) == Some(f),
    decreases p,
{
    if exists|q: nat| 1 <= q < p && #[trigger] ancestor(d, f, q) == Some(f) {
        let q = choose|q: nat| 1 <= q < p && #[trigger] ancestor(d, f, q) == Some(f);
        lemma_cycle_is_short(d, f, q);
    } else {
        let w = way(d, f, (p - 1) as nat);
        assert forall|n: int| 0 <= n < p implies #[trigger] ancestor(d, f, n as nat) is Some by {
            lemma_ancestor_adds(d, f, n as nat, (p - n) as nat);
        }
        assert forall|n: int| 0 <= n < w.len() implies 0 <= #[trigger] w[n] < d.len() by {
            assert(ancestor(d, f, n as nat) is Some);
            lemma_ancestor_range(d, f, n as nat);
        }
        assert forall|a: int, b: int| 0 <= a < b < w.len() implies w[a] != w[b] by {
            if w[a] == w[b] {
                assert(ancestor(d, f, a as nat) is Some && ancestor(d, f, b as nat) is Some);
                let x = w[a];
                lemma_ancestor_adds(d, f, b as nat, (p - b) as nat);
                assert(ancestor(d, x, (p - b) as nat) == Some(f));
                lemma_ancestor_adds(d, f, a as nat, (p - b) as nat);
                let q = (a + (p - b)) as nat;
                assert(a as nat + (p - b) as nat == q);
                assert(ancestor(d, f, q) == Some(f));
                assert(1 <= q < p);
            }
        }
        lemma_pigeonhole(w, d.len());
    }
}

/// Indices as integers.
pub open spec fn ints(v: Seq<usize>) -> Seq<int> {
    v.map_values(|x: usize| x as int)
}

/// An index as an integer.
pub open spec fn opt_int(v: Option<usize>) -> Option<int> {
    match v {
        Some(x) => Some(x as int),
        None => None,
    }
}

/// Whether `parents` lists what each record continues.
pub open spec fn lists_parents(d: Seq<NativeDagRecord>, parents: Seq<Option<usize>>) -> bool {
    &&& parents.len() == d.len()
    &&& forall|i: int| 0 <= i < d.len() ==> opt_int(#[trigger] parents[i]) == parent_at(d, i)
}

fn find_uuid(nodes: &Vec<NativeDagRecord>, t: &str) -> (r: Option<usize>)
    ensures
        match r {
            Some(j) => j < nodes@.len() && nodes@[j as int].uuid@ == t@,
            None => !has_uuid(nodes@, t@),
        },
{
    let wanted = t.to_owned();
    for i in 0..nodes.len()
        invariant
            wanted@ == t@,
            forall|j: int| 0 <= j < i ==> #[trigger] nodes@[j].uuid@ != t@,
    {
        if nodes[i].uuid == wanted {
            return Some(i);
        }
    }
    None
}

fn collect_first_seen(records: &[NativeDagRecord]) -> (nodes: Vec<NativeDagRecord>)
    ensures
        nodes@ == first_seen(records@),
{
    let mut nodes: Vec<NativeDagRecord> = Vec::new();
    for i in 0..records.len()
        invariant
            nodes@ == first_seen(records@.take(i as int)),
    {
        proof {
            assert(records@.take(i + 1).drop_last() =~= records@.take(i as int));
            assert(records@.take(i + 1).last() == records@[i as int]);
        }
        let r = &records[i];
        let known = match find_uuid(&nodes, r.uuid.as_str()) {
            Some(j) => {
                proof {
                    assert(nodes@[j as int].uuid@ == r.uuid@);
                }
                true
            },
            None => false,
        };
        if !known {
            nodes.push(
                NativeDagRecord { uuid: r.uuid.clone(), parent_uuid: clone_opt(&r.parent_uuid) },
            );
        }
    }
    proof {
        assert(records@.take(records@.len() as int) =~= records@);
    }
    nodes
}

fn parent_indices(nodes: &Vec<NativeDagRecord>) -> (parents: Vec<Option<usize>>)
    requires
        distinct(nodes@),
    ensures
        lists_parents(nodes@, parents@),
{
    let mut parents: Vec<Option<usize>> = Vec::new();
    for i in 0..nodes.len()
        invariant
            distinct(nodes@),
            parents@.len() == i,
            forall|j: int| 0 <= j < i ==> opt_int(#[trigger] parents@[j]) == parent_at(nodes@, j),
    {
        let found = match &nodes[i].parent_uuid {
            Some(p) => {
                let at = find_uuid(nodes, p.as_str());
                proof {
                    if at is Some {
                        lemma_index_of(nodes@, at->0 as int);
                    }
                }
                at
            },
            None => None,
        };
        parents.push(found);
    }
    parents
}

fn children_of(Ghost(d): Ghost<Seq<NativeDagRecord>>, parents: &Vec<Option<usize>>, i: usize) -> (out:
    Vec<usize>)
    requires
        lists_parents(d, parents@),
    ensures
        ints(out@) == children_at(d, i as int),
        forall|n: int| 0 <= n < out@.len() ==> #[trigger] out@[n] < d.len(),
{
    let mut out: Vec<usize> = Vec::new();
    for k in 0..parents.len()
        invariant
            lists_parents(d, parents@),
            ints(out@) == children_below(d, i as int, k as nat),
            forall|n: int| 0 <= n < out@.len() ==> #[trigger] out@[n] < d.len(),
    {
        proof {
            assert(opt_int(parents@[k as int]) == parent_at(d, k as int));
        }
        let mine = match parents[k] {
            Some(p) => p == i,
            None => false,
        };
        if mine {
            let ghost before = out@;
            out.push(k);
            proof {
                assert(ints(out@) =~= ints(before).push(k as int));
            }
        }
    }
    out
}

/// Whether the steps from record `f` towards the start lead back to it.
fn leads_back(Ghost(d): Ghost<Seq<NativeDagRecord>>, parents: &Vec<Option<usize>>, f: usize) -> (r:
    bool)
    requires
        lists_parents(d, parents@),
        f < d.len(),
    ensures
        r == on_cycle(d, f as int),
{
    let mut at: usize = f;
    for k in 0..parents.len()
        invariant
            lists_parents(d, parents@),
            f < d.len(),
            at < d.len(),
            ancestor(d, f as int, k as nat) == Some(at as int),
            forall|q: nat| 1 <= q <= k ==> #[trigger] ancestor(d, f as int, q) != Some(f as int),
    {
        proof {
            assert(opt_int(parents@[at as int]) == parent_at(d, at as int));
            lemma_parent_range(d, at as int);
            assert(ancestor(d, f as int, (k + 1) as nat) == parent_at(d, at as int));
        }
        match parents[at] {
            Some(p) => {
                if p == f {
                    proof {
                        assert(ancestor(d, f as int, (k + 1) as nat) == Some(f as int));
                    }
                    return true;
                }
                at = p;
            },
            None => {
                proof {
                    assert forall|q: nat| q >= 1 implies #[trigger] ancestor(d, f as int, q) != Some(
                        f as int,
                    ) by {
                        if q > k {
                            lemma_ancestor_adds(
                                d,
                                f as int,
                                (k + 1) as nat,
                                (q - (k + 1)) as nat,
                            );
                        }
                    }
                }
                return false;
            },
        }
    }
    proof {
        if on_cycle(d, f as int) {
            let p = choose|p: nat| p >= 1 && #[trigger] ancestor(d, f as int, p) == Some(f as int);
            lemma_cycle_is_short(d, f as int, p);
        }
    }
    false
}

fn find_fork(Ghost(d): Ghost<Seq<NativeDagRecord>>, parents: &Vec<Option<usize>>) -> (r: Option<
    usize,
>)
    requires
        lists_parents(d, parents@),
    ensures
        match r {
            Some(f) => first_fork(d, f as int),
            None => forall|i: int| 0 <= i < d.len() ==> !#[trigger] forks_at(d, i),
        },
{
    for i in 0..parents.len()
        invariant
            lists_parents(d, parents@),
            forall|j: int| 0 <= j < i ==> !#[trigger] forks_at(d, j),
    {
        let children = children_of(Ghost(d), parents, i);
        proof {
            assert(ints(children@).len() == children@.len());
        }
        if children.len() > 1 {
            proof {
                assert(forks_at(d, i as int));
            }
            return Some(i);
        }
        proof {
            assert(!forks_at(d, i as int));
        }
    }
    None
}

/// What is still to be visited: the stack, its top first.
spec fn pending(d: Seq<NativeDagRecord>, stack: Seq<int>, fuels: Seq<nat>) -> Seq<int>
    decreases stack.len(),
{
    if stack.len() == 0 {
        Seq::empty()
    } else {
        preorder(d, stack.last(), fuels.last()) + pending(d, stack.drop_last(), fuels.drop_last())
    }
}

fn uuid_texts(nodes: &Vec<NativeDagRecord>, list: &Vec<usize>) -> (out: Vec<String>)
    requires
        forall|i: int| 0 <= i < list@.len() ==> #[trigger] list@[i] < nodes@.len(),
    ensures
        texts(out@) == uuids(nodes@, ints(list@)),
{
    let mut out: Vec<String> = Vec::new();
    for i in 0..list.len()
        invariant
            forall|i: int| 0 <= i < list@.len() ==> #[trigger] list@[i] < nodes@.len(),
            texts(out@) == uuids(nodes@, ints(list@)).take(i as int),
    {
        let text = nodes[list[i]].uuid.clone();
        proof {
            lemma_texts_push(out@, text);
            assert(uuids(nodes@, ints(list@)).take(i + 1) =~= uuids(nodes@, ints(list@)).take(
                i as int,
            ).push(text@));
        }
        out.push(text);
    }
    proof {
        assert(uuids(nodes@, ints(list@)).take(list@.len() as int) =~= uuids(nodes@, ints(list@)));
    }
    out
}

/// Visits record `root`, which continues the fork `f`, and everything behind
/// it.
fn visit(nodes: &Vec<NativeDagRecord>, parents: &Vec<Option<usize>>, f: usize, root: usize) -> (r: (
    Vec<usize>,
    Vec<usize>,
))
    requires
        lists_parents(nodes@, parents@),
        root < nodes@.len(),
        parent_at(nodes@, root as int) == Some(f as int),
        !on_cycle(nodes@, f as int),
    ensures
        ints(r.0@) == subtree(nodes@, root as int),
        ints(r.1@) == leaves(nodes@, subtree(nodes@, root as int)),
        forall|i: int| 0 <= i < r.0@.len() ==> #[trigger] r.0@[i] < nodes@.len(),
        forall|i: int| 0 <= i < r.1@.len() ==> #[trigger] r.1@[i] < nodes@.len(),
{
    let ghost d = nodes@;
    let ghost n = d.len();
    let ghost whole = subtree(d, root as int);
    let mut stack: Vec<usize> = Vec::new();
    let ghost mut fuels: Seq<nat> = seq![n];
    let mut visited: Vec<usize> = Vec::new();
    let mut ends: Vec<usize> = Vec::new();
    stack.push(root);
    proof {
        assert(ints(stack@).last() == root as int);
        assert(ints(stack@).drop_last() =~= Seq::<int>::empty());
        assert(fuels.last() == n);
        assert(pending(d, ints(stack@).drop_last(), fuels.drop_last()) =~= Seq::<int>::empty());
        assert(pending(d, ints(stack@), fuels) =~= whole);
        assert(ints(visited@) =~= Seq::<int>::empty());
        assert(ints(ends@) =~= Seq::<int>::empty());
        assert(ints(visited@) + pending(d, ints(stack@), fuels) =~= whole);
        assert(ancestor(d, root as int, 0) == Some(root as int));
    }
    while stack.len() > 0
        invariant
            d == nodes@,
            n == d.len(),
            lists_parents(d, parents@),
            root < n,
            parent_at(d, root as int) == Some(f as int),
            !on_cycle(d, f as int),
            whole == subtree(d, root as int),
            fuels.len() == stack@.len(),
            forall|k: int|
                0 <= k < stack@.len() ==> (#[trigger] stack@[k]) < n && fuels[k] <= n && ancestor(
                    d,
                    stack@[k] as int,
                    (n - fuels[k]) as nat,
                ) == Some(root as int),
            ints(visited@) + pending(d, ints(stack@), fuels) == whole,
            ints(ends@) == leaves(d, ints(visited@)),
            forall|i: int| 0 <= i < visited@.len() ==> #[trigger] visited@[i] < n,
            forall|i: int| 0 <= i < ends@.len() ==> #[trigger] ends@[i] < n,
        decreases whole.len() - visited@.len(),
    {
        let ghost stack0 = stack@;
        let ghost fuels0 = fuels;
        let ghost visited0 = visited@;
        let last: usize = stack.len() - 1;
        let u: usize = stack[last];
        stack.pop();
        let ghost fuel = fuels0.last();
        let ghost depth = (n - fuel) as nat;
        proof {
            assert(stack0[last as int] == u);
            assert(ancestor(d, u as int, (depth + 1) as nat) == Some(f as int));
            lemma_way_is_short(d, u as int, (depth + 1) as nat, f as int);
            assert(fuel >= 1);
            fuels = fuels0.drop_last();
            assert(ints(stack@) =~= ints(stack0).drop_last());
            assert(ints(stack0).last() == u as int);
        }
        let ghost rest = pending(d, ints(stack@), fuels);
        visited.push(u);
        proof {
            assert(ints(visited@) =~= ints(visited0).push(u as int));
            assert(ints(visited@).drop_last() =~= ints(visited0));
            let here = preorder(d, u as int, fuel);
            assert(here == seq![u as int] + preorder_all(
                d,
                children_at(d, u as int),
                (fuel - 1) as nat,
            ));
            assert(whole == ints(visited0) + (here + rest));
            assert(whole =~= ints(visited@) + (preorder_all(
                d,
                children_at(d, u as int),
                (fuel - 1) as nat,
            ) + rest));
        }
        let children = children_of(Ghost(d), parents, u);
        let ghost kids = children_at(d, u as int);
        proof {
            assert(ints(children@).len() == children@.len());
            lemma_children_range(d, u as int, n);
        }
        if children.len() == 0 {
            let ghost ends0 = ends@;
            ends.push(u);
            proof {
                assert(ints(ends@) =~= ints(ends0).push(u as int));
            }
        }
        let mut j: usize = children.len();
        proof {
            assert(kids.skip(j as int) =~= Seq::<int>::empty());
            assert(preorder_all(d, kids.skip(j as int), (fuel - 1) as nat) + rest =~= rest);
        }
        while j > 0
            invariant
                d == nodes@,
                n == d.len(),
                root < n,
                1 <= fuel <= n,
                depth == n - fuel,
                j <= children@.len(),
                kids == children_at(d, u as int),
                ints(children@) == kids,
                ancestor(d, u as int, depth) == Some(root as int),
                forall|i: int|
                    0 <= i < kids.len() ==> 0 <= #[trigger] kids[i] < n && parent_at(d, kids[i])
                        == Some(u as int),
                fuels.len() == stack@.len(),
                forall|k: int|
                    0 <= k < stack@.len() ==> (#[trigger] stack@[k]) < n && fuels[k] <= n
                        && ancestor(d, stack@[k] as int, (n - fuels[k]) as nat) == Some(
                        root as int,
                    ),
                pending(d, ints(stack@), fuels) == preorder_all(
                    d,
                    kids.skip(j as int),
                    (fuel - 1) as nat,
                ) + rest,
            decreases j,
        {
            j = j - 1;
            let c: usize = children[j];
            let ghost stack1 = stack@;
            let ghost fuels1 = fuels;
            stack.push(c);
            proof {
                fuels = fuels1.push((fuel - 1) as nat);
                assert(kids[j as int] == c as int);
                assert(parent_at(d, c as int) == Some(u as int));
                lemma_ancestor_adds(d, c as int, 1, depth);
                assert(ancestor(d, c as int, 0) == Some(c as int));
                assert(ancestor(d, c as int, 1) == Some(u as int));
                assert(ancestor(d, c as int, (1 + depth) as nat) == Some(root as int));
                assert((n - (fuel - 1) as nat) as nat == 1 + depth);
                assert(ints(stack@).drop_last() =~= ints(stack1));
                assert(ints(stack@).last() == c as int);
                assert(fuels.drop_last() =~= fuels1);
                let from = kids.skip(j as int);
                assert(from[0] == c as int);
                assert(from.skip(1) =~= kids.skip(j + 1));
                assert(pending(d, ints(stack@), fuels) == preorder(d, c as int, (fuel - 1) as nat)
                    + pending(d, ints(stack1), fuels1));
                assert(pending(d, ints(stack@), fuels) =~= preorder_all(
                    d,
                    from,
                    (fuel - 1) as nat,
                ) + rest);
            }
        }
        proof {
            assert(kids.skip(0) =~= kids);
        }
    }
    proof {
        assert(pending(d, ints(stack@), fuels) =~= Seq::<int>::empty());
        assert(ints(visited@) =~= whole);
    }
    (visited, ends)
}

/// The way from record `f` towards the start.
fn ascend(nodes: &Vec<NativeDagRecord>, parents: &Vec<Option<usize>>, f: usize) -> (up: Vec<usize>)
    requires
        lists_parents(nodes@, parents@),
        f < nodes@.len(),
    ensures
        is_ascent(nodes@, f as int, ints(up@)),
        up@.len() > 0,
        forall|i: int| 0 <= i < up@.len() ==> #[trigger] up@[i] < nodes@.len(),
{
    let ghost d = nodes@;
    let mut up: Vec<usize> = Vec::new();
    up.push(f);
    proof {
        assert(ints(up@).skip(1) =~= Seq::<int>::empty());
    }
    loop
        invariant
            d == nodes@,
            lists_parents(d, parents@),
            f < d.len(),
            up@.len() > 0,
            up@[0] == f,
            forall|i: int| 0 <= i < up@.len() ==> #[trigger] up@[i] < d.len(),
            forall|k: int|
                1 <= k < ints(up@).len() ==> parent_at(d, ints(up@)[k - 1]) == Some(
                    #[trigger] ints(up@)[k],
                ),
            ints(up@).skip(1).no_duplicates(),
        decreases d.len() + 1 - up@.len(),
    {
        proof {
            let tail = ints(up@).skip(1);
            assert forall|i: int| 0 <= i < tail.len() implies 0 <= #[trigger] tail[i] < d.len() by {
                assert(tail[i] == up@[i + 1] as int);
            }
            lemma_pigeonhole(tail, d.len());
        }
        let last: usize = up.len() - 1;
        let at: usize = up[last];
        proof {
            assert(opt_int(parents@[at as int]) == parent_at(d, at as int));
            lemma_parent_range(d, at as int);
            assert(ints(up@).last() == at as int);
        }
        match parents[at] {
            None => return up,
            Some(next) => {
                let mut seen = false;
                for k in 1..up.len()
                    invariant
                        up@.len() > 0,
                        seen == exists|j: int| 1 <= j < k && #[trigger] up@[j] == next,
                {
                    if up[k] == next {
                        seen = true;
                        proof {
                            assert(up@[k as int] == next);
                        }
                    }
                }
                let ghost tail = ints(up@).skip(1);
                if seen {
                    proof {
                        let j = choose|j: int| 1 <= j < up@.len() && #[trigger] up@[j] == next;
                        assert(tail[j - 1] == next as int);
                        assert(tail.contains(next as int));
                    }
                    return up;
                }
                let ghost up0 = up@;
                up.push(next);
                proof {
                    assert(ints(up@) =~= ints(up0).push(next as int));
                    assert(ints(up@).skip(1) =~= tail.push(next as int));
                    assert(!tail.contains(next as int)) by {
                        if tail.contains(next as int) {
                            let j = choose|j: int| 0 <= j < tail.len() && tail[j] == next as int;
                            assert(up0[j + 1] == next);
                        }
                    }
                    assert forall|a: int, b: int|
                        0 <= a < b < ints(up@).skip(1).len() implies ints(up@).skip(1)[a] != ints(
                        up@,
                    ).skip(1)[b] by {
                        if b == tail.len() {
                            assert(tail[a] == ints(up@).skip(1)[a]);
                        }
                    }
                    let tail1 = ints(up@).skip(1);
                    assert forall|i: int| 0 <= i < tail1.len() implies 0 <= #[trigger] tail1[i]
                        < d.len() by {
                        assert(tail1[i] == up@[i + 1] as int);
                    }
                    lemma_pigeonhole(tail1, d.len());
                }
            },
        }
    }
}

fn reversed(parts: &Vec<String>) -> (out: Vec<String>)
    ensures
        texts(out@) == texts(parts@).reverse(),
{
    let mut out: Vec<String> = Vec::new();
    let mut i: usize = parts.len();
    while i > 0
        invariant
            i <= parts@.len(),
            texts(out@) == texts(parts@).reverse().take(parts@.len() - i),
        decreases i,
    {
        i = i - 1;
        let text = parts[i].clone();
        proof {
            lemma_texts_push(out@, text);
            assert(texts(parts@).reverse().take(parts@.len() - i) =~= texts(
                parts@,
            ).reverse().take(parts@.len() - i - 1).push(text@));
        }
        out.push(text);
    }
    proof {
        assert(texts(parts@).reverse().take(parts@.len() as int) =~= texts(parts@).reverse());
    }
    out
}

/// Whether `b` holds the record `hint`.
pub fn branch_holds(b: &NativeForkBranch, hint: &str) -> (r: bool)
    ensures
        r == branch_has(*b, hint@),
{
    let wanted = hint.to_owned();
    for i in 0..b.node_uuids.len()
        invariant
            wanted@ == hint@,
            forall|j: int| 0 <= j < i ==> #[trigger] texts(b.node_uuids@)[j] != hint@,
    {
        if b.node_uuids[i] == wanted {
            proof {
                assert(texts(b.node_uuids@)[i as int] == hint@);
            }
            return true;
        }
        proof {
            assert(texts(b.node_uuids@)[i as int] == b.node_uuids@[i as int]@);
        }
    }
    false
}

/// Whether the first fork of `records` lies on a cycle; see [`fork_on_cycle`].
pub fn has_cyclic_fork(records: &[NativeDagRecord]) -> (r: bool)
    ensures
        r == fork_on_cycle(records@),
{
    let nodes = collect_first_seen(records);
    proof {
        lemma_first_seen_distinct(records@);
    }
    let parents = parent_indices(&nodes);
    let ghost d = nodes@;
    match find_fork(Ghost(d), &parents) {
        Some(f) => {
            let r = leads_back(Ghost(d), &parents, f);
            proof {
                lemma_first_fork_is_one(d, f as int);
            }
            r
        },
        None => {
            proof {
                assert forall|f: int| !#[trigger] first_fork(d, f) by {}
            }
            false
        },
    }
}

proof fn lemma_first_fork_is_one(d: Seq<NativeDagRecord>, f: int)
    requires
        first_fork(d, f),
    ensures
        forall|g: int| #[trigger] first_fork(d, g) ==> g == f,
{
    assert forall|g: int| #[trigger] first_fork(d, g) implies g == f by {
        if g < f {
            assert(!forks_at(d, g));
        } else if f < g {
            assert(!forks_at(d, f));
        }
    }
}

/// Whether `r` shows the fork of the records, with the branch that holds `hint`
/// open by default.
pub open spec fn fork_view_is(
    records: Seq<NativeDagRecord>,
    hint: Option<Seq<char>>,
    r: Option<NativeForkView>,
) -> bool {
    let d = first_seen(records);
    match r {
        None => forall|i: int| 0 <= i < d.len() ==> !#[trigger] forks_at(d, i),
        Some(view) => exists|f: int| #[trigger]
            first_fork(d, f) && shows_fork(d, f, view) && default_of(
                view.branches@,
                hint,
                view.default_branch,
            ),
    }
}

/// The first fork of a conversation, if it has one.
///
/// The prefix leads to the record that is continued more than once, which is
/// part of it, and each branch holds everything behind its first record. The
/// leaf hint only chooses which branch is open by default.
pub fn compute_fork_view(records: &[NativeDagRecord], leaf_hint: Option<&str>) -> (r: Option<
    NativeForkView,
>)
    requires
        !fork_on_cycle(records@),
    ensures
        fork_view_is(
            records@,
            match leaf_hint {
                Some(h) => Some(h@),
                None => None,
            },
            r,
        ),
{
    let nodes = collect_first_seen(records);
    proof {
        lemma_first_seen_distinct(records@);
    }
    let parents = parent_indices(&nodes);
    let ghost d = nodes@;
    let f: usize = match find_fork(Ghost(d), &parents) {
        Some(f) => f,
        None => return None,
    };
    proof {
        assert(first_fork(d, f as int));
        assert(!on_cycle(d, f as int));
    }

    let up = ascend(&nodes, &parents, f);
    let ghost climbed = ints(up@);
    let mut way_up = uuid_texts(&nodes, &up);
    let top: usize = up[up.len() - 1];
    proof {
        assert(climbed.last() == top as int);
        assert(opt_int(parents@[top as int]) == parent_at(d, top as int));
    }
    if parents[top].is_none() {
        if let Some(p) = &nodes[top].parent_uuid {
            proof {
                lemma_texts_push(way_up@, *p);
            }
            way_up.push(p.clone());
        }
    }
    proof {
        assert(texts(way_up@) == ascent_uuids(d, climbed));
    }
    let prefix_uuids = reversed(&way_up);

    let roots = children_of(Ghost(d), &parents, f);
    let mut branches: Vec<NativeForkBranch> = Vec::new();
    proof {
        lemma_children_range(d, f as int, d.len());
        assert(ints(roots@).len() == roots@.len());
    }
    for n in 0..roots.len()
        invariant
            d == nodes@,
            lists_parents(d, parents@),
            !on_cycle(d, f as int),
            ints(roots@) == children_at(d, f as int),
            forall|k: int|
                0 <= k < children_at(d, f as int).len() ==> 0 <= #[trigger] children_at(
                    d,
                    f as int,
                )[k] < d.len() && parent_at(d, children_at(d, f as int)[k]) == Some(f as int),
            branches@.len() == n,
            forall|k: int|
                0 <= k < n ==> shows_branch(
                    d,
                    children_at(d, f as int)[k],
                    k as nat,
                    #[trigger] branches@[k],
                ),
    {
        let root: usize = roots[n];
        proof {
            assert(ints(roots@)[n as int] == root as int);
            assert(children_at(d, f as int)[n as int] == root as int);
        }
        let (visited, ends) = visit(&nodes, &parents, f, root);
        let label = concat2("Branch ", decimal_text(n as u64 + 1).as_str());
        branches.push(
            NativeForkBranch {
                label,
                root_uuid: nodes[root].uuid.clone(),
                node_uuids: uuid_texts(&nodes, &visited),
                leaf_uuids: uuid_texts(&nodes, &ends),
            },
        );
    }

    let mut default_branch: Option<usize> = None;
    if let Some(hint) = leaf_hint {
        let mut n: usize = 0;
        while n < branches.len() && default_branch.is_none()
            invariant
                n <= branches@.len(),
                match default_branch {
                    Some(i) => i < branches@.len() && branch_has(branches@[i as int], hint@)
                        && forall|k: int|
                        0 <= k < i ==> !#[trigger] branch_has(branches@[k], hint@),
                    None => forall|k: int|
                        0 <= k < n ==> !#[trigger] branch_has(branches@[k], hint@),
                },
            decreases branches@.len() - n, if default_branch is None { 1int } else { 0int },
        {
            if branch_holds(&branches[n], hint) {
                default_branch = Some(n);
            } else {
                n = n + 1;
            }
        }
    }
    let view = NativeForkView {
        fork_parent_uuid: nodes[f].uuid.clone(),
        prefix_uuids,
        branches,
        default_branch,
    };
    proof {
        assert(is_ascent(d, f as int, climbed));
        assert(shows_fork(d, f as int, view));
    }
    Some(view)
}

proof fn lemma_ascent_prefix(d: Seq<NativeDagRecord>, f: int, a: Seq<int>, b: Seq<int>, k: int)
    requires
        is_ascent(d, f, a),
        is_ascent(d, f, b),
        0 <= k < a.len(),
        k < b.len(),
    ensures
        a[k] == b[k],
    decreases k,
{
    if k > 0 {
        lemma_ascent_prefix(d, f, a, b, k - 1);
        assert(parent_at(d, a[k - 1]) == Some(a[k]));
        assert(parent_at(d, b[k - 1]) == Some(b[k]));
    }
}

proof fn lemma_ascent_not_shorter(d: Seq<NativeDagRecord>, f: int, a: Seq<int>, b: Seq<int>)
    requires
        is_ascent(d, f, a),
        is_ascent(d, f, b),
    ensures
        a.len() >= b.len(),
{
    if a.len() < b.len() {
        let n = a.len() as int;
        lemma_ascent_prefix(d, f, a, b, n - 1);
        assert(parent_at(d, b[n - 1]) == Some(b[n]));
        assert(a.last() == b[n - 1]);
        assert(a.skip(1).contains(b[n]));
        let j = choose|j: int| 0 <= j < a.skip(1).len() && a.skip(1)[j] == b[n];
        lemma_ascent_prefix(d, f, a, b, j + 1);
        assert(b.skip(1)[j] == b.skip(1)[n - 1]);
    }
}

/// The way from a fork towards the start is one and only one.
pub proof fn law_one_prefix(d: Seq<NativeDagRecord>, f: int, a: Seq<int>, b: Seq<int>)
    requires
        is_ascent(d, f, a),
        is_ascent(d, f, b),
    ensures
        a == b,
{
    lemma_ascent_not_shorter(d, f, a, b);
    lemma_ascent_not_shorter(d, f, b, a);
    assert forall|k: int| 0 <= k < a.len() implies a[k] == b[k] by {
        lemma_ascent_prefix(d, f, a, b, k);
    }
    assert(a =~= b);
}

/// The leaf hint never hides anything: whatever the hint, the fork, its prefix
/// and its branches are the same.
pub proof fn law_hint_only_picks_default(
    d: Seq<NativeDagRecord>,
    f: int,
    a: NativeForkView,
    b: NativeForkView,
)
    requires
        shows_fork(d, f, a),
        shows_fork(d, f, b),
    ensures
        a.fork_parent_uuid@ == b.fork_parent_uuid@,
        texts(a.prefix_uuids@) == texts(b.prefix_uuids@),
        a.branches@.len() == b.branches@.len(),
        forall|n: int|
            0 <= n < a.branches@.len() ==> {
                &&& (#[trigger] a.branches@[n]).label@ == b.branches@[n].label@
                &&& a.branches@[n].root_uuid@ == b.branches@[n].root_uuid@
                &&& texts(a.branches@[n].node_uuids@) == texts(b.branches@[n].node_uuids@)
                &&& texts(a.branches@[n].leaf_uuids@) == texts(b.branches@[n].leaf_uuids@)
            },
{
    let up = choose|up: Seq<int>| #[trigger]
        is_ascent(d, f, up) && texts(a.prefix_uuids@) == ascent_uuids(d, up).reverse();
    let other = choose|up: Seq<int>| #[trigger]
        is_ascent(d, f, up) && texts(b.prefix_uuids@) == ascent_uuids(d, up).reverse();
    law_one_prefix(d, f, up, other);
    assert forall|n: int| 0 <= n < a.branches@.len() implies {
        &&& (#[trigger] a.branches@[n]).label@ == b.branches@[n].label@
        &&& a.branches@[n].root_uuid@ == b.branches@[n].root_uuid@
        &&& texts(a.branches@[n].node_uuids@) == texts(b.branches@[n].node_uuids@)
        &&& texts(a.branches@[n].leaf_uuids@) == texts(b.branches@[n].leaf_uuids@)
    } by {
        assert(shows_branch(d, children_at(d, f)[n], n as nat, b.branches@[n]));
    }
}

proof fn lemma_preorder_all_holds(
    d: Seq<NativeDagRecord>,
    list: Seq<int>,
    fuel: nat,
    c: int,
    j: int,
)
    requires
        list.contains(c),
        preorder(d, c, fuel).contains(j),
    ensures
        preorder_all(d, list, fuel).contains(j),
    decreases list.len(),
{
    let head = preorder(d, list[0], fuel);
    let rest = preorder_all(d, list.skip(1), fuel);
    if list[0] == c {
        let k = choose|k: int| 0 <= k < head.len() && head[k] == j;
        assert((head + rest)[k] == j);
    } else {
        let k = choose|k: int| 0 <= k < list.len() && list[k] == c;
        assert(list.skip(1)[k - 1] == c);
        lemma_preorder_all_holds(d, list.skip(1), fuel, c, j);
        let m = choose|m: int| 0 <= m < rest.len() && rest[m] == j;
        assert((head + rest)[head.len() + m] == j);
    }
}

proof fn lemma_preorder_holds(d: Seq<NativeDagRecord>, i: int, fuel: nat, j: int, k: nat)
    requires
        0 <= j < d.len(),
        k < fuel,
        ancestor(d, j, k) == Some(i),
    ensures
        preorder(d, i, fuel).contains(j),
    decreases k,
{
    let below = preorder_all(d, children_at(d, i), (fuel - 1) as nat);
    if k == 0 {
        assert(preorder(d, i, fuel)[0] == j);
    } else {
        let c = ancestor(d, j, (k - 1) as nat)->0;
        lemma_ancestor_range(d, j, (k - 1) as nat);
        lemma_preorder_holds(d, c, (fuel - 1) as nat, j, (k - 1) as nat);
        lemma_children_range(d, i, d.len());
        assert(parent_at(d, c) == Some(i));
        assert(children_at(d, i).contains(c));
        lemma_preorder_all_holds(d, children_at(d, i), (fuel - 1) as nat, c, j);
        let m = choose|m: int| 0 <= m < below.len() && below[m] == j;
        assert(preorder(d, i, fuel)[m + 1] == j);
    }
}

proof fn lemma_preorder_only(d: Seq<NativeDagRecord>, i: int, fuel: nat, j: int)
    requires
        0 <= i < d.len(),
        preorder(d, i, fuel).contains(j),
    ensures
        0 <= j < d.len(),
        exists|k: nat| #[trigger] ancestor(d, j, k) == Some(i),
    decreases fuel, 0nat,
{
    let all = preorder(d, i, fuel);
    let m = choose|m: int| 0 <= m < all.len() && all[m] == j;
    if m == 0 {
        assert(ancestor(d, j, 0) == Some(i));
    } else {
        let below = preorder_all(d, children_at(d, i), (fuel - 1) as nat);
        assert(below[m - 1] == j);
        lemma_children_range(d, i, d.len());
        lemma_preorder_all_only(d, i, children_at(d, i), (fuel - 1) as nat, j);
    }
}

proof fn lemma_preorder_all_only(
    d: Seq<NativeDagRecord>,
    i: int,
    list: Seq<int>,
    fuel: nat,
    j: int,
)
    requires
        forall|n: int|
            0 <= n < list.len() ==> 0 <= #[trigger] list[n] < d.len() && parent_at(d, list[n])
                == Some(i),
        preorder_all(d, list, fuel).contains(j),
    ensures
        0 <= j < d.len(),
        exists|k: nat| #[trigger] ancestor(d, j, k) == Some(i),
    decreases fuel, 1 + list.len(),
{
    let all = preorder_all(d, list, fuel);
    let head = preorder(d, list[0], fuel);
    let rest = preorder_all(d, list.skip(1), fuel);
    let m = choose|m: int| 0 <= m < all.len() && all[m] == j;
    if m < head.len() {
        assert(head[m] == j);
        lemma_preorder_only(d, list[0], fuel, j);
        let k = choose|k: nat| #[trigger] ancestor(d, j, k) == Some(list[0]);
        assert(parent_at(d, list[0]) == Some(i));
        assert(ancestor(d, j, (k + 1) as nat) == Some(i));
    } else {
        assert(rest[m - head.len()] == j);
        assert forall|n: int| 0 <= n < list.skip(1).len() implies 0 <= #[trigger] list.skip(1)[n]
            < d.len() && parent_at(d, list.skip(1)[n]) == Some(i) by {
            assert(list.skip(1)[n] == list[n + 1]);
        }
        lemma_preorder_all_only(d, i, list.skip(1), fuel, j);
    }
}

/// A branch holds everything behind its first record and nothing else: a record
/// is in it exactly where steps towards the start lead from it to that record.
pub proof fn law_branch_is_whole_subtree(d: Seq<NativeDagRecord>, f: int, root: int, j: int)
    requires
        0 <= root < d.len(),
        0 <= j < d.len(),
        parent_at(d, root) == Some(f),
        !on_cycle(d, f),
    ensures
        subtree(d, root).contains(j) <==> exists|k: nat| #[trigger]
            ancestor(d, j, k) == Some(root),
{
    if subtree(d, root).contains(j) {
        lemma_preorder_only(d, root, d.len(), j);
    }
    if exists|k: nat| #[trigger] ancestor(d, j, k) == Some(root) {
        let k = choose|k: nat| #[trigger] ancestor(d, j, k) == Some(root);
        assert(ancestor(d, j, (k + 1) as nat) == Some(f));
        lemma_way_is_short(d, j, (k + 1) as nat, f);
        lemma_preorder_holds(d, root, d.len(), j, k);
    }
}

/// No record is in two branches of a fork.
pub proof fn law_branches_are_disjoint(
    d: Seq<NativeDagRecord>,
    f: int,
    a: int,
    b: int,
    j: int,
)
    requires
        0 <= a < d.len(),
        0 <= b < d.len(),
        a != b,
        parent_at(d, a) == Some(f),
        parent_at(d, b) == Some(f),
        !on_cycle(d, f),
    ensures
        !(subtree(d, a).contains(j) && subtree(d, b).contains(j)),
{
    if subtree(d, a).contains(j) && subtree(d, b).contains(j) {
        lemma_preorder_only(d, a, d.len(), j);
        lemma_preorder_only(d, b, d.len(), j);
        let x = choose|k: nat| #[trigger] ancestor(d, j, k) == Some(a);
        let y = choose|k: nat| #[trigger] ancestor(d, j, k) == Some(b);
        lemma_two_ways(d, f, a, b, j, x, y);
    }
}

proof fn lemma_two_ways(
    d: Seq<NativeDagRecord>,
    f: int,
    a: int,
    b: int,
    j: int,
    x: nat,
    y: nat,
)
    requires
        a != b,
        parent_at(d, a) == Some(f),
        parent_at(d, b) == Some(f),
        ancestor(d, j, x) == Some(a),
        ancestor(d, j, y) == Some(b),
    ensures
        on_cycle(d, f),
    decreases if x > y { 1int } else { 0int },
{
    if x > y {
        lemma_two_ways(d, f, b, a, j, y, x);
    } else {
        assert(x != y);
        let p = (y - x) as nat;
        assert(ancestor(d, j, (x + 1) as nat) == Some(f));
        assert(ancestor(d, j, (y + 1) as nat) == Some(f));
        lemma_ancestor_adds(d, j, (x + 1) as nat, p);
        assert((x + 1) as nat + p == (y + 1) as nat);
        assert(ancestor(d, f, p) == Some(f));
    }
}

/// Whether no record before record `i` has its identifier.
pub open spec fn fresh(records: Seq<NativeDagRecord>, i: int) -> bool {
    &&& 0 <= i < records.len()
    &&& forall|j: int| 0 <= j < i ==> (#[trigger] records[j]).uuid@ != records[i].uuid@
}

/// Whether record `c` names record `p` as the one that it continues. A record
/// that repeats an identifier counts for nothing.
pub open spec fn continues(records: Seq<NativeDagRecord>, c: int, p: int) -> bool {
    &&& fresh(records, c)
    &&& fresh(records, p)
    &&& records[c].parent_uuid is Some
    &&& records[c].parent_uuid->0@ == records[p].uuid@
}

/// Where the records that are kept stand.
spec fn places(records: Seq<NativeDagRecord>) -> Seq<int>
    decreases records.len(),
{
    if records.len() == 0 {
        Seq::empty()
    } else {
        let head = places(records.drop_last());
        if has_uuid(first_seen(records.drop_last()), records.last().uuid@) {
            head
        } else {
            head.push(records.len() - 1)
        }
    }
}

proof fn lemma_places(records: Seq<NativeDagRecord>)
    ensures
        places(records).len() == first_seen(records).len(),
        forall|i: int|
            0 <= i < places(records).len() ==> {
                &&& 0 <= #[trigger] places(records)[i] < records.len()
                &&& first_seen(records)[i] == records[places(records)[i]]
                &&& fresh(records, places(records)[i])
            },
        forall|i: int, j: int|
            0 <= i < j < places(records).len() ==> #[trigger] places(records)[i]
                < #[trigger] places(records)[j],
        forall|k: int| #[trigger] fresh(records, k) ==> places(records).contains(k),
        forall|k: int|
            0 <= k < records.len() ==> has_uuid(
                first_seen(records),
                (#[trigger] records[k]).uuid@,
            ),
    decreases records.len(),
{
    if records.len() > 0 {
        let rest = records.drop_last();
        lemma_places(rest);
        let head = places(rest);
        let all = places(records);
        let d = first_seen(rest);
        let n = rest.len() as int;
        let known = has_uuid(d, records.last().uuid@);
        assert forall|k: int| 0 <= k < n implies #[trigger] fresh(rest, k) == fresh(
            records,
            k,
        ) by {
            assert(forall|j: int| 0 <= j < n ==> rest[j] == #[trigger] records[j]);
        }
        assert(fresh(records, n) == !known) by {
            if known {
                let j = choose|j: int| 0 <= j < d.len() && #[trigger] d[j].uuid@ == records.last().uuid@;
                assert(records[head[j]].uuid@ == records[n].uuid@);
            } else {
                assert forall|j: int| 0 <= j < n implies (#[trigger] records[j]).uuid@
                    != records[n].uuid@ by {
                    assert(rest[j] == records[j]);
                }
            }
        }
        assert forall|k: int| #[trigger] fresh(records, k) implies all.contains(k) by {
            if k < n {
                assert(fresh(rest, k));
                let i = choose|i: int| 0 <= i < head.len() && head[i] == k;
                assert(all[i] == k);
            } else {
                assert(all[all.len() - 1] == n);
            }
        }
        assert forall|k: int| 0 <= k < records.len() implies has_uuid(
            first_seen(records),
            (#[trigger] records[k]).uuid@,
        ) by {
            if k < n {
                assert(rest[k] == records[k]);
                let j = choose|j: int| 0 <= j < d.len() && #[trigger] d[j].uuid@ == records[k].uuid@;
                assert(first_seen(records)[j].uuid@ == records[k].uuid@);
            } else if !known {
                assert(first_seen(records)[d.len() as int].uuid@ == records[n].uuid@);
            }
        }
        assert forall|i: int| 0 <= i < all.len() implies {
            &&& 0 <= #[trigger] all[i] < records.len()
            &&& first_seen(records)[i] == records[all[i]]
            &&& fresh(records, all[i])
        } by {
            if i < head.len() {
                assert(all[i] == head[i]);
                assert(fresh(rest, head[i]));
            }
        }
    }
}

proof fn lemma_continues(records: Seq<NativeDagRecord>, i: int, j: int)
    requires
        0 <= i < first_seen(records).len(),
        0 <= j < first_seen(records).len(),
    ensures
        parent_at(first_seen(records), i) == Some(j) <==> continues(
            records,
            places(records)[i],
            places(records)[j],
        ),
{
    let d = first_seen(records);
    lemma_places(records);
    lemma_first_seen_distinct(records);
    assert(fresh(records, places(records)[i]) && fresh(records, places(records)[j]));
    if continues(records, places(records)[i], places(records)[j]) {
        lemma_index_of(d, j);
    }
}

proof fn lemma_children_in_order(d: Seq<NativeDagRecord>, i: int, k: nat)
    ensures
        forall|n: int|
            0 <= n < children_below(d, i, k).len() ==> #[trigger] children_below(d, i, k)[n] < k,
        forall|a: int, b: int|
            0 <= a < b < children_below(d, i, k).len() ==> #[trigger] children_below(d, i, k)[a]
                < #[trigger] children_below(d, i, k)[b],
    decreases k,
{
    if k > 0 {
        lemma_children_in_order(d, i, (k - 1) as nat);
        let head = children_below(d, i, (k - 1) as nat);
        let all = children_below(d, i, k);
        assert forall|n: int| 0 <= n < all.len() implies #[trigger] all[n] < k by {
            assert(n < head.len() ==> all[n] == head[n]);
        }
        assert forall|a: int, b: int| 0 <= a < b < all.len() implies #[trigger] all[a]
            < #[trigger] all[b] by {
            assert(all[a] == head[a]);
            assert(b < head.len() ==> all[b] == head[b]);
        }
    }
}

/// Whether `roots` are the records that continue record `p`, in order, at least
/// two, and no earlier record is continued by two.
pub open spec fn first_forks_into(
    records: Seq<NativeDagRecord>,
    p: int,
    roots: Seq<int>,
) -> bool {
    &&& fresh(records, p)
    &&& roots.len() >= 2
    &&& forall|n: int| 0 <= n < roots.len() ==> continues(records, #[trigger] roots[n], p)
    &&& forall|m: int, n: int| 0 <= m < n < roots.len() ==> #[trigger] roots[m] < #[trigger] roots[n]
    &&& forall|c: int| #[trigger] continues(records, c, p) ==> roots.contains(c)
    &&& forall|q: int, a: int, b: int|
        q < p && #[trigger] continues(records, a, q) && #[trigger] continues(records, b, q) ==> a
            == b
}

/// The fork that is shown is that of the first record which two others name as
/// the one that they continue. Its branches start at these, in the order in which
/// they were written, and are counted from one.
pub proof fn law_first_fork_is_shown(
    records: Seq<NativeDagRecord>,
    hint: Option<Seq<char>>,
    view: NativeForkView,
)
    requires
        fork_view_is(records, hint, Some(view)),
    ensures
        exists|p: int, roots: Seq<int>| #[trigger]
            first_forks_into(records, p, roots) && starts_at(records, p, roots, view),
{
    let d = first_seen(records);
    let at = places(records);
    let f = choose|f: int| #[trigger]
        first_fork(d, f) && shows_fork(d, f, view) && default_of(
            view.branches@,
            hint,
            view.default_branch,
        );
    lemma_places(records);
    lemma_children_range(d, f, d.len());
    lemma_children_in_order(d, f, d.len());
    let list = children_at(d, f);
    let p = at[f];
    let roots = Seq::new(list.len(), |n: int| at[list[n]]);
    assert forall|n: int| 0 <= n < roots.len() implies continues(records, #[trigger] roots[n], p) by {
        assert(parent_at(d, list[n]) == Some(f));
        lemma_continues(records, list[n], f);
    }
    assert forall|c: int| #[trigger] continues(records, c, p) implies roots.contains(c) by {
        let i = choose|i: int| 0 <= i < at.len() && at[i] == c;
        lemma_continues(records, i, f);
        assert(list.contains(i));
        let n = choose|n: int| 0 <= n < list.len() && list[n] == i;
        assert(roots[n] == c);
    }
    assert forall|m: int, n: int| 0 <= m < n < roots.len() implies #[trigger] roots[m]
        < #[trigger] roots[n] by {
        assert(list[m] < list[n]);
        assert(at[list[m]] < at[list[n]]);
    }
    assert forall|q: int, a: int, b: int|
        q < p && #[trigger] continues(records, a, q) && #[trigger] continues(
            records,
            b,
            q,
        ) implies a == b by {
        let k = choose|k: int| 0 <= k < at.len() && at[k] == q;
        assert(k < f) by {
            if f < k {
                assert(at[f] < at[k]);
            }
        }
        assert(!forks_at(d, k));
        lemma_one_child(records, k, a, b);
    }
    assert(first_forks_into(records, p, roots));
    assert forall|n: int| 0 <= n < view.branches@.len() implies {
        let b = #[trigger] view.branches@[n];
        &&& b.root_uuid@ == records[roots[n]].uuid@
        &&& b.label@ == "Branch "@ + decimal((n + 1) as nat)
    } by {
        assert(shows_branch(d, list[n], n as nat, view.branches@[n]));
        assert(d[list[n]] == records[at[list[n]]]);
    }
}

/// Whether `view` shows a fork at record `p` into branches that start at `roots`.
pub open spec fn starts_at(
    records: Seq<NativeDagRecord>,
    p: int,
    roots: Seq<int>,
    view: NativeForkView,
) -> bool {
    &&& view.fork_parent_uuid@ == records[p].uuid@
    &&& view.branches@.len() == roots.len()
    &&& forall|n: int|
        0 <= n < view.branches@.len() ==> {
            let b = #[trigger] view.branches@[n];
            &&& b.root_uuid@ == records[roots[n]].uuid@
            &&& b.label@ == "Branch "@ + decimal((n + 1) as nat)
        }
}

proof fn lemma_one_child(records: Seq<NativeDagRecord>, k: int, a: int, b: int)
    requires
        0 <= k < first_seen(records).len(),
        !forks_at(first_seen(records), k),
        continues(records, a, places(records)[k]),
        continues(records, b, places(records)[k]),
    ensures
        a == b,
{
    let d = first_seen(records);
    let at = places(records);
    lemma_places(records);
    let list = children_at(d, k);
    lemma_children_range(d, k, d.len());
    let i = choose|i: int| 0 <= i < at.len() && at[i] == a;
    let j = choose|j: int| 0 <= j < at.len() && at[j] == b;
    lemma_continues(records, i, k);
    lemma_continues(records, j, k);
    assert(list.contains(i) && list.contains(j));
    let x = choose|x: int| 0 <= x < list.len() && list[x] == i;
    let y = choose|y: int| 0 <= y < list.len() && list[y] == j;
    assert(list.len() <= 1);
    assert(x == y);
}

/// No fork is shown exactly where no record is continued by two others.
pub proof fn law_no_fork_is_shown_where_there_is_none(
    records: Seq<NativeDagRecord>,
    hint: Option<Seq<char>>,
    r: Option<NativeForkView>,
)
    requires
        fork_view_is(records, hint, r),
    ensures
        r is None <==> forall|q: int, a: int, b: int| #[trigger]
            continues(records, a, q) && #[trigger] continues(records, b, q) ==> a == b,
{
    let d = first_seen(records);
    let at = places(records);
    lemma_places(records);
    match r {
        None => {
            assert forall|q: int, a: int, b: int| #[trigger]
                continues(records, a, q) && #[trigger] continues(records, b, q) implies a == b by {
                let k = choose|k: int| 0 <= k < at.len() && at[k] == q;
                assert(!forks_at(d, k));
                lemma_one_child(records, k, a, b);
            }
        },
        Some(view) => {
            law_first_fork_is_shown(records, hint, view);
            let (p, roots) = choose|p: int, roots: Seq<int>| #[trigger]
                first_forks_into(records, p, roots) && starts_at(records, p, roots, view);
            assert(continues(records, roots[0], p) && continues(records, roots[1], p));
            assert(roots[0] < roots[1]);
        },
    }
}

/// Whether `t` is one of `list`.
pub open spec fn lists(list: Seq<String>, t: Seq<char>) -> bool {
    exists|m: int| 0 <= m < list.len() && (#[trigger] list[m])@ == t
}

/// The branch that is open by default is the first one that holds the record
/// which the conversation was left at; none is where no branch holds it or no
/// such record is known.
pub proof fn law_hint_opens_its_branch(
    records: Seq<NativeDagRecord>,
    hint: Option<Seq<char>>,
    view: NativeForkView,
)
    requires
        fork_view_is(records, hint, Some(view)),
    ensures
        opens_first_with(view, hint),
{
    let d = first_seen(records);
    let f = choose|f: int| #[trigger]
        first_fork(d, f) && shows_fork(d, f, view) && default_of(
            view.branches@,
            hint,
            view.default_branch,
        );
    lemma_default(view, hint);
}

/// Whether the branch that is open by default is the first that holds `hint`.
pub open spec fn opens_first_with(view: NativeForkView, hint: Option<Seq<char>>) -> bool {
    match view.default_branch {
        Some(b) => {
            &&& hint is Some
            &&& b < view.branches@.len()
            &&& lists(view.branches@[b as int].node_uuids@, hint->0)
            &&& forall|n: int|
                0 <= n < b ==> !lists((#[trigger] view.branches@[n]).node_uuids@, hint->0)
        },
        None => hint is None || forall|n: int|
            0 <= n < view.branches@.len() ==> !lists(
                (#[trigger] view.branches@[n]).node_uuids@,
                hint->0,
            ),
    }
}

pub proof fn lemma_lists(list: Seq<String>, t: Seq<char>)
    ensures
        texts(list).contains(t) == lists(list, t),
{
    if texts(list).contains(t) {
        let m = choose|m: int| 0 <= m < texts(list).len() && texts(list)[m] == t;
        assert(list[m]@ == t);
    }
    if lists(list, t) {
        let m = choose|m: int| 0 <= m < list.len() && (#[trigger] list[m])@ == t;
        assert(texts(list)[m] == t);
    }
}

pub proof fn lemma_default(view: NativeForkView, hint: Option<Seq<char>>)
    requires
        default_of(view.branches@, hint, view.default_branch),
    ensures
        opens_first_with(view, hint),
{
    if hint is Some {
        assert forall|n: int| 0 <= n < view.branches@.len() implies branch_has(
            #[trigger] view.branches@[n],
            hint->0,
        ) == lists(view.branches@[n].node_uuids@, hint->0) by {
            lemma_lists(view.branches@[n].node_uuids@, hint->0);
        }
    }
}

proof fn lemma_preorder_from_parents(d: Seq<NativeDagRecord>, i: int, fuel: nat)
    ensures
        forall|m: int|
            1 <= m < preorder(d, i, fuel).len() ==> exists|k: int|
                0 <= k < m && parent_at(d, #[trigger] preorder(d, i, fuel)[m]) == Some(
                    #[trigger] preorder(d, i, fuel)[k],
                ),
    decreases fuel, 0nat,
{
    if fuel > 0 {
        let list = children_at(d, i);
        let below = preorder_all(d, list, (fuel - 1) as nat);
        let all = preorder(d, i, fuel);
        lemma_children_range(d, i, d.len());
        lemma_preorder_all_from_parents(d, i, list, (fuel - 1) as nat);
        assert(all[0] == i);
        assert forall|m: int| 1 <= m < all.len() implies exists|k: int|
            0 <= k < m && parent_at(d, #[trigger] all[m]) == Some(#[trigger] all[k]) by {
            assert(all[m] == below[m - 1]);
            if parent_at(d, below[m - 1]) == Some(i) {
                assert(parent_at(d, all[m]) == Some(all[0]));
            } else {
                let k = choose|k: int|
                    0 <= k < m - 1 && parent_at(d, below[m - 1]) == Some(#[trigger] below[k]);
                assert(all[k + 1] == below[k]);
            }
        }
    }
}

proof fn lemma_preorder_all_from_parents(
    d: Seq<NativeDagRecord>,
    i: int,
    list: Seq<int>,
    fuel: nat,
)
    requires
        forall|n: int| 0 <= n < list.len() ==> parent_at(d, #[trigger] list[n]) == Some(i),
    ensures
        forall|m: int|
            0 <= m < preorder_all(d, list, fuel).len() ==> parent_at(
                d,
                #[trigger] preorder_all(d, list, fuel)[m],
            ) == Some(i) || exists|k: int|
                0 <= k < m && parent_at(d, preorder_all(d, list, fuel)[m]) == Some(
                    #[trigger] preorder_all(d, list, fuel)[k],
                ),
    decreases fuel, 1 + list.len(),
{
    if list.len() > 0 {
        let head = preorder(d, list[0], fuel);
        let rest = preorder_all(d, list.skip(1), fuel);
        let all = preorder_all(d, list, fuel);
        lemma_preorder_from_parents(d, list[0], fuel);
        assert forall|n: int| 0 <= n < list.skip(1).len() implies parent_at(
            d,
            #[trigger] list.skip(1)[n],
        ) == Some(i) by {
            assert(list.skip(1)[n] == list[n + 1]);
        }
        lemma_preorder_all_from_parents(d, i, list.skip(1), fuel);
        assert forall|m: int| 0 <= m < all.len() implies parent_at(d, #[trigger] all[m]) == Some(i)
            || exists|k: int| 0 <= k < m && parent_at(d, all[m]) == Some(#[trigger] all[k]) by {
            if m < head.len() {
                assert(all[m] == head[m]);
                if m > 0 {
                    let k = choose|k: int|
                        0 <= k < m && parent_at(d, head[m]) == Some(#[trigger] head[k]);
                    assert(all[k] == head[k]);
                } else {
                    assert(head[0] == list[0]);
                }
            } else {
                let n = head.len() as int;
                assert(all[m] == rest[m - n]);
                if parent_at(d, rest[m - n]) != Some(i) {
                    let k = choose|k: int|
                        0 <= k < m - n && parent_at(d, rest[m - n]) == Some(#[trigger] rest[k]);
                    assert(all[k + n] == rest[k]);
                }
            }
        }
    }
}

proof fn lemma_leaves(d: Seq<NativeDagRecord>, nodes: Seq<int>)
    ensures
        forall|l: int|
            0 <= l < leaves(d, nodes).len() ==> nodes.contains(#[trigger] leaves(d, nodes)[l])
                && children_at(d, leaves(d, nodes)[l]).len() == 0,
        forall|m: int|
            0 <= m < nodes.len() && children_at(d, #[trigger] nodes[m]).len() == 0 ==> leaves(
                d,
                nodes,
            ).contains(nodes[m]),
    decreases nodes.len(),
{
    if nodes.len() > 0 {
        let rest = nodes.drop_last();
        lemma_leaves(d, rest);
        let head = leaves(d, rest);
        let all = leaves(d, nodes);
        assert forall|l: int| 0 <= l < all.len() implies nodes.contains(#[trigger] all[l])
            && children_at(d, all[l]).len() == 0 by {
            if l < head.len() {
                assert(all[l] == head[l]);
                let m = choose|m: int| 0 <= m < rest.len() && rest[m] == head[l];
                assert(nodes[m] == head[l]);
            } else {
                assert(nodes[nodes.len() - 1] == all[l]);
            }
        }
        assert forall|m: int|
            0 <= m < nodes.len() && children_at(d, #[trigger] nodes[m]).len() == 0 implies all.contains(
            nodes[m]) by {
            if m < rest.len() {
                assert(rest[m] == nodes[m]);
                let l = choose|l: int| 0 <= l < head.len() && head[l] == nodes[m];
                assert(all[l] == nodes[m]);
            } else {
                assert(all[all.len() - 1] == nodes[m]);
            }
        }
    }
}

/// A branch holds its first record and whatever continues one that it holds; of
/// everything else that it holds, the record that it continues stands before it.
/// Its ends are those of its records that nothing continues.
pub proof fn law_branch_grows_from_its_root(
    records: Seq<NativeDagRecord>,
    hint: Option<Seq<char>>,
    view: NativeForkView,
    n: int,
)
    requires
        !fork_on_cycle(records),
        fork_view_is(records, hint, Some(view)),
        0 <= n < view.branches@.len(),
    ensures
        grows_from_root(records, view.branches@[n]),
{
    let d = first_seen(records);
    let at = places(records);
    let f = choose|f: int| #[trigger]
        first_fork(d, f) && shows_fork(d, f, view) && default_of(
            view.branches@,
            hint,
            view.default_branch,
        );
    assert(!on_cycle(d, f));
    lemma_places(records);
    lemma_first_seen_distinct(records);
    lemma_children_range(d, f, d.len());
    let b = view.branches@[n];
    let root = children_at(d, f)[n];
    assert(shows_branch(d, root, n as nat, b));
    assert(parent_at(d, root) == Some(f));
    let nodes = subtree(d, root);
    let names = b.node_uuids@;
    assert(nodes.len() == names.len()) by {
        assert(texts(names).len() == names.len());
        assert(uuids(d, nodes).len() == nodes.len());
    }
    assert forall|m: int| 0 <= m < names.len() implies (#[trigger] names[m])@ == d[nodes[m]].uuid@
        && 0 <= nodes[m] < d.len() by {
        assert(texts(names)[m] == uuids(d, nodes)[m]);
        assert(nodes.contains(nodes[m]));
        lemma_preorder_only(d, root, d.len(), nodes[m]);
    }
    assert(names.len() > 0 && names[0]@ == b.root_uuid@) by {
        assert(nodes[0] == root);
    }
    assert forall|c: int|
        #[trigger] fresh(records, c) && records[c].parent_uuid is Some && lists(
            names,
            records[c].parent_uuid->0@,
        ) implies lists(names, records[c].uuid@) by {
        let m = choose|m: int|
            0 <= m < names.len() && (#[trigger] names[m])@ == records[c].parent_uuid->0@;
        let i = choose|i: int| 0 <= i < at.len() && at[i] == c;
        assert(fresh(records, at[nodes[m]]));
        lemma_continues(records, i, nodes[m]);
        assert(parent_at(d, i) == Some(nodes[m]));
        law_branch_is_whole_subtree(d, f, root, nodes[m]);
        assert(nodes.contains(nodes[m]));
        let k = choose|k: nat| #[trigger] ancestor(d, nodes[m], k) == Some(root);
        assert(ancestor(d, i, 1) == Some(nodes[m])) by {
            reveal_with_fuel(ancestor, 2);
        }
        lemma_ancestor_adds(d, i, 1, k);
        assert(ancestor(d, i, (1 + k) as nat) == Some(root));
        law_branch_is_whole_subtree(d, f, root, i);
        let x = choose|x: int| 0 <= x < nodes.len() && nodes[x] == i;
        assert(names[x]@ == d[i].uuid@);
    }
    lemma_preorder_from_parents(d, root, d.len());
    assert forall|m: int| 1 <= m < names.len() implies exists|c: int, k: int|
        0 <= k < m && #[trigger] fresh(records, c) && records[c].uuid@ == (#[trigger] names[m])@
            && records[c].parent_uuid is Some && records[c].parent_uuid->0@ == (
        #[trigger] names[k])@ by {
        let k = choose|k: int|
            0 <= k < m && parent_at(d, #[trigger] nodes[m]) == Some(#[trigger] nodes[k]);
        assert(names[m]@ == d[nodes[m]].uuid@ && names[k]@ == d[nodes[k]].uuid@);
        lemma_continues(records, nodes[m], nodes[k]);
        let c = at[nodes[m]];
        assert(fresh(records, c));
    }
    lemma_leaves(d, nodes);
    let ends = b.leaf_uuids@;
    let tips = leaves(d, nodes);
    assert(texts(ends).len() == ends.len() && uuids(d, tips).len() == tips.len());
    assert forall|l: int| 0 <= l < ends.len() implies (#[trigger] ends[l])@ == d[tips[l]].uuid@ by {
        assert(texts(ends)[l] == uuids(d, tips)[l]);
    }
    assert forall|l: int| 0 <= l < ends.len() implies lists(names, (#[trigger] ends[l])@) by {
        assert(nodes.contains(tips[l]));
        let m = choose|m: int| 0 <= m < nodes.len() && nodes[m] == tips[l];
        assert(names[m]@ == d[nodes[m]].uuid@);
    }
    assert forall|m: int| 0 <= m < names.len() implies lists(ends, (#[trigger] names[m])@)
        == !continued(records, names[m]@) by {
        let i = nodes[m];
        assert(names[m]@ == d[i].uuid@);
        lemma_children_range(d, i, d.len());
        let list = children_at(d, i);
        if list.len() == 0 {
            assert(tips.contains(i));
            let l = choose|l: int| 0 <= l < tips.len() && tips[l] == i;
            assert(ends[l]@ == names[m]@);
            if continued(records, names[m]@) {
                let c = choose|c: int|
                    #[trigger] fresh(records, c) && records[c].parent_uuid is Some
                        && records[c].parent_uuid->0@ == names[m]@;
                let j = choose|j: int| 0 <= j < at.len() && at[j] == c;
                assert(fresh(records, at[i]));
                lemma_continues(records, j, i);
                assert(list.contains(j));
            }
        } else {
            let c = list[0];
            assert(parent_at(d, c) == Some(i));
            lemma_continues(records, c, i);
            assert(fresh(records, at[c]));
            assert(continued(records, names[m]@));
            if lists(ends, names[m]@) {
                let l = choose|l: int| 0 <= l < ends.len() && (#[trigger] ends[l])@ == names[m]@;
                let t = tips[l];
                assert(nodes.contains(t));
                let x = choose|x: int| 0 <= x < nodes.len() && nodes[x] == t;
                assert(names[x]@ == d[t].uuid@);
                lemma_index_of(d, t);
                lemma_index_of(d, i);
                assert(t == i);
            }
        }
    }
}

/// Whether a record names `t` as the one that it continues.
pub open spec fn continued(records: Seq<NativeDagRecord>, t: Seq<char>) -> bool {
    exists|c: int|
        #[trigger] fresh(records, c) && records[c].parent_uuid is Some && records[c].parent_uuid->0@
            == t
}

/// Whether a branch is made of its root and everything that grew from it.
pub open spec fn grows_from_root(records: Seq<NativeDagRecord>, b: NativeForkBranch) -> bool {
    let names = b.node_uuids@;
    &&& names.len() > 0
    &&& names[0]@ == b.root_uuid@
    &&& forall|c: int|
        #[trigger] fresh(records, c) && records[c].parent_uuid is Some && lists(
            names,
            records[c].parent_uuid->0@,
        ) ==> lists(names, records[c].uuid@)
    &&& forall|m: int|
        1 <= m < names.len() ==> exists|c: int, k: int|
            0 <= k < m && #[trigger] fresh(records, c) && records[c].uuid@ == (
            #[trigger] names[m])@ && records[c].parent_uuid is Some
                && records[c].parent_uuid->0@ == (#[trigger] names[k])@
    &&& forall|l: int|
        0 <= l < b.leaf_uuids@.len() ==> lists(names, (#[trigger] b.leaf_uuids@[l])@)
    &&& forall|m: int|
        0 <= m < names.len() ==> lists(b.leaf_uuids@, (#[trigger] names[m])@) == !continued(
            records,
            names[m]@,
        )
}

/// What leads to a fork ends with the record that forks. Every identifier before
/// is that which the record behind it names as the one that it continues, and the
/// first is one that leads no further: its record continues nothing, there is no
/// such record, or it continues one that is listed already.
pub proof fn law_prefix_leads_to_the_fork(
    records: Seq<NativeDagRecord>,
    hint: Option<Seq<char>>,
    view: NativeForkView,
)
    requires
        fork_view_is(records, hint, Some(view)),
    ensures
        leads_to_fork(records, view),
{
    let d = first_seen(records);
    let f = choose|f: int| #[trigger]
        first_fork(d, f) && shows_fork(d, f, view) && default_of(
            view.branches@,
            hint,
            view.default_branch,
        );
    let up = choose|up: Seq<int>| #[trigger]
        is_ascent(d, f, up) && texts(view.prefix_uuids@) == ascent_uuids(d, up).reverse();
    lemma_way_back(records, f, up);
    lemma_listed_way(records, ascent_uuids(d, up), view);
}

/// Whether `back` is a way towards the start that leads no further.
spec fn is_way_back(records: Seq<NativeDagRecord>, back: Seq<Seq<char>>) -> bool {
    let n = back.len() as int;
    &&& n > 0
    &&& forall|x: int| 0 <= x < n - 1 ==> #[trigger] leads_on(records, back, x)
    &&& {
        ||| forall|k: int| 0 <= k < records.len() ==> (#[trigger] records[k]).uuid@ != back[n - 1]
        ||| exists|c: int|
            #[trigger] fresh(records, c) && records[c].uuid@ == back[n - 1] && (
            records[c].parent_uuid is None || back.contains(records[c].parent_uuid->0@))
    }
}

proof fn lemma_listed_way(
    records: Seq<NativeDagRecord>,
    back: Seq<Seq<char>>,
    view: NativeForkView,
)
    requires
        is_way_back(records, back),
        back[0] == view.fork_parent_uuid@,
        texts(view.prefix_uuids@) == back.reverse(),
    ensures
        leads_to_fork(records, view),
{
    let names = view.prefix_uuids@;
    let n = names.len() as int;
    assert(texts(names).len() == n && back.len() == n);
    assert forall|k: int| 0 <= k < n implies (#[trigger] names[k])@ == back[n - 1 - k] by {
        assert(texts(names)[k] == back.reverse()[k]);
    }
    assert forall|k: int, m: int| 0 <= k < n - 1 && m == k + 1 implies continues_as(
        records,
        (#[trigger] names[m])@,
        (#[trigger] names[k])@,
    ) by {
        assert(leads_on(records, back, n - 2 - k));
    }
    if !(forall|k: int| 0 <= k < records.len() ==> (#[trigger] records[k]).uuid@ != names[0]@) {
        let c = choose|c: int|
            #[trigger] fresh(records, c) && records[c].uuid@ == back[n - 1] && (
            records[c].parent_uuid is None || back.contains(records[c].parent_uuid->0@));
        if records[c].parent_uuid is Some {
            let x = choose|x: int| 0 <= x < back.len() && back[x] == records[c].parent_uuid->0@;
            assert(names[n - 1 - x]@ == back[x]);
            assert(lists(names, records[c].parent_uuid->0@));
        }
    }
}

/// Whether number `x` of `back` names the next one as that which it continues.
spec fn leads_on(records: Seq<NativeDagRecord>, back: Seq<Seq<char>>, x: int) -> bool {
    continues_as(records, back[x], back[x + 1])
}

proof fn lemma_step_back(records: Seq<NativeDagRecord>, f: int, up: Seq<int>, x: int)
    requires
        0 <= f < first_seen(records).len(),
        is_ascent(first_seen(records), f, up),
        0 <= x < up.len(),
    ensures
        0 <= up[x] < first_seen(records).len(),
        ascent_uuids(first_seen(records), up)[x] == first_seen(records)[up[x]].uuid@,
        x + 1 < ascent_uuids(first_seen(records), up).len() ==> leads_on(
            records,
            ascent_uuids(first_seen(records), up),
            x,
        ),
{
    let d = first_seen(records);
    let at = places(records);
    let back = ascent_uuids(d, up);
    lemma_places(records);
    if x > 0 {
        assert(parent_at(d, up[x - 1]) == Some(up[x]));
        lemma_parent_range(d, up[x - 1]);
    }
    assert(uuids(d, up)[x] == d[up[x]].uuid@);
    let c = at[up[x]];
    assert(fresh(records, c) && records[c] == d[up[x]]);
    if x + 1 < up.len() {
        assert(parent_at(d, up[x]) == Some(up[x + 1]));
        lemma_parent_range(d, up[x]);
        assert(uuids(d, up)[x + 1] == d[up[x + 1]].uuid@);
        lemma_continues(records, up[x], up[x + 1]);
        assert(leads_on(records, back, x));
    } else if x + 1 < back.len() {
        assert(back[x + 1] == d[up[x]].parent_uuid->0@);
        assert(leads_on(records, back, x));
    }
}

proof fn lemma_way_back(records: Seq<NativeDagRecord>, f: int, up: Seq<int>)
    requires
        0 <= f < first_seen(records).len(),
        is_ascent(first_seen(records), f, up),
    ensures
        is_way_back(records, ascent_uuids(first_seen(records), up)),
        ascent_uuids(first_seen(records), up)[0] == first_seen(records)[f].uuid@,
{
    let d = first_seen(records);
    let at = places(records);
    let back = ascent_uuids(d, up);
    let n = back.len() as int;
    let m = up.len() as int;
    lemma_step_back(records, f, up, 0);
    assert forall|x: int| 0 <= x < n - 1 implies #[trigger] leads_on(records, back, x) by {
        lemma_step_back(records, f, up, x);
    }
    lemma_places(records);
    let last = up.last();
    lemma_step_back(records, f, up, m - 1);
    if n == m {
        let c = at[last];
        assert(fresh(records, c) && records[c] == d[last]);
        assert(dangling(d, last) is None);
        if parent_at(d, last) is Some {
            let next = parent_at(d, last)->0;
            let j = choose|j: int| 0 <= j < up.skip(1).len() && up.skip(1)[j] == next;
            assert(up[j + 1] == next);
            lemma_parent_range(d, last);
            lemma_continues(records, last, next);
            lemma_step_back(records, f, up, j + 1);
            assert(back[j + 1] == records[c].parent_uuid->0@);
        }
    } else {
        assert(back[n - 1] == d[last].parent_uuid->0@);
        assert forall|k: int| 0 <= k < records.len() implies (#[trigger] records[k]).uuid@ != back[n
            - 1] by {
            assert(has_uuid(d, records[k].uuid@));
        }
    }
}

/// Whether the record `a` names `b` as the one that it continues.
pub open spec fn continues_as(
    records: Seq<NativeDagRecord>,
    a: Seq<char>,
    b: Seq<char>,
) -> bool {
    exists|c: int|
        #[trigger] fresh(records, c) && records[c].uuid@ == a && records[c].parent_uuid is Some
            && records[c].parent_uuid->0@ == b
}

/// Whether what is listed before a fork is the way to it.
pub open spec fn leads_to_fork(records: Seq<NativeDagRecord>, view: NativeForkView) -> bool {
    let names = view.prefix_uuids@;
    &&& names.len() > 0
    &&& names[names.len() - 1]@ == view.fork_parent_uuid@
    &&& forall|k: int, m: int|
        0 <= k < names.len() - 1 && m == k + 1 ==> continues_as(
            records,
            (#[trigger] names[m])@,
            (#[trigger] names[k])@,
        )
    &&& {
        ||| forall|k: int| 0 <= k < records.len() ==> (#[trigger] records[k]).uuid@ != names[0]@
        ||| exists|c: int|
            #[trigger] fresh(records, c) && records[c].uuid@ == names[0]@ && (
            records[c].parent_uuid is None || lists(names, records[c].parent_uuid->0@))
    }
}

} // verus!
