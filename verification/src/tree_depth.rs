//! How deep the tree can be: the way up from a directory reaches the root
//! within as many steps as there are other directories, so a path or a
//! listing that follows the tree for that many levels has all of it.

use crate::names::text_of;
use crate::tree_spec::{
    slash, NamespaceView, CLEAR_MARKER_DIRECTORY, MAX_SIZE_OF_CHILDREN_DIRECTORIES,
    MAX_SIZE_OF_DIRECTORIES,
};
use vstd::prelude::*;
use vstd::set_lib::{lemma_int_range, lemma_len_subset, set_int_range};

verus! {

/// The most levels that a directory can lie below the root.
pub const MAX_DEPTH: usize = MAX_SIZE_OF_DIRECTORIES - 1;

/// The directory `steps` levels above `d`. The root is above itself.
pub open spec fn ancestor(ns: NamespaceView, d: int, steps: nat) -> int
    decreases steps,
{
    if steps == 0 {
        d
    } else {
        ancestor(ns, ns.dirs[d].parent_index as int, (steps - 1) as nat)
    }
}

/// `d` lies at least `levels` below the root: none of the first `levels`
/// directories on the way up, `d` included, is the root.
pub open spec fn below(ns: NamespaceView, d: int, levels: nat) -> bool {
    forall|k: nat| k < levels ==> #[trigger] ancestor(ns, d, k) != 0
}

/// Every directory on the way up from a directory in use is in use.
pub proof fn lemma_ancestor_live(ns: NamespaceView, d: int, steps: nat)
    requires
        ns.wf(),
        ns.dir_live(d),
    ensures
        ns.dir_live(ancestor(ns, d, steps)),
    decreases steps,
{
    if steps > 0 {
        assert(ns.dir_wf(d));
        lemma_ancestor_live(ns, ns.dirs[d].parent_index as int, (steps - 1) as nat);
    }
}

/// One level further up is the parent of the directory reached so far.
pub proof fn lemma_ancestor_step(ns: NamespaceView, d: int, steps: nat)
    ensures
        ancestor(ns, d, (steps + 1) as nat) == ns.dirs[ancestor(ns, d, steps)].parent_index,
    decreases steps,
{
    let parent = ns.dirs[d].parent_index as int;
    assert(ancestor(ns, d, (steps + 1) as nat) == ancestor(ns, parent, steps));
    if steps > 0 {
        lemma_ancestor_step(ns, parent, (steps - 1) as nat);
        assert(ancestor(ns, d, steps) == ancestor(ns, parent, (steps - 1) as nat));
    }
}

/// A child lies one level deeper than its parent.
pub proof fn lemma_child_below(ns: NamespaceView, child: int, levels: nat)
    requires
        child != 0,
        below(ns, ns.dirs[child].parent_index as int, levels),
    ensures
        below(ns, child, levels + 1),
{
    assert forall|k: nat| k < levels + 1 implies #[trigger] ancestor(ns, child, k) != 0 by {
        if k > 0 {
            assert(ancestor(ns, child, k) == ancestor(
                ns,
                ns.dirs[child].parent_index as int,
                (k - 1) as nat,
            ));
        }
    }
}

proof fn lemma_rank_falls(ns: NamespaceView, rank: Seq<nat>, d: int, i: nat, j: nat)
    requires
        ns.wf(),
        ns.ranked(rank),
        ns.dir_live(d),
        i < j,
        below(ns, d, j),
    ensures
        rank[ancestor(ns, d, j)] < rank[ancestor(ns, d, i)],
    decreases j - i,
{
    let last = ancestor(ns, d, (j - 1) as nat);
    lemma_ancestor_live(ns, d, (j - 1) as nat);
    lemma_ancestor_step(ns, d, (j - 1) as nat);
    assert(ns.rank_grows(rank, last));
    if i < j - 1 {
        lemma_rank_falls(ns, rank, d, i, (j - 1) as nat);
    }
}

/// No directory lies as many levels below the root as there are
/// directories: the way up from a directory in use reaches the root within
/// `MAX_DEPTH` steps.
pub proof fn law_root_within_reach(ns: NamespaceView, d: int)
    requires
        ns.wf(),
        ns.dir_live(d),
    ensures
        !below(ns, d, MAX_SIZE_OF_DIRECTORIES as nat),
{
    if below(ns, d, MAX_SIZE_OF_DIRECTORIES as nat) {
        let rank = choose|rank: Seq<nat>| ns.ranked(rank);
        let way = Seq::new(MAX_SIZE_OF_DIRECTORIES as nat, |k: int| ancestor(ns, d, k as nat));
        assert forall|i: int, j: int|
            0 <= i < way.len() && 0 <= j < way.len() && i != j implies way[i] != way[j] by {
            if i < j {
                lemma_rank_falls(ns, rank, d, i as nat, j as nat);
            } else {
                lemma_rank_falls(ns, rank, d, j as nat, i as nat);
            }
        }
        assert(way.no_duplicates());
        way.unique_seq_to_set();
        let others = set_int_range(1, MAX_SIZE_OF_DIRECTORIES as int);
        lemma_int_range(1, MAX_SIZE_OF_DIRECTORIES as int);
        assert forall|x: int| way.to_set().contains(x) implies others.contains(x) by {
            let k = choose|k: int| 0 <= k < way.len() && way[k] == x;
            lemma_ancestor_live(ns, d, k as nat);
            assert(ancestor(ns, d, k as nat) != 0);
        }
        assert(way.to_set().subset_of(others));
        lemma_len_subset(way.to_set(), others);
        assert(false);
    }
}

proof fn lemma_path_settles(ns: NamespaceView, d: int, steps: nat, fuel: nat)
    requires
        ancestor(ns, d, steps) == 0,
        steps <= fuel,
    ensures
        ns.path_text(d, fuel) == ns.path_text(d, steps),
    decreases steps,
{
    if d != 0 {
        lemma_path_settles(
            ns,
            ns.dirs[d].parent_index as int,
            (steps - 1) as nat,
            (fuel - 1) as nat,
        );
    }
}

proof fn lemma_path_starts_at_root(ns: NamespaceView, d: int, steps: nat)
    requires
        ancestor(ns, d, steps) == 0,
    ensures
        (slash() + text_of(ns.dirs[0].name)).is_prefix_of(ns.path_text(d, steps)),
    decreases steps,
{
    let root = slash() + text_of(ns.dirs[0].name);
    if d != 0 {
        let parent = ns.dirs[d].parent_index as int;
        lemma_path_starts_at_root(ns, parent, (steps - 1) as nat);
        let upper = ns.path_text(parent, (steps - 1) as nat);
        let whole = ns.path_text(d, steps);
        assert(whole == upper + (slash() + text_of(ns.dirs[d].name)));
        assert(upper.take(root.len() as int) == root);
        assert(whole.take(root.len() as int) =~= upper.take(root.len() as int));
    } else {
        assert(ns.path_text(d, steps) == root);
        assert(root.take(root.len() as int) =~= root);
    }
}

/// The path of a directory is whole: it starts with the root, and to
/// follow the way up for more than `MAX_DEPTH` directories adds nothing.
pub proof fn law_path_is_whole(ns: NamespaceView, d: int, fuel: nat)
    requires
        ns.wf(),
        ns.dir_live(d),
        fuel >= MAX_DEPTH,
    ensures
        ns.path_text(d, fuel) == ns.path_text(d, MAX_DEPTH as nat),
        (slash() + text_of(ns.dirs[0].name)).is_prefix_of(ns.path_text(d, fuel)),
{
    law_root_within_reach(ns, d);
    let steps = choose|k: nat| k < MAX_SIZE_OF_DIRECTORIES && ancestor(ns, d, k) == 0;
    lemma_path_settles(ns, d, steps, fuel);
    lemma_path_settles(ns, d, steps, MAX_DEPTH as nat);
    lemma_path_starts_at_root(ns, d, steps);
}

proof fn lemma_children_settle(
    ns: NamespaceView,
    dir: int,
    depth: nat,
    levels: nat,
    fuel: nat,
    other: nat,
    upto: int,
)
    requires
        ns.wf(),
        ns.dir_live(dir),
        below(ns, dir, levels),
        fuel + levels >= MAX_DEPTH,
        other + levels >= MAX_DEPTH,
        upto <= MAX_SIZE_OF_CHILDREN_DIRECTORIES,
    ensures
        ns.children_text(dir, depth, fuel, upto) == ns.children_text(dir, depth, other, upto),
    decreases fuel, 1nat, upto,
{
    if upto > 0 {
        lemma_children_settle(ns, dir, depth, levels, fuel, other, upto - 1);
        let pos = upto - 1;
        let child = ns.dirs[dir].child_indexes[pos] as int;
        if child != CLEAR_MARKER_DIRECTORY {
            assert(ns.dir_wf(dir));
            assert(ns.child_entry_wf(dir, pos));
            lemma_child_below(ns, child, levels);
            if fuel == 0 || other == 0 {
                law_root_within_reach(ns, child);
                assert(below(ns, child, MAX_SIZE_OF_DIRECTORIES as nat)) by {
                    assert(below(ns, child, levels + 1));
                }
                assert(false);
            } else {
                lemma_contents_settle(
                    ns,
                    child,
                    depth + 1,
                    levels + 1,
                    (fuel - 1) as nat,
                    (other - 1) as nat,
                );
            }
        }
        assert(ns.child_entry_text(dir, depth, fuel, pos) == ns.child_entry_text(
            dir,
            depth,
            other,
            pos,
        ));
    }
}

proof fn lemma_contents_settle(
    ns: NamespaceView,
    dir: int,
    depth: nat,
    levels: nat,
    fuel: nat,
    other: nat,
)
    requires
        ns.wf(),
        ns.dir_live(dir),
        below(ns, dir, levels),
        fuel + levels >= MAX_DEPTH,
        other + levels >= MAX_DEPTH,
    ensures
        ns.contents_text(dir, depth, fuel) == ns.contents_text(dir, depth, other),
    decreases fuel, 2nat, 0int,
{
    lemma_children_settle(
        ns,
        dir,
        depth,
        levels,
        fuel,
        other,
        MAX_SIZE_OF_CHILDREN_DIRECTORIES as int,
    );
}

/// The listing of a directory is whole: to enter directories more than
/// `MAX_DEPTH` levels deep adds nothing, because none lies deeper.
pub proof fn law_tree_is_whole(ns: NamespaceView, dir: int, depth: nat, fuel: nat)
    requires
        ns.wf(),
        ns.dir_live(dir),
        fuel >= MAX_DEPTH,
    ensures
        ns.contents_text(dir, depth, fuel) == ns.contents_text(dir, depth, MAX_DEPTH as nat),
{
    assert(below(ns, dir, 0));
    lemma_contents_settle(ns, dir, depth, 0, fuel, MAX_DEPTH as nat);
}

} // verus!
