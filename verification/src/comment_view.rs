//! The collapsible discussion tree: a flat arena of rows linked by
//! indices, visibility decided by the ancestor chain's expansion flags.

use vstd::prelude::*;
use crate::comment::{
    entry_matches, node_of, spec_forest_nodes, spec_forest_size, Comment, CommentEntry,
    CommentThread, lemma_forest_nodes_len, lemma_forest_nodes_parents, lemma_single_inner_parents,
};

verus! {

/// Structural soundness of an arena: parents come earlier, depths follow
/// parents, and child lists point forward at rows that name this parent,
/// in strictly increasing order.
pub open spec fn arena_wf_basic(v: Seq<CommentEntry>) -> bool {
    forall|i: int|
        0 <= i < v.len() ==> {
            &&& (#[trigger] v[i].parent matches Some(p) ==> 0 <= p < i && v[i].depth == v[
                p as int
            ].depth + 1)
            &&& (v[i].parent is None ==> v[i].depth == 0)
            &&& (forall|k: int|
                0 <= k < v[i].children@.len() ==> i < #[trigger] v[i].children@[k] < v.len() && v[
                    v[i].children@[k] as int
                ].parent == Some(i as usize))
            &&& (forall|k1: int, k2: int|
                0 <= k1 < k2 < v[i].children@.len() ==> #[trigger] v[i].children@[k1]
                    < #[trigger] v[i].children@[k2])
        }
}

/// Every row that names a parent appears in that parent's child list.
pub open spec fn arena_complete(v: Seq<CommentEntry>) -> bool {
    forall|j: int|
        0 <= j < v.len() ==> (#[trigger] v[j].parent matches Some(p) ==> v[
            p as int
        ].children@.contains(j as usize))
}

/// Visibility of a row: true when every ancestor is expanded.
pub open spec fn spec_visible(v: Seq<CommentEntry>, i: int) -> bool
    decreases i,
{
    if 0 <= i < v.len() {
        match v[i].parent {
            None => true,
            Some(p) => {
                if 0 <= p < i {
                    v[p as int].expanded && spec_visible(v, p as int)
                } else {
                    true
                }
            },
        }
    } else {
        true
    }
}

/// Whether row `a` lies on the parent chain above row `i`.
pub open spec fn is_ancestor(v: Seq<CommentEntry>, a: int, i: int) -> bool
    decreases i,
{
    if 0 <= i < v.len() {
        match v[i].parent {
            None => false,
            Some(p) => {
                if 0 <= p < i {
                    p == a || is_ancestor(v, a, p as int)
                } else {
                    false
                }
            },
        }
    } else {
        false
    }
}

/// A row is visible exactly when all of its ancestors are expanded.
pub proof fn lemma_visible_iff_ancestors_expanded(v: Seq<CommentEntry>, i: int)
    requires
        arena_wf_basic(v),
        0 <= i < v.len(),
    ensures
        spec_visible(v, i) <==> (forall|a: int| is_ancestor(v, a, i) ==> v[a].expanded),
    decreases i,
{
    match v[i].parent {
        None => {
        }
        Some(p) => {
            lemma_visible_iff_ancestors_expanded(v, p as int);
            assert(is_ancestor(v, p as int, i));
            assert forall|a: int| is_ancestor(v, a, p as int) implies is_ancestor(v, a, i) by {}
            assert forall|a: int| is_ancestor(v, a, i) && a != p implies is_ancestor(
                v,
                a,
                p as int,
            ) by {}
        }
    }
}

/// Collapsing a row hides every one of its descendants.
pub proof fn lemma_collapse_update_hides_descendants(v: Seq<CommentEntry>, s: int, x: int)
    requires
        arena_wf_basic(v),
        0 <= s < v.len(),
        0 <= x < v.len(),
        is_ancestor(v, s, x),
    ensures
        !spec_visible(v.update(s, with_expanded(v[s], false)), x),
{
    let v2 = v.update(s, with_expanded(v[s], false));
    assert(forall|j: int| 0 <= j < v.len() ==> #[trigger] v2[j].parent == v[j].parent);
    lemma_parents_preserve_ancestor(v, v2, s, x);
    assert forall|i: int| 0 <= i < v2.len() implies {
        &&& (#[trigger] v2[i].parent matches Some(p) ==> 0 <= p < i && v2[i].depth == v2[
            p as int].depth + 1)
        &&& (v2[i].parent is None ==> v2[i].depth == 0)
        &&& (forall|k: int|
            0 <= k < v2[i].children@.len() ==> i < #[trigger] v2[i].children@[k] < v2.len()
                && v2[v2[i].children@[k] as int].parent == Some(i as usize))
        &&& (forall|k1: int, k2: int|
            0 <= k1 < k2 < v2[i].children@.len() ==> #[trigger] v2[i].children@[k1]
                < #[trigger] v2[i].children@[k2])
    } by {
        assert(v2[i].children == v[i].children);
        assert(v2[i].depth == v[i].depth);
        assert(forall|k: int|
            0 <= k < v[i].children@.len() ==> i < #[trigger] v[i].children@[k] < v.len() && v[
                v[i].children@[k] as int].parent == Some(i as usize));
    }
    lemma_collapsed_ancestor_hides(v2, s, x);
}

/// Collapsing any ancestor hides the row.
pub proof fn lemma_collapsed_ancestor_hides(v: Seq<CommentEntry>, a: int, i: int)
    requires
        arena_wf_basic(v),
        0 <= i < v.len(),
        is_ancestor(v, a, i),
        !v[a].expanded,
    ensures
        !spec_visible(v, i),
{
    lemma_visible_iff_ancestors_expanded(v, i);
}


/// An ancestor always lies strictly earlier in the arena.
pub proof fn lemma_ancestor_bounds(v: Seq<CommentEntry>, a: int, i: int)
    requires
        is_ancestor(v, a, i),
    ensures
        0 <= a < i,
    decreases i,
{
    if 0 <= i < v.len() {
        match v[i].parent {
            None => {}
            Some(p) => {
                if 0 <= p < i && a != p {
                    lemma_ancestor_bounds(v, a, p as int);
                }
            }
        }
    }
}

/// Ancestry is transitive.
pub proof fn lemma_ancestor_trans(v: Seq<CommentEntry>, a: int, b: int, c: int)
    requires
        is_ancestor(v, b, c),
        is_ancestor(v, a, b),
    ensures
        is_ancestor(v, a, c),
    decreases c,
{
    if 0 <= c < v.len() {
        match v[c].parent {
            None => {}
            Some(p) => {
                if 0 <= p < c && b != p {
                    lemma_ancestor_trans(v, a, b, p as int);
                }
            }
        }
    }
}

/// Two ancestors of one row are comparable: chains are linear.
pub proof fn lemma_chain_linear(v: Seq<CommentEntry>, x: int, y: int, i: int)
    requires
        is_ancestor(v, x, i),
        is_ancestor(v, y, i),
        x != y,
    ensures
        is_ancestor(v, x, y) || is_ancestor(v, y, x),
    decreases i,
{
    if 0 <= i < v.len() {
        match v[i].parent {
            None => {}
            Some(p) => {
                if 0 <= p < i {
                    if x == p {
                        assert(is_ancestor(v, y, p as int));
                    } else if y == p {
                        assert(is_ancestor(v, x, p as int));
                    } else {
                        lemma_chain_linear(v, x, y, p as int);
                    }
                }
            }
        }
    }
}

/// Ancestry depends on the parent links alone.
pub proof fn lemma_parents_preserve_ancestor(v1: Seq<CommentEntry>, v2: Seq<CommentEntry>, a: int, i: int)
    requires
        v1.len() == v2.len(),
        forall|j: int| 0 <= j < v1.len() ==> #[trigger] v1[j].parent == v2[j].parent,
    ensures
        is_ancestor(v1, a, i) == is_ancestor(v2, a, i),
    decreases i,
{
    if 0 <= i < v1.len() {
        match v1[i].parent {
            None => {}
            Some(p) => {
                if 0 <= p < i {
                    lemma_parents_preserve_ancestor(v1, v2, a, p as int);
                }
            }
        }
    }
}

/// Clamping of a target position into a non-empty range.
pub open spec fn clamp_pos(p: int, n: int) -> int {
    if p < 0 {
        0
    } else if p > n - 1 {
        n - 1
    } else {
        p
    }
}

/// An arena row with its expansion flag replaced.
pub open spec fn with_expanded(e: CommentEntry, b: bool) -> CommentEntry {
    CommentEntry { expanded: b, ..e }
}

/// Where a movement over the visible order lands: from the selection's
/// position (or the top when there is none), shifted by `delta` and
/// clamped into the visible rows.
pub open spec fn spec_move_target(v: Seq<CommentEntry>, sel: Option<usize>, delta: int) -> Option<usize> {
    let vis = CommentView::spec_visible_seq(v);
    if vis.len() == 0 {
        None
    } else {
        let cur = if sel is Some && vis.contains(sel->Some_0 as int) {
            vis.index_of(sel->Some_0 as int)
        } else {
            0
        };
        Some(vis[clamp_pos(cur + delta, vis.len() as int)] as usize)
    }
}


/// The step a page movement takes: one screen minus one row, at least one.
pub open spec fn spec_page_step(amount: int) -> int {
    if amount > 1 {
        amount - 1
    } else {
        1
    }
}

/// The signed step a page movement hands to `move_by`, saturated at the
/// largest representable step.
pub open spec fn spec_page_delta(amount: int) -> int {
    if spec_page_step(amount) > isize::MAX {
        isize::MAX as int
    } else {
        spec_page_step(amount)
    }
}


/// Changing one row's expansion flag preserves the arena's structure.
proof fn lemma_wf_after_flag(v: Seq<CommentEntry>, s: int, b: bool)
    requires
        arena_wf_basic(v),
        arena_complete(v),
        0 <= s < v.len(),
    ensures
        arena_wf_basic(v.update(s, with_expanded(v[s], b))),
        arena_complete(v.update(s, with_expanded(v[s], b))),
{
    let v2 = v.update(s, with_expanded(v[s], b));
    assert(forall|j: int| 0 <= j < v.len() ==> #[trigger] v2[j].parent == v[j].parent);
    assert(forall|j: int| 0 <= j < v.len() ==> #[trigger] v2[j].children == v[j].children);
    assert(forall|j: int| 0 <= j < v.len() ==> #[trigger] v2[j].depth == v[j].depth);
}


/// What flipping the selected row's expansion leaves behind.
pub open spec fn toggle_rel(pre: CommentView, post: CommentView) -> bool {
    &&& post.link == pre.link
    &&& post.offset == pre.offset
    &&& post.wf()
    &&& (pre.selected is None ==> post.entries == pre.entries && post.selected == (
    if pre.entries@.len() > 0 {
        Some(0usize)
    } else {
        Option::<usize>::None
    }))
    &&& (pre.selected matches Some(s) ==> (pre.entries@[s as int].children@.len() == 0
        ==> post == pre))
    &&& (pre.selected matches Some(s) ==> (pre.entries@[s as int].children@.len() > 0 ==> {
        let e0 = pre.entries@[s as int];
        &&& post.entries@ == pre.entries@.update(s as int, with_expanded(e0, !e0.expanded))
        &&& (spec_visible(post.entries@, s as int) ==> post.selected == pre.selected)
        &&& (post.selected matches Some(t) ==> spec_visible(post.entries@, t as int))
    }))
}

/// What expanding (or drilling into) the selected row leaves behind.
pub open spec fn expand_rel(pre: CommentView, post: CommentView) -> bool {
    &&& post.link == pre.link
    &&& post.offset == pre.offset
    &&& post.wf()
    &&& (pre.selected is None ==> post.entries == pre.entries && post.selected == (
    if pre.entries@.len() > 0 {
        Some(0usize)
    } else {
        Option::<usize>::None
    }))
    &&& (pre.selected matches Some(s) ==> (pre.entries@[s as int].children@.len() == 0
        ==> post == pre))
    &&& (pre.selected matches Some(s) ==> ((pre.entries@[s as int].children@.len() > 0
        && pre.entries@[s as int].expanded) ==> {
        let c = pre.entries@[s as int].children@[0];
        &&& post.entries == pre.entries
        &&& (spec_visible(pre.entries@, c as int) ==> post.selected == Some(c))
        &&& (post.selected matches Some(t) ==> spec_visible(post.entries@, t as int))
    }))
    &&& (pre.selected matches Some(s) ==> ((pre.entries@[s as int].children@.len() > 0
        && !pre.entries@[s as int].expanded) ==> {
        let e0 = pre.entries@[s as int];
        &&& post.entries@ == pre.entries@.update(s as int, with_expanded(e0, true))
        &&& (spec_visible(post.entries@, s as int) ==> post.selected == pre.selected)
        &&& (post.selected matches Some(t) ==> spec_visible(post.entries@, t as int))
    }))
}

/// What collapsing (or climbing from) the selected row leaves behind.
pub open spec fn collapse_rel(pre: CommentView, post: CommentView) -> bool {
    &&& post.link == pre.link
    &&& post.offset == pre.offset
    &&& post.wf()
    &&& (pre.selected is None ==> post.entries == pre.entries && post.selected == (
    if pre.entries@.len() > 0 {
        Some(0usize)
    } else {
        Option::<usize>::None
    }))
    &&& (pre.selected matches Some(s) ==> ((pre.entries@[s as int].expanded && pre.entries@[
        s as int].children@.len() > 0) ==> {
        let e0 = pre.entries@[s as int];
        &&& post.entries@ == pre.entries@.update(s as int, with_expanded(e0, false))
        &&& (spec_visible(post.entries@, s as int) ==> post.selected == pre.selected)
        &&& (post.selected matches Some(t) ==> spec_visible(post.entries@, t as int))
    }))
    &&& (pre.selected matches Some(s) ==> ((!(pre.entries@[s as int].expanded && pre.entries@[
        s as int].children@.len() > 0) && pre.entries@[s as int].parent is Some) ==> ({
        let p = pre.entries@[s as int].parent->Some_0;
        &&& post.entries == pre.entries
        &&& (spec_visible(pre.entries@, p as int) ==> post.selected == Some(p))
        &&& (post.selected matches Some(t) ==> spec_visible(post.entries@, t as int))
    })))
    &&& (pre.selected matches Some(s) ==> ((!(pre.entries@[s as int].expanded && pre.entries@[
        s as int].children@.len() > 0) && pre.entries@[s as int].parent is None)
        ==> post.entries == pre.entries && post.selected == pre.selected))
}


/// Whether `r` is the arena a fetched discussion flattens to: pre-order
/// rows, everything expanded, the link from the thread or the fallback,
/// and the focused comment (or the first row) selected.
pub open spec fn built_from(thread: CommentThread, fallback: Seq<char>, r: CommentView) -> bool {
    &&& r.wf()
    &&& r.offset == 0
    &&& r.entries@.len() == spec_forest_size(thread.roots@)
    &&& (forall|k: int|
        0 <= k < r.entries@.len() ==> entry_matches(
            #[trigger] r.entries@[k],
            spec_forest_nodes(thread.roots@, 0, None, 0)[k],
        ))
    &&& (forall|k: int| 0 <= k < r.entries@.len() ==> #[trigger] r.entries@[k].expanded)
    &&& (match thread.url {
        Some(u) => r.link@ == u@,
        None => r.link@ == fallback,
    })
    &&& ((thread.focus matches Some(f) && (exists|k: int|
        0 <= k < r.entries@.len() && #[trigger] r.entries@[k].id == f)) ==> (r.selected matches Some(
        s,
    ) && r.entries@[s as int].id == thread.focus->Some_0 && (forall|j: int|
        0 <= j < s ==> #[trigger] r.entries@[j].id != thread.focus->Some_0)))
    &&& (!(thread.focus matches Some(f) && (exists|k: int|
        0 <= k < r.entries@.len() && #[trigger] r.entries@[k].id == f)) ==> r.selected == (
    if r.entries@.len() > 0 {
        Some(0usize)
    } else {
        Option::<usize>::None
    }))
}

/// The discussion view: the arena, the page link, the scroll offset and
/// the optional selected row.
pub struct CommentView {
    pub entries: Vec<CommentEntry>,
    pub link: String,
    pub offset: usize,
    pub selected: Option<usize>,
}

fn entry_mut(v: &mut Vec<CommentEntry>, i: usize) -> (e: &mut CommentEntry)
    requires
        i < old(v)@.len(),
    ensures
        *e == old(v)@[i as int],
        final(v)@ == old(v)@.update(i as int, *final(e)),
{
    &mut v[i]
}

/// Sizes and rows of a forest prefix grow one root block at a time.
proof fn lemma_forest_snoc(cs: Seq<Comment>, m: int, d: int, p: Option<int>, b: int)
    requires
        0 <= m < cs.len(),
    ensures
        spec_forest_size(cs.take(m + 1)) == spec_forest_size(cs.take(m)) + spec_forest_size(
            seq![cs[m]],
        ),
        spec_forest_nodes(cs.take(m + 1), d, p, b) == spec_forest_nodes(cs.take(m), d, p, b)
            + spec_forest_nodes(seq![cs[m]], d, p, b + spec_forest_size(cs.take(m))),
    decreases m,
{
    if m == 0 {
        assert(cs.take(0) =~= Seq::<Comment>::empty());
        assert(cs.take(1)[0] == cs[0]);
        assert(cs.take(1).skip(1) =~= Seq::<Comment>::empty());
        assert(seq![cs[0]][0] == cs[0]);
        assert(seq![cs[0]].skip(1) =~= Seq::<Comment>::empty());
        assert(spec_forest_size(cs.take(1)) == spec_forest_size(seq![cs[0]]));
        assert(spec_forest_nodes(cs.take(1), d, p, b) =~= spec_forest_nodes(seq![cs[0]], d, p, b));
        assert(spec_forest_nodes(cs.take(0), d, p, b) =~= Seq::<crate::comment::NodeModel>::empty());
    } else {
        lemma_forest_snoc(cs.skip(1), m - 1, d, p, b + 1 + spec_forest_size(cs[0].children@));
        assert(cs.take(m + 1)[0] == cs[0]);
        assert(cs.take(m + 1).skip(1) =~= cs.skip(1).take(m));
        assert(cs.take(m)[0] == cs[0]);
        assert(cs.take(m).skip(1) =~= cs.skip(1).take(m - 1));
        assert(cs.skip(1)[m - 1] == cs[m]);
        assert(spec_forest_nodes(cs.take(m + 1), d, p, b) =~= spec_forest_nodes(
            cs.take(m),
            d,
            p,
            b,
        ) + spec_forest_nodes(seq![cs[m]], d, p, b + spec_forest_size(cs.take(m))));
    }
}

impl CommentView {
    /// The view's invariant: a sound, complete arena and an in-bounds
    /// selection.
    pub open spec fn wf(&self) -> bool {
        &&& arena_wf_basic(self.entries@)
        &&& arena_complete(self.entries@)
        &&& (self.selected matches Some(s) ==> s < self.entries@.len())
    }

    fn push_comment(entries: &mut Vec<CommentEntry>, comment: Comment, parent: Option<usize>, depth: usize) -> (idx: usize)
        requires
            arena_wf_basic(old(entries)@),
            depth <= old(entries)@.len(),
            match parent {
                Some(p) => p < old(entries)@.len() && depth == old(entries)@[p as int].depth + 1,
                None => depth == 0,
            },
        ensures
            idx == old(entries)@.len(),
            final(entries)@.len() == old(entries)@.len() + spec_forest_size(seq![comment]),
            forall|i: int| 0 <= i < old(entries)@.len() ==> final(entries)@[i] == old(entries)@[i],
            forall|k: int|
                0 <= k < spec_forest_size(seq![comment]) ==> entry_matches(
                    #[trigger] final(entries)@[old(entries)@.len() + k],
                    spec_forest_nodes(
                        seq![comment],
                        depth as int,
                        match parent {
                            Some(p) => Some(p as int),
                            None => None,
                        },
                        old(entries)@.len() as int,
                    )[k],
                ),
            forall|k: int|
                old(entries)@.len() <= k < final(entries)@.len()
                    ==> #[trigger] final(entries)@[k].expanded,
            arena_wf_basic(final(entries)@),
            forall|j: int|
                old(entries)@.len() <= j < final(entries)@.len()
                    ==> (#[trigger] final(entries)@[j].parent matches Some(p) ==> (p >= old(
                    entries)@.len() ==> final(entries)@[p as int].children@.contains(j as usize))),
        decreases comment,
    {
        broadcast use vstd::std_specs::vec::group_vec_axioms;

        let ghost pm: Option<int> = match parent {
            Some(p) => Some(p as int),
            None => None,
        };
        let Comment { author, children, dead, deleted, id, text } = comment;
        let body: String = if deleted {
            "[deleted]".to_owned()
        } else if dead {
            "[dead]".to_owned()
        } else {
            match text {
                Some(t) => t,
                None => String::new(),
            }
        };
        let idx = entries.len();
        entries.push(
            CommentEntry {
                author,
                body,
                children: Vec::new(),
                dead,
                deleted,
                depth,
                expanded: true,
                id,
                parent,
            },
        );
        let ghost base0 = old(entries)@.len() as int;
        let ghost whole = spec_forest_nodes(seq![comment], depth as int, pm, base0);
        let ghost kids = comment.children@;
        proof {
            assert(seq![comment][0] == comment);
            assert(seq![comment].skip(1) =~= Seq::<Comment>::empty());
            assert(spec_forest_nodes(
                Seq::<Comment>::empty(),
                depth as int,
                pm,
                base0 + 1 + spec_forest_size(kids),
            ) == Seq::<crate::comment::NodeModel>::empty());
            assert(whole =~= seq![node_of(comment, depth as int, pm)] + spec_forest_nodes(
                kids,
                depth + 1,
                Some(base0),
                base0 + 1,
            ));
            assert(entry_matches(entries@[base0], whole[0]));
            assert(kids.take(0) =~= Seq::<Comment>::empty());
        }
        let mut child_indices: Vec<usize> = Vec::new();
        let mut rest = children;
        let ghost mut m: int = 0;
        while rest.len() > 0
            invariant
                arena_wf_basic(entries@),
                0 <= m <= kids.len(),
                rest@ == kids.skip(m),
                idx == base0,
                base0 == old(entries)@.len(),
                idx < entries@.len(),
                entries@[base0].children@.len() == 0,
                entries@[base0].parent == parent,
                entries@[base0].depth == depth,
                depth <= base0,
                entries@.len() == base0 + 1 + spec_forest_size(kids.take(m)),
                whole == spec_forest_nodes(seq![comment], depth as int, pm, base0),
                comment.children@ == kids,
                entry_matches(entries@[base0], whole[0]),
                whole == seq![whole[0]] + spec_forest_nodes(kids, depth + 1, Some(base0), base0 + 1),
                forall|i: int| 0 <= i < base0 ==> entries@[i] == old(entries)@[i],
                forall|k: int|
                    0 <= k < spec_forest_size(kids.take(m)) ==> entry_matches(
                        #[trigger] entries@[base0 + 1 + k],
                        spec_forest_nodes(kids.take(m), depth + 1, Some(base0), base0 + 1)[k],
                    ),
                forall|k: int| base0 <= k < entries@.len() ==> #[trigger] entries@[k].expanded,
                forall|j: int|
                    base0 + 1 <= j < entries@.len() ==> (#[trigger] entries@[j].parent matches Some(
                        p,
                    ) ==> (p >= base0 + 1 ==> entries@[p as int].children@.contains(j as usize))),
                forall|j: int|
                    base0 + 1 <= j < entries@.len() ==> (#[trigger] entries@[j].parent is Some),
                child_indices@.len() == m,
                forall|k: int|
                    0 <= k < m ==> entries@[#[trigger] child_indices@[k] as int].parent == Some(
                        idx,
                    ) && base0 < child_indices@[k] < entries@.len(),
                forall|k1: int, k2: int|
                    0 <= k1 < k2 < m ==> #[trigger] child_indices@[k1] < #[trigger] child_indices@[k2],
                forall|j: int|
                    base0 + 1 <= j < entries@.len() ==> (#[trigger] entries@[j].parent == Some(idx)
                        ==> child_indices@.contains(j as usize)),
            decreases rest@.len(),
        {
            let ghost childg = kids[m];
            let child = rest.remove(0);
            proof {
                assert(kids.skip(m)[0] == kids[m]);
                assert(child == childg);
                assert(kids.skip(m).skip(1) =~= kids.skip(m + 1));
                assert(decreases_to!(comment => comment.children));
                assert(decreases_to!(comment.children => kids));
                assert(decreases_to!(kids => kids[m]));
            }
            let cur_len = entries.len();
            let ghost pre_len = entries@.len() as int;
            let ghost pre_entries = entries@;
            let ghost n1 = spec_forest_nodes(kids.take(m), depth + 1, Some(base0), base0 + 1);
            let child_idx = Self::push_comment(entries, child, Some(idx), depth + 1);
            let ghost cblock = spec_forest_nodes(seq![childg], depth + 1, Some(base0), pre_len);
            let ghost ci0 = child_indices@;
            child_indices.push(child_idx);
            proof {
                lemma_forest_snoc(kids, m, depth + 1, Some(base0), base0 + 1);
                lemma_forest_nodes_len(kids.take(m), depth + 1, Some(base0), base0 + 1);
                lemma_forest_nodes_len(kids.take(m + 1), depth + 1, Some(base0), base0 + 1);
                lemma_forest_nodes_len(seq![childg], depth + 1, Some(base0), pre_len);
                assert(pre_len == base0 + 1 + n1.len());
                let ghost n2 = spec_forest_nodes(kids.take(m + 1), depth + 1, Some(base0), base0 + 1);
                assert(n2 == n1 + cblock);
                assert forall|k: int|
                    0 <= k < spec_forest_size(kids.take(m + 1)) implies entry_matches(
                    #[trigger] entries@[base0 + 1 + k],
                    spec_forest_nodes(kids.take(m + 1), depth + 1, Some(base0), base0 + 1)[k],
                ) by {
                    if k < n1.len() {
                        assert(entries@[base0 + 1 + k] == pre_entries[base0 + 1 + k]);
                        assert(n2[k] == n1[k]);
                    } else {
                        assert(n2[k] == cblock[k - n1.len()]);
                        assert(entries@[pre_len + (k - n1.len())] == entries@[base0 + 1 + k]);
                    }
                }
                lemma_forest_nodes_parents(seq![childg], depth + 1, Some(base0), pre_len);
                lemma_single_inner_parents(childg, depth + 1, Some(base0), pre_len);
                lemma_forest_nodes_len(seq![childg], depth + 1, Some(base0), pre_len);
                assert(seq![childg] == seq![child]);
                assert(cblock == spec_forest_nodes(
                    seq![child],
                    (depth + 1) as int,
                    Some(idx as int),
                    pre_len,
                ));
                assert forall|k: int|
                    0 <= k < spec_forest_size(seq![childg]) implies entry_matches(
                    #[trigger] entries@[pre_len + k],
                    cblock[k],
                ) by {
                    assert(entry_matches(
                        entries@[pre_len + k],
                        spec_forest_nodes(
                            seq![child],
                            (depth + 1) as int,
                            Some(idx as int),
                            pre_len,
                        )[k],
                    ));
                }
                assert(child_indices@ == ci0.push(child_idx));
                assert(child_indices@.contains(child_idx)) by {
                    assert(child_indices@.last() == child_idx);
                }
                assert forall|x: usize| ci0.contains(x) implies child_indices@.contains(x) by {
                    let k = choose|k: int| 0 <= k < ci0.len() && ci0[k] == x;
                    assert(child_indices@[k] == x);
                }
                assert forall|j: int|
                    base0 + 1 <= j < entries@.len() implies (#[trigger] entries@[j].parent
                    is Some) by {
                    if j >= pre_len {
                        assert(entries@[pre_len + (j - pre_len)] == entries@[j]);
                        assert(entry_matches(entries@[j], cblock[j - pre_len]));
                    } else {
                        assert(entries@[j] == pre_entries[j]);
                    }
                }
                assert forall|j: int|
                    base0 + 1 <= j < entries@.len() implies (#[trigger] entries@[j].parent
                    matches Some(p) ==> (p >= base0 + 1 ==> entries@[p as int].children@.contains(
                    j as usize,
                ))) by {
                    if j >= pre_len {
                        assert(entries@[pre_len + (j - pre_len)] == entries@[j]);
                        assert(entry_matches(entries@[j], cblock[j - pre_len]));
                        if entries@[j].parent is Some && entries@[j].parent->Some_0 >= base0 + 1 {
                            let p = entries@[j].parent->Some_0;
                            assert(cblock[j - pre_len].parent == Some(base0) || (cblock[j
                                - pre_len].parent matches Some(q) && pre_len <= q < pre_len
                                + spec_forest_size(seq![childg])));
                            assert(p >= pre_len);
                        }
                    } else {
                        assert(entries@[j] == pre_entries[j]);
                        if entries@[j].parent is Some && entries@[j].parent->Some_0 >= base0 + 1 {
                            let p = entries@[j].parent->Some_0;
                            assert(p < pre_len);
                            assert(entries@[p as int] == pre_entries[p as int]);
                        }
                    }
                }
                assert(forall|jj: int|
                    base0 + 1 <= jj < pre_entries.len() ==> (#[trigger] pre_entries[jj].parent
                        == Some(idx) ==> ci0.contains(jj as usize)));
                assert forall|j: int|
                    base0 + 1 <= j < entries@.len() implies (#[trigger] entries@[j].parent == Some(
                    idx,
                ) ==> child_indices@.contains(j as usize)) by {
                    if j >= pre_len {
                        assert(entries@[pre_len + (j - pre_len)] == entries@[j]);
                        assert(entry_matches(entries@[j], cblock[j - pre_len]));
                        if entries@[j].parent == Some(idx) {
                            if j > pre_len {
                                assert(cblock[j - pre_len].parent matches Some(q) && pre_len <= q);
                                assert(entries@[j].parent->Some_0 == idx);
                                assert(base0 < pre_len);
                                assert(false);
                            }
                            assert(j == pre_len);
                            assert(child_idx as int == pre_len);
                            assert(j as usize == child_idx);
                            assert(child_indices@.contains(child_idx));
                        }
                    } else {
                        if entries@[j].parent == Some(idx) {
                            assert(entries@[j] == pre_entries[j]);
                            assert(pre_entries[j].parent == Some(idx));
                            assert(ci0.contains(j as usize));
                        }
                    }
                }
                m = m + 1;
                assert(rest@ =~= kids.skip(m));
            }
        }
        proof {
            assert(kids.take(m) =~= kids);
        }
        let ghost pre_fix = entries@;
        let e = entry_mut(entries, idx);
        e.children = child_indices;
        proof {
            lemma_forest_nodes_len(kids, depth + 1, Some(base0), base0 + 1);
            assert(seq![comment][0] == comment);
            assert(seq![comment].skip(1) =~= Seq::<Comment>::empty());
            assert(spec_forest_size(Seq::<Comment>::empty()) == 0);
            assert(entries@.len() == pre_fix.len());
            assert(forall|i: int| 0 <= i < entries@.len() && i != base0 ==> entries@[i] == pre_fix[i]);
            assert(entries@[base0].parent == parent);
            assert(entries@[base0].depth == depth);
            assert(entry_matches(entries@[base0], whole[0]));
            assert(spec_forest_size(seq![comment]) == 1 + spec_forest_size(kids));
            assert forall|k: int| 0 <= k < spec_forest_size(seq![comment]) implies entry_matches(
                #[trigger] entries@[base0 + k],
                whole[k],
            ) by {
                if k > 0 {
                    assert(whole[k] == spec_forest_nodes(kids, depth + 1, Some(base0), base0 + 1)[
                        k - 1]);
                    assert(entries@[base0 + k] == pre_fix[base0 + k]);
                    assert(entry_matches(
                        pre_fix[base0 + 1 + (k - 1)],
                        spec_forest_nodes(kids, depth + 1, Some(base0), base0 + 1)[k - 1],
                    ));
                    assert(pre_fix[base0 + 1 + (k - 1)] == entries@[base0 + k]);
                }
            }
            assert forall|i: int| 0 <= i < entries@.len() implies {
                &&& (#[trigger] entries@[i].parent matches Some(p) ==> 0 <= p < i
                    && entries@[i].depth == entries@[p as int].depth + 1)
                &&& (entries@[i].parent is None ==> entries@[i].depth == 0)
                &&& (forall|k: int|
                    0 <= k < entries@[i].children@.len() ==> i < #[trigger] entries@[i].children@[k]
                        < entries@.len() && entries@[entries@[i].children@[k] as int].parent
                        == Some(i as usize))
                &&& (forall|k1: int, k2: int|
                    0 <= k1 < k2 < entries@[i].children@.len() ==> #[trigger] entries@[i].children@[k1]
                        < #[trigger] entries@[i].children@[k2])
            } by {
                if i != base0 {
                    assert(entries@[i] == pre_fix[i]);
                    assert(forall|k: int|
                        0 <= k < pre_fix[i].children@.len() ==> i < #[trigger] pre_fix[i].children@[k]
                            < pre_fix.len() && pre_fix[pre_fix[i].children@[k] as int].parent
                            == Some(i as usize));
                    assert(forall|k: int|
                        0 <= k < entries@[i].children@.len() ==> entries@[entries@[i].children@[k] as int]
                            == pre_fix[pre_fix[i].children@[k] as int]);
                }
            }
            assert(arena_wf_basic(entries@));
        }
        idx
    }

    /// Builds the arena from a fetched discussion: nodes in pre-order,
    /// every node expanded, the focused comment selected when present and
    /// otherwise the first node.
    pub fn new(thread: CommentThread, fallback_link: String) -> (r: CommentView)
        ensures
            built_from(thread, fallback_link@, r),
    {
        broadcast use vstd::std_specs::vec::group_vec_axioms;

        let CommentThread { focus, roots, url } = thread;
        let ghost all = thread.roots@;
        let mut entries: Vec<CommentEntry> = Vec::new();
        let mut rest = roots;
        let ghost mut m: int = 0;
        proof {
            assert(all.take(0) =~= Seq::<Comment>::empty());
            assert(rest@ =~= all.skip(0));
        }
        while rest.len() > 0
            invariant
                arena_wf_basic(entries@),
                arena_complete(entries@),
                0 <= m <= all.len(),
                rest@ == all.skip(m),
                entries@.len() == spec_forest_size(all.take(m)),
                forall|k: int|
                    0 <= k < entries@.len() ==> entry_matches(
                        #[trigger] entries@[k],
                        spec_forest_nodes(all.take(m), 0, None, 0)[k],
                    ),
                forall|k: int| 0 <= k < entries@.len() ==> #[trigger] entries@[k].expanded,
            decreases rest@.len(),
        {
            let ghost rootg = all[m];
            let root = rest.remove(0);
            proof {
                assert(all.skip(m)[0] == all[m]);
                assert(root == rootg);
                assert(all.skip(m).skip(1) =~= all.skip(m + 1));
            }
            let ghost pre_len = entries@.len() as int;
            let ghost pre_entries = entries@;
            let ghost n1 = spec_forest_nodes(all.take(m), 0, None, 0);
            Self::push_comment(&mut entries, root, None, 0);
            let ghost rblock = spec_forest_nodes(seq![rootg], 0, None, pre_len);
            proof {
                lemma_forest_snoc(all, m, 0, None, 0);
                lemma_forest_nodes_len(all.take(m), 0, None, 0);
                lemma_forest_nodes_len(all.take(m + 1), 0, None, 0);
                lemma_forest_nodes_len(seq![rootg], 0, None, pre_len);
                lemma_forest_nodes_parents(seq![rootg], 0, None, pre_len);
                lemma_single_inner_parents(rootg, 0, None, pre_len);
                assert(seq![rootg] == seq![root]);
                assert(rblock == spec_forest_nodes(seq![root], 0int, None, pre_len));
                let ghost n2 = spec_forest_nodes(all.take(m + 1), 0, None, 0);
                assert(n2 == n1 + rblock);
                assert forall|k: int|
                    0 <= k < spec_forest_size(seq![rootg]) implies entry_matches(
                    #[trigger] entries@[pre_len + k],
                    rblock[k],
                ) by {
                    assert(entry_matches(
                        entries@[pre_len + k],
                        spec_forest_nodes(seq![root], 0int, None, pre_len)[k],
                    ));
                }
                assert forall|k: int|
                    0 <= k < spec_forest_size(all.take(m + 1)) implies entry_matches(
                    #[trigger] entries@[k],
                    spec_forest_nodes(all.take(m + 1), 0, None, 0)[k],
                ) by {
                    if k < n1.len() {
                        assert(entries@[k] == pre_entries[k]);
                        assert(n2[k] == n1[k]);
                    } else {
                        assert(n2[k] == rblock[k - n1.len()]);
                        assert(entries@[pre_len + (k - n1.len())] == entries@[k]);
                    }
                }
                assert forall|j: int|
                    0 <= j < entries@.len() implies (#[trigger] entries@[j].parent matches Some(p)
                    ==> entries@[p as int].children@.contains(j as usize)) by {
                    if j < pre_len {
                        assert(entries@[j] == pre_entries[j]);
                        if entries@[j].parent is Some {
                            let p = entries@[j].parent->Some_0;
                            assert(pre_entries[p as int].children@.contains(j as usize));
                            assert(entries@[p as int] == pre_entries[p as int]);
                        }
                    } else {
                        assert(entries@[pre_len + (j - pre_len)] == entries@[j]);
                        assert(entry_matches(entries@[j], rblock[j - pre_len]));
                        if entries@[j].parent is Some {
                            let p = entries@[j].parent->Some_0;
                            assert(j - pre_len >= 1);
                            assert(rblock[j - pre_len].parent matches Some(q) && pre_len <= q);
                            assert(p >= pre_len);
                        }
                    }
                }
                m = m + 1;
                assert(rest@ =~= all.skip(m));
            }
        }
        proof {
            assert(all.take(m) =~= all);
        }
        let selected_focus: Option<usize> = match focus {
            Some(f) => Self::find_first_id(&entries, f),
            None => None,
        };
        let selected: Option<usize> = match selected_focus {
            Some(s) => Some(s),
            None => {
                if entries.len() > 0 {
                    Some(0)
                } else {
                    None
                }
            },
        };
        let link: String = match url {
            Some(u) => u,
            None => fallback_link,
        };
        CommentView { entries, link, offset: 0, selected }
    }

    fn find_first_id(entries: &Vec<CommentEntry>, f: u64) -> (r: Option<usize>)
        ensures
            r matches Some(s) ==> s < entries@.len() && entries@[s as int].id == f && (forall|j: int|
                0 <= j < s ==> #[trigger] entries@[j].id != f),
            r is None ==> forall|j: int| 0 <= j < entries@.len() ==> #[trigger] entries@[j].id != f,
    {
        let mut i: usize = 0;
        while i < entries.len()
            invariant
                i <= entries@.len(),
                forall|j: int| 0 <= j < i ==> #[trigger] entries@[j].id != f,
            decreases entries@.len() - i,
        {
            if entries[i].id == f {
                return Some(i);
            }
            i = i + 1;
        }
        None
    }

    /// Whether the row at `idx` is visible, walking its ancestor chain.
    pub fn is_visible(&self, idx: usize) -> (r: bool)
        requires
            arena_wf_basic(self.entries@),
        ensures
            r == spec_visible(self.entries@, idx as int),
    {
        if idx >= self.entries.len() {
            return true;
        }
        let mut current = idx;
        loop
            invariant
                arena_wf_basic(self.entries@),
                current < self.entries@.len(),
                spec_visible(self.entries@, idx as int) == spec_visible(
                    self.entries@,
                    current as int,
                ),
            decreases current,
        {
            match self.entries[current].parent {
                None => {
                    return true;
                },
                Some(p) => {
                    assert(p < current);
                    if !self.entries[p].expanded {
                        return false;
                    }
                    current = p;
                },
            }
        }
    }

    /// The visible rows in arena order: indices as mathematical integers.
    pub open spec fn spec_visible_seq(v: Seq<CommentEntry>) -> Seq<int> {
        Seq::new(v.len(), |i: int| i).filter(|i: int| spec_visible(v, i))
    }

    /// The visible rows of the arena, in order.
    pub fn visible_indexes(&self) -> (r: Vec<usize>)
        requires
            arena_wf_basic(self.entries@),
        ensures
            r@.map_values(|u: usize| u as int) == Self::spec_visible_seq(self.entries@),
            forall|k: int|
                0 <= k < r@.len() ==> #[trigger] r@[k] < self.entries@.len() && spec_visible(
                    self.entries@,
                    r@[k] as int,
                ),
            forall|k1: int, k2: int| 0 <= k1 < k2 < r@.len() ==> #[trigger] r@[k1] < #[trigger] r@[k2],
            forall|i: int|
                0 <= i < self.entries@.len() && spec_visible(self.entries@, i) ==> r@.contains(
                    i as usize,
                ),
    {
        let ghost v = self.entries@;
        let mut r: Vec<usize> = Vec::new();
        let n = self.entries.len();
        let mut i: usize = 0;
        proof {
            reveal(Seq::filter);
            assert(Seq::new(0, |t: int| t) =~= Seq::<int>::empty());
            assert(r@.map_values(|u: usize| u as int) =~= Seq::new(0, |t: int| t).filter(
                |t: int| spec_visible(v, t),
            ));
        }
        while i < n
            invariant
                arena_wf_basic(v),
                v == self.entries@,
                n == v.len(),
                i <= n,
                r@.map_values(|u: usize| u as int) == Seq::new(i as nat, |t: int| t).filter(
                    |t: int| spec_visible(v, t),
                ),
                forall|k: int|
                    0 <= k < r@.len() ==> #[trigger] r@[k] < i && spec_visible(v, r@[k] as int),
                forall|k1: int, k2: int| 0 <= k1 < k2 < r@.len() ==> #[trigger] r@[k1] < #[trigger] r@[k2],
                forall|j: int| 0 <= j < i && spec_visible(v, j) ==> r@.contains(j as usize),
            decreases n - i,
        {
            let ghost pre = r@;
            let vis = self.is_visible(i);
            if vis {
                r.push(i);
            }
            proof {
                reveal(Seq::filter);
                let prefix = Seq::new(i as nat, |t: int| t);
                let next = Seq::new((i + 1) as nat, |t: int| t);
                assert(next =~= prefix.push(i as int));
                assert(next.drop_last() =~= prefix);
                assert(next.last() == i as int);
                if vis {
                    assert(r@ =~= pre.push(i as usize));
                    assert(r@.map_values(|u: usize| u as int) =~= pre.map_values(
                        |u: usize| u as int,
                    ).push(i as int));
                    assert forall|j: int| 0 <= j < i + 1 && spec_visible(v, j) implies r@.contains(
                        j as usize,
                    ) by {
                        if j < i {
                            assert(pre.contains(j as usize));
                            let k = choose|k: int| 0 <= k < pre.len() && pre[k] == j as usize;
                            assert(r@[k] == j as usize);
                        } else {
                            assert(r@.last() == j as usize);
                        }
                    }
                } else {
                    assert(next.filter(|t: int| spec_visible(v, t)) == prefix.filter(
                        |t: int| spec_visible(v, t),
                    ));
                }
            }
            i = i + 1;
        }
        proof {
            assert(Seq::new(n as nat, |t: int| t) =~= Seq::new(v.len(), |t: int| t));
        }
        r
    }

    /// The visible rows together with the selection's position among them.
    pub fn visible_with_selection(&self) -> (r: (Vec<usize>, Option<usize>))
        requires
            arena_wf_basic(self.entries@),
        ensures
            r.0@.map_values(|u: usize| u as int) == Self::spec_visible_seq(self.entries@),
            forall|k: int|
                0 <= k < r.0@.len() ==> #[trigger] r.0@[k] < self.entries@.len() && spec_visible(
                    self.entries@,
                    r.0@[k] as int,
                ),
            forall|k1: int, k2: int|
                0 <= k1 < k2 < r.0@.len() ==> #[trigger] r.0@[k1] < #[trigger] r.0@[k2],
            forall|i: int|
                0 <= i < self.entries@.len() && spec_visible(self.entries@, i) ==> r.0@.contains(
                    i as usize,
                ),
            r.1 matches Some(pos) ==> (self.selected matches Some(s) && pos < r.0@.len() && r.0@[
                pos as int] == s && (forall|j: int| 0 <= j < pos ==> #[trigger] r.0@[j] != s)),
            r.1 is None ==> (self.selected is None || !r.0@.contains(self.selected->Some_0)),
    {
        let visible = self.visible_indexes();
        let pos: Option<usize> = match self.selected {
            Some(s) => Self::find_pos(&visible, s),
            None => None,
        };
        (visible, pos)
    }

    fn find_pos(v: &Vec<usize>, x: usize) -> (r: Option<usize>)
        ensures
            r matches Some(pos) ==> pos < v@.len() && v@[pos as int] == x && (forall|j: int|
                0 <= j < pos ==> #[trigger] v@[j] != x),
            r is None ==> !v@.contains(x),
    {
        let mut i: usize = 0;
        while i < v.len()
            invariant
                i <= v@.len(),
                forall|j: int| 0 <= j < i ==> #[trigger] v@[j] != x,
            decreases v@.len() - i,
        {
            if v[i] == x {
                return Some(i);
            }
            i = i + 1;
        }
        proof {
            if v@.contains(x) {
                let k = choose|k: int| 0 <= k < v@.len() && v@[k] == x;
                assert(v@[k] != x);
            }
        }
        None
    }

    /// Moves the selection by `delta` steps over the visible order,
    /// clamped at both ends; with no visible row the selection clears.
    pub fn move_by(&mut self, delta: isize)
        requires
            old(self).wf(),
        ensures
            final(self).entries == old(self).entries,
            final(self).link == old(self).link,
            final(self).offset == old(self).offset,
            final(self).wf(),
            final(self).selected == spec_move_target(
                old(self).entries@,
                old(self).selected,
                delta as int,
            ),
    {
        let ghost v = self.entries@;
        let ghost vis = Self::spec_visible_seq(v);
        let (visible, selected_pos) = self.visible_with_selection();
        if visible.len() == 0 {
            self.selected = None;
            proof {
                if vis.len() != 0 {
                    assert(visible@.map_values(|u: usize| u as int).len() == vis.len());
                }
            }
            return;
        }
        let current: usize = match selected_pos {
            Some(p) => p,
            None => 0,
        };
        let max_index = visible.len() - 1;
        let target: usize = if delta >= 0 {
            let d = delta as usize;
            if d > max_index - current {
                max_index
            } else {
                current + d
            }
        } else {
            let magnitude: usize = if delta == isize::MIN {
                (isize::MAX as usize) + 1
            } else {
                (-delta) as usize
            };
            if magnitude > current {
                0
            } else {
                current - magnitude
            }
        };
        let chosen = visible[target];
        self.selected = Some(chosen);
        proof {
            assert(vis.len() == visible@.len());
            assert(forall|k: int| 0 <= k < vis.len() ==> vis[k] == #[trigger] visible@[k] as int);
            let cur = if old(self).selected is Some && vis.contains(
                old(self).selected->Some_0 as int,
            ) {
                vis.index_of(old(self).selected->Some_0 as int)
            } else {
                0
            };
            match selected_pos {
                Some(p) => {
                    let s = old(self).selected->Some_0;
                    assert(vis[p as int] == s as int);
                    assert(vis.contains(s as int));
                    let io = vis.index_of(s as int);
                    assert(vis[io] == s as int);
                    if io != p as int {
                        assert(vis[io] == vis[p as int]);
                        assert(visible@[io] == visible@[p as int]);
                        assert(false);
                    }
                    assert(cur == p as int);
                },
                None => {
                    if old(self).selected is Some && vis.contains(
                        old(self).selected->Some_0 as int,
                    ) {
                        let s = old(self).selected->Some_0;
                        let io = vis.index_of(s as int);
                        assert(visible@[io] == s);
                        assert(visible@.contains(s));
                        assert(false);
                    }
                    assert(cur == 0);
                },
            }
            assert(target == clamp_pos(cur + delta, vis.len() as int));
            assert(chosen as int == vis[clamp_pos(cur + delta, vis.len() as int)]);
        }
    }

    /// Selects the next visible row, staying put at the bottom.
    pub fn select_next(&mut self)
        requires
            old(self).wf(),
        ensures
            final(self).entries == old(self).entries,
            final(self).link == old(self).link,
            final(self).offset == old(self).offset,
            final(self).wf(),
            final(self).selected == spec_move_target(old(self).entries@, old(self).selected, 1),
    {
        self.move_by(1);
    }

    /// Selects the previous visible row, staying put at the top.
    pub fn select_previous(&mut self)
        requires
            old(self).wf(),
        ensures
            final(self).entries == old(self).entries,
            final(self).link == old(self).link,
            final(self).offset == old(self).offset,
            final(self).wf(),
            final(self).selected == spec_move_target(old(self).entries@, old(self).selected, -1),
    {
        self.move_by(-1);
    }

    /// Selects the visible row at the given position, clamped to the end.
    pub fn select_index_at(&mut self, pos: usize)
        requires
            old(self).wf(),
        ensures
            final(self).entries == old(self).entries,
            final(self).link == old(self).link,
            final(self).offset == old(self).offset,
            final(self).wf(),
            ({
                let vis = Self::spec_visible_seq(old(self).entries@);
                if vis.len() == 0 {
                    final(self).selected is None
                } else {
                    final(self).selected == Some(
                        vis[clamp_pos(pos as int, vis.len() as int)] as usize,
                    )
                }
            }),
    {
        let ghost vis = Self::spec_visible_seq(self.entries@);
        let (visible, _) = self.visible_with_selection();
        if visible.len() == 0 {
            self.selected = None;
            return;
        }
        let index = if pos < visible.len() - 1 {
            pos
        } else {
            visible.len() - 1
        };
        self.selected = Some(visible[index]);
        proof {
            assert(vis.len() == visible@.len());
            assert(vis[index as int] == visible@[index as int] as int);
            assert(index as int == clamp_pos(pos as int, vis.len() as int));
        }
    }

    /// Pages the selection down over the visible order.
    pub fn page_down(&mut self, amount: usize)
        requires
            old(self).wf(),
        ensures
            final(self).entries == old(self).entries,
            final(self).link == old(self).link,
            final(self).offset == old(self).offset,
            final(self).wf(),
            final(self).selected == spec_move_target(
                old(self).entries@,
                old(self).selected,
                spec_page_delta(amount as int),
            ),
    {
        let step: usize = if amount > 1 {
            amount - 1
        } else {
            1
        };
        let delta: isize = if step > isize::MAX as usize {
            isize::MAX
        } else {
            step as isize
        };
        self.move_by(delta);
    }

    /// Pages the selection up over the visible order.
    pub fn page_up(&mut self, amount: usize)
        requires
            old(self).wf(),
        ensures
            final(self).entries == old(self).entries,
            final(self).link == old(self).link,
            final(self).offset == old(self).offset,
            final(self).wf(),
            final(self).selected == spec_move_target(
                old(self).entries@,
                old(self).selected,
                -spec_page_delta(amount as int),
            ),
    {
        let step: usize = if amount > 1 {
            amount - 1
        } else {
            1
        };
        let delta: isize = if step > isize::MAX as usize {
            isize::MAX
        } else {
            step as isize
        };
        self.move_by(-delta);
    }

    /// The page this discussion links to.
    pub fn link(&self) -> (r: &str)
        ensures
            r@ == self.link@,
    {
        self.link.as_str()
    }

    /// The selected arena row, when there is one.
    pub fn selected_entry(&self) -> (r: Option<&CommentEntry>)
        requires
            self.wf(),
        ensures
            self.selected matches Some(s) ==> (r matches Some(e) && e == &self.entries@[s as int]),
            self.selected is None ==> r is None,
    {
        match self.selected {
            Some(s) => Some(&self.entries[s]),
            None => None,
        }
    }


    /// Flips the selected row between collapsed and expanded; rows without
    /// replies are left alone.  With no selection only the selection
    /// repair runs.
    pub fn toggle_selected(&mut self)
        requires
            old(self).wf(),
        ensures
            toggle_rel(*old(self), *final(self)),
    {
        let ghost v = self.entries@;
        match self.selected {
            None => {
                self.ensure_selection_visible();
            },
            Some(s) => {
                if self.entries[s].children.len() == 0 {
                    return;
                }
                let was = self.entries[s].expanded;
                let e = entry_mut(&mut self.entries, s);
                e.expanded = !was;
                let ghost v2 = self.entries@;
                proof {
                    assert(v2 == v.update(s as int, with_expanded(v[s as int], !v[
                        s as int].expanded)));
                    lemma_wf_after_flag(v, s as int, !v[s as int].expanded);
                }
                self.ensure_selection_visible();
                proof {
                    if spec_visible(v2, s as int) {
                        if self.selected != Some(s) {
                            let t = self.selected->Some_0;
                            assert(is_ancestor(v2, t as int, s as int));
                            assert(!spec_visible(v2, s as int));
                        }
                    }
                }
            },
        }
    }

    /// Expands a collapsed selected row; an already expanded one hands the
    /// selection to its first reply.  Rows without replies are left alone.
    pub fn expand_selected(&mut self)
        requires
            old(self).wf(),
        ensures
            expand_rel(*old(self), *final(self)),
    {
        let ghost v = self.entries@;
        match self.selected {
            None => {
                self.ensure_selection_visible();
            },
            Some(s) => {
                if self.entries[s].children.len() == 0 {
                    return;
                }
                if self.entries[s].expanded {
                    let c = self.entries[s].children[0];
                    proof {
                        assert(s < c < v.len());
                    }
                    self.selected = Some(c);
                    self.ensure_selection_visible();
                    proof {
                        if spec_visible(v, c as int) {
                            if self.selected != Some(c) {
                                let t = self.selected->Some_0;
                                assert(is_ancestor(v, t as int, c as int));
                                assert(!spec_visible(v, c as int));
                            }
                        }
                    }
                } else {
                    let e = entry_mut(&mut self.entries, s);
                    e.expanded = true;
                    let ghost v2 = self.entries@;
                    proof {
                        assert(v2 == v.update(s as int, with_expanded(v[s as int], true)));
                        lemma_wf_after_flag(v, s as int, true);
                    }
                    self.ensure_selection_visible();
                    proof {
                        if spec_visible(v2, s as int) {
                            if self.selected != Some(s) {
                                let t = self.selected->Some_0;
                                assert(is_ancestor(v2, t as int, s as int));
                                assert(!spec_visible(v2, s as int));
                            }
                        }
                    }
                }
            },
        }
    }

    /// Collapses an expanded selected row; otherwise the selection climbs
    /// to the row's parent, when it has one.
    pub fn collapse_selected(&mut self)
        requires
            old(self).wf(),
        ensures
            collapse_rel(*old(self), *final(self)),
    {
        let ghost v = self.entries@;
        match self.selected {
            None => {
                self.ensure_selection_visible();
            },
            Some(s) => {
                if self.entries[s].expanded && self.entries[s].children.len() > 0 {
                    let e = entry_mut(&mut self.entries, s);
                    e.expanded = false;
                    let ghost v2 = self.entries@;
                    proof {
                        assert(v2 == v.update(s as int, with_expanded(v[s as int], false)));
                        lemma_wf_after_flag(v, s as int, false);
                    }
                    self.ensure_selection_visible();
                    proof {
                        if spec_visible(v2, s as int) {
                            if self.selected != Some(s) {
                                let t = self.selected->Some_0;
                                assert(is_ancestor(v2, t as int, s as int));
                                assert(!spec_visible(v2, s as int));
                            }
                        }
                    }
                } else {
                    match self.entries[s].parent {
                        Some(p) => {
                            self.selected = Some(p);
                            self.ensure_selection_visible();
                            proof {
                                if spec_visible(v, p as int) {
                                    if self.selected != Some(p) {
                                        let t = self.selected->Some_0;
                                        assert(is_ancestor(v, t as int, p as int));
                                        assert(!spec_visible(v, p as int));
                                    }
                                }
                            }
                        },
                        None => {
                            self.ensure_selection_visible();
                            proof {
                                assert(spec_visible(v, s as int));
                            }
                        },
                    }
                }
            },
        }
    }

    /// The permalink of the selected comment, when one is selected.
    pub fn selected_comment_link(&self) -> (r: Option<String>)
        requires
            self.wf(),
        ensures
            self.selected matches Some(s) ==> (r matches Some(u) && u@
                == crate::comment::spec_permalink(self.entries@[s as int].id)),
            self.selected is None ==> r is None,
    {
        match self.selected {
            Some(s) => Some(self.entries[s].permalink()),
            None => None,
        }
    }

    /// Repairs the selection after a mutation: an invisible selection
    /// climbs to its nearest visible ancestor; no selection falls back to
    /// the first visible row.
    pub fn ensure_selection_visible(&mut self)
        requires
            old(self).wf(),
        ensures
            final(self).entries == old(self).entries,
            final(self).link == old(self).link,
            final(self).offset == old(self).offset,
            final(self).wf(),
            final(self).selected matches Some(t) ==> spec_visible(final(self).entries@, t as int),
            old(self).selected is None ==> final(self).selected == (if old(self).entries@.len() > 0 {
                Some(0usize)
            } else {
                Option::<usize>::None
            }),
            old(self).selected matches Some(s) ==> (final(self).selected matches Some(t) && (
            t == s || is_ancestor(old(self).entries@, t as int, s as int)) && spec_visible(
                old(self).entries@,
                t as int,
            ) && (forall|a: int|
                ((a == s as int || is_ancestor(old(self).entries@, a, s as int)) && is_ancestor(
                    old(self).entries@,
                    t as int,
                    a,
                )) ==> !spec_visible(old(self).entries@, a))),
    {
        let ghost v = self.entries@;
        match self.selected {
            None => {
                if self.entries.len() > 0 {
                    self.selected = Some(0);
                    proof {
                        assert(spec_visible(v, 0));
                    }
                } else {
                    self.selected = None;
                }
            },
            Some(s0) => {
                let mut current = s0;
                proof {
                    assert forall|a: int|
                        ((a == s0 as int || is_ancestor(v, a, s0 as int)) && is_ancestor(
                            v,
                            s0 as int,
                            a,
                        )) implies !spec_visible(v, a) by {
                        lemma_ancestor_bounds(v, s0 as int, a);
                        if a != s0 as int {
                            lemma_ancestor_bounds(v, a, s0 as int);
                        }
                        assert(false);
                    }
                }
                loop
                    invariant
                        self.wf(),
                        v == self.entries@,
                        self.entries == old(self).entries,
                        self.link == old(self).link,
                        self.offset == old(self).offset,
                        old(self).selected == Some(s0),
                        self.selected == Some(s0),
                        s0 < v.len(),
                        current < v.len(),
                        current == s0 || is_ancestor(v, current as int, s0 as int),
                        forall|a: int|
                            ((a == s0 as int || is_ancestor(v, a, s0 as int)) && is_ancestor(
                                v,
                                current as int,
                                a,
                            )) ==> !spec_visible(v, a),
                    decreases current,
                {
                    let vis = self.is_visible(current);
                    if vis {
                        self.selected = Some(current);
                        return;
                    }
                    match self.entries[current].parent {
                        Some(p) => {
                            proof {
                                assert(is_ancestor(v, p as int, current as int));
                                if current != s0 {
                                    lemma_ancestor_trans(v, p as int, current as int, s0 as int);
                                }
                                assert forall|a: int|
                                    ((a == s0 as int || is_ancestor(v, a, s0 as int))
                                        && is_ancestor(v, p as int, a)) implies !spec_visible(
                                    v,
                                    a,
                                ) by {
                                    if a == current as int {
                                    } else if is_ancestor(v, current as int, a) {
                                    } else {
                                        lemma_ancestor_bounds(v, p as int, a);
                                        if a == s0 as int {
                                            if current == s0 {
                                                assert(false);
                                            } else {
                                                assert(is_ancestor(v, current as int, a));
                                                assert(false);
                                            }
                                        } else {
                                            if current == s0 {
                                                assert(is_ancestor(v, a, s0 as int));
                                                if p as int == a {
                                                    assert(false);
                                                } else {
                                                    assert(is_ancestor(v, a, p as int));
                                                    lemma_ancestor_bounds(v, a, p as int);
                                                    assert(false);
                                                }
                                            } else {
                                                lemma_chain_linear(
                                                    v,
                                                    a,
                                                    current as int,
                                                    s0 as int,
                                                );
                                                assert(is_ancestor(v, a, current as int));
                                                if p as int == a {
                                                    assert(false);
                                                } else {
                                                    assert(is_ancestor(v, a, p as int));
                                                    lemma_ancestor_bounds(v, a, p as int);
                                                    assert(false);
                                                }
                                            }
                                        }
                                    }
                                }
                            }
                            current = p;
                        },
                        None => {
                            proof {
                                assert(spec_visible(v, current as int));
                                assert(false);
                            }
                            self.selected = Some(current);
                            return;
                        },
                    }
                }
            },
        }
    }
}

} // verus!