//! The raw discussion tree as fetched, and its flattened-arena model.

use vstd::prelude::*;
use vstd::string::StringExecFns;

verus! {

broadcast use vstd::std_specs::vec::group_vec_axioms;

/// One fetched comment with its subtree.
#[derive(Debug)]
pub struct Comment {
    pub author: Option<String>,
    pub children: Vec<Comment>,
    pub dead: bool,
    pub deleted: bool,
    pub id: u64,
    pub text: Option<String>,
}

/// A fetched discussion: its root comments, an optional comment id to
/// focus, and the page's own link.
#[derive(Debug)]
pub struct CommentThread {
    pub focus: Option<u64>,
    pub roots: Vec<Comment>,
    pub url: Option<String>,
}

/// How many nodes a forest of comments holds.
pub open spec fn spec_forest_size(cs: Seq<Comment>) -> nat
    decreases cs,
{
    if cs.len() == 0 {
        0
    } else {
        1 + spec_forest_size(cs[0].children@) + spec_forest_size(cs.skip(1))
    }
}

/// One row of the flattened arena that a discussion view works over.
pub struct CommentEntry {
    pub author: Option<String>,
    pub body: String,
    pub children: Vec<usize>,
    pub dead: bool,
    pub deleted: bool,
    pub depth: usize,
    pub expanded: bool,
    pub id: u64,
    pub parent: Option<usize>,
}

/// The mathematical shape of one arena row: every scalar field of a
/// `CommentEntry` except its child list and expansion flag.
pub struct NodeModel {
    pub author: Option<Seq<char>>,
    pub body: Seq<char>,
    pub dead: bool,
    pub deleted: bool,
    pub depth: int,
    pub id: u64,
    pub parent: Option<int>,
}

/// The body text shown for a comment: placeholders for deleted and dead
/// ones, otherwise its text or nothing.
pub open spec fn spec_body(c: Comment) -> Seq<char> {
    if c.deleted {
        "[deleted]"@
    } else if c.dead {
        "[dead]"@
    } else {
        match c.text {
            Some(t) => t@,
            None => Seq::empty(),
        }
    }
}

/// The model row for one comment placed at a given depth under a parent.
pub open spec fn node_of(c: Comment, depth: int, parent: Option<int>) -> NodeModel {
    NodeModel {
        author: match c.author {
            Some(a) => Some(a@),
            None => None,
        },
        body: spec_body(c),
        dead: c.dead,
        deleted: c.deleted,
        depth: depth,
        id: c.id,
        parent: parent,
    }
}

/// The pre-order arena rows of a forest whose first node would sit at
/// absolute index `base`, all roots of the forest under `parent`.
pub open spec fn spec_forest_nodes(cs: Seq<Comment>, depth: int, parent: Option<int>, base: int)
    -> Seq<NodeModel>
    decreases cs,
{
    if cs.len() == 0 {
        Seq::empty()
    } else {
        seq![node_of(cs[0], depth, parent)] + spec_forest_nodes(
            cs[0].children@,
            depth + 1,
            Some(base),
            base + 1,
        ) + spec_forest_nodes(
            cs.skip(1),
            depth,
            parent,
            base + 1 + spec_forest_size(cs[0].children@),
        )
    }
}

/// Whether an arena row carries exactly the scalar content of a model row.
pub open spec fn entry_matches(e: CommentEntry, n: NodeModel) -> bool {
    &&& match (e.author, n.author) {
        (Some(a), Some(b)) => a@ == b,
        (None, None) => true,
        _ => false,
    }
    &&& e.body@ == n.body
    &&& e.dead == n.dead
    &&& e.deleted == n.deleted
    &&& e.depth == n.depth
    &&& e.id == n.id
    &&& match (e.parent, n.parent) {
        (Some(p), Some(q)) => p == q,
        (None, None) => true,
        _ => false,
    }
}

/// The length of `spec_forest_nodes` is the forest's size.
pub proof fn lemma_forest_nodes_len(cs: Seq<Comment>, depth: int, parent: Option<int>, base: int)
    ensures
        spec_forest_nodes(cs, depth, parent, base).len() == spec_forest_size(cs),
    decreases cs,
{
    if cs.len() > 0 {
        lemma_forest_nodes_len(cs[0].children@, depth + 1, Some(base), base + 1);
        lemma_forest_nodes_len(
            cs.skip(1),
            depth,
            parent,
            base + 1 + spec_forest_size(cs[0].children@),
        );
    }
}

/// Where the parents of forest rows can point: at the forest's own
/// parent, or forward into the block itself.
pub proof fn lemma_forest_nodes_parents(cs: Seq<Comment>, d: int, p: Option<int>, b: int)
    ensures
        forall|k: int|
            0 <= k < spec_forest_nodes(cs, d, p, b).len() ==> (#[trigger] spec_forest_nodes(
                cs,
                d,
                p,
                b,
            )[k].parent == p || (spec_forest_nodes(cs, d, p, b)[k].parent matches Some(q) && b <= q
                < b + spec_forest_size(cs))),
    decreases cs,
{
    if cs.len() > 0 {
        let head = spec_forest_nodes(cs[0].children@, d + 1, Some(b), b + 1);
        let tail = spec_forest_nodes(
            cs.skip(1),
            d,
            p,
            b + 1 + spec_forest_size(cs[0].children@),
        );
        lemma_forest_nodes_parents(cs[0].children@, d + 1, Some(b), b + 1);
        lemma_forest_nodes_parents(cs.skip(1), d, p, b + 1 + spec_forest_size(cs[0].children@));
        lemma_forest_nodes_len(cs[0].children@, d + 1, Some(b), b + 1);
        lemma_forest_nodes_len(cs.skip(1), d, p, b + 1 + spec_forest_size(cs[0].children@));
        assert forall|k: int|
            0 <= k < spec_forest_nodes(cs, d, p, b).len() implies (#[trigger] spec_forest_nodes(
            cs,
            d,
            p,
            b,
        )[k].parent == p || (spec_forest_nodes(cs, d, p, b)[k].parent matches Some(q) && b <= q < b
            + spec_forest_size(cs))) by {
            if k == 0 {
            } else if k < 1 + head.len() {
                assert(spec_forest_nodes(cs, d, p, b)[k] == head[k - 1]);
            } else {
                assert(spec_forest_nodes(cs, d, p, b)[k] == tail[k - 1 - head.len()]);
            }
        }
    }
}

/// Inside a single comment's block every row after the root names a
/// parent within the block.
pub proof fn lemma_single_inner_parents(c: Comment, d: int, p: Option<int>, b: int)
    ensures
        forall|k: int|
            1 <= k < spec_forest_nodes(seq![c], d, p, b).len() ==> (#[trigger] spec_forest_nodes(
                seq![c],
                d,
                p,
                b,
            )[k].parent matches Some(q) && b <= q < b + spec_forest_size(seq![c])),
{
    let kids = c.children@;
    assert(seq![c][0] == c);
    assert(seq![c].skip(1) =~= Seq::<Comment>::empty());
    assert(spec_forest_size(Seq::<Comment>::empty()) == 0);
    let head = spec_forest_nodes(kids, d + 1, Some(b), b + 1);
    lemma_forest_nodes_parents(kids, d + 1, Some(b), b + 1);
    lemma_forest_nodes_len(kids, d + 1, Some(b), b + 1);
    assert(spec_forest_nodes(Seq::<Comment>::empty(), d, p, b + 1 + spec_forest_size(kids))
        == Seq::<NodeModel>::empty());
    assert(spec_forest_nodes(seq![c], d, p, b) =~= seq![node_of(c, d, p)] + head);
    assert forall|k: int|
        1 <= k < spec_forest_nodes(seq![c], d, p, b).len() implies (#[trigger] spec_forest_nodes(
        seq![c],
        d,
        p,
        b,
    )[k].parent matches Some(q) && b <= q < b + spec_forest_size(seq![c])) by {
        assert(spec_forest_nodes(seq![c], d, p, b)[k] == head[k - 1]);
    }
}


/// The snippet built from a comment's words: words joined by single
/// spaces until the running length reaches the budget.
pub open spec fn spec_snippet(ws: Seq<Seq<char>>, acc: Seq<char>) -> Seq<char>
    decreases ws.len(),
{
    if ws.len() == 0 {
        acc
    } else {
        let acc2 = if acc.len() == 0 {
            ws[0]
        } else {
            acc.push(' ') + ws[0]
        };
        if acc2.len() >= 120 {
            acc2
        } else {
            spec_snippet(ws.skip(1), acc2)
        }
    }
}

/// The site's page for a comment id.
pub open spec fn spec_permalink(id: u64) -> Seq<char> {
    "https://news.ycombinator.com/item?id="@ + crate::text::spec_decimal(id as int)
}

/// The header shown for a comment: its author, marked when the comment
/// is deleted or dead.
pub open spec fn spec_header(e: CommentEntry) -> Seq<char> {
    let author = match e.author {
        Some(a) => a@,
        None => "unknown"@,
    };
    if e.deleted {
        author + " (deleted)"@
    } else if e.dead {
        author + " (dead)"@
    } else {
        author
    }
}

impl CommentEntry {
    /// The comment's body text.
    pub fn body(&self) -> (r: &str)
        ensures
            r@ == self.body@,
    {
        self.body.as_str()
    }

    /// The site's page for this comment.
    pub fn permalink(&self) -> (r: String)
        ensures
            r@ == spec_permalink(self.id),
    {
        "https://news.ycombinator.com/item?id=".to_owned().concat(
            crate::text::u64_to_string(self.id).as_str(),
        )
    }

    /// Whether the comment has replies.
    pub fn has_children(&self) -> (r: bool)
        ensures
            r == (self.children@.len() > 0),
    {
        self.children.len() > 0
    }

    /// The author line, marked for deleted and dead comments.
    pub fn header(&self) -> (r: String)
        ensures
            r@ == spec_header(*self),
    {
        let author: String = match &self.author {
            Some(a) => a.clone(),
            None => "unknown".to_owned(),
        };
        if self.deleted {
            author.concat(" (deleted)")
        } else if self.dead {
            author.concat(" (dead)")
        } else {
            author
        }
    }

    /// This comment as a bookmarkable list row: a titled permalink with a
    /// snippet of the body as detail.
    pub fn to_bookmark_entry(&self) -> (r: crate::entry::ListEntry)
        ensures
            r.id@ == crate::text::spec_decimal(self.id as int),
            r.title@ == "Comment by "@ + (match self.author {
                Some(a) => a@,
                None => "unknown"@,
            }),
            r.url matches Some(u) && u@ == spec_permalink(self.id),
            ({
                let snip = crate::text::spec_trim_ws(
                    spec_snippet(crate::text::spec_words(self.body@), Seq::empty()),
                );
                &&& (snip.len() == 0 ==> r.detail is None)
                &&& (snip.len() > 0 ==> (r.detail matches Some(d) && d@
                    == crate::text::spec_truncate(snip, 120)))
            }),
    {
        let author: String = match &self.author {
            Some(a) => a.clone(),
            None => "unknown".to_owned(),
        };
        let title = "Comment by ".to_owned().concat(author.as_str());
        let body_chars = crate::text::chars_of(self.body.as_str());
        let words = crate::text::words_of(&body_chars);
        let ghost all_words = crate::text::spec_words(self.body@);
        let mut snippet: Vec<char> = Vec::new();
        let n = words.len();
        let mut i: usize = 0;
        proof {
            assert(all_words.skip(0) =~~= all_words);
        }
        while i < n
            invariant
                i <= n,
                n == words@.len(),
                words.deep_view() == all_words,
                all_words == crate::text::spec_words(self.body@),
                title@ == "Comment by "@ + (match self.author {
                    Some(a) => a@,
                    None => "unknown"@,
                }),
                spec_snippet(all_words, Seq::empty()) == spec_snippet(
                    all_words.skip(i as int),
                    snippet@,
                ),
                snippet@.len() < 120,
            decreases n - i,
        {
            let w = &words[i];
            proof {
                assert(all_words.skip(i as int)[0] == all_words[i as int]);
                assert(all_words[i as int] == words@[i as int]@);
                assert(all_words.skip(i as int).skip(1) =~~= all_words.skip(i + 1));
            }
            let ghost pre_word = snippet@;
            if snippet.len() > 0 {
                snippet.push(' ');
            }
            let mut t: usize = 0;
            let ghost snap = snippet@;
            while t < w.len()
                invariant
                    t <= w@.len(),
                    snippet@ == snap + w@.take(t as int),
                decreases w@.len() - t,
            {
                snippet.push(w[t]);
                t = t + 1;
                proof {
                    assert(snippet@ =~= snap + w@.take(t as int));
                }
            }
            proof {
                assert(w@.take(w@.len() as int) =~= w@);
                assert(snippet@ =~= snap + w@);
                if pre_word.len() == 0 {
                    assert(snippet@ =~= w@);
                } else {
                    assert(snippet@ =~= pre_word.push(' ') + w@);
                }
            }
            i = i + 1;
            if snippet.len() >= 120 {
                proof {
                    assert(spec_snippet(all_words.skip(i - 1), pre_word) == snippet@);
                }
                let trimmed = crate::text::trim_ws(&snippet);
                let detail: Option<String> = if trimmed.len() == 0 {
                    None
                } else {
                    Some(
                        crate::text::truncate(crate::text::string_of(&trimmed).as_str(), 120),
                    )
                };
                return crate::entry::ListEntry {
                    detail,
                    id: crate::text::u64_to_string(self.id),
                    title,
                    url: Some(self.permalink()),
                };
            }
        }
        proof {
            assert(all_words.skip(n as int) =~~= Seq::<Seq<char>>::empty());
            assert(spec_snippet(Seq::<Seq<char>>::empty(), snippet@) == snippet@);
        }
        let trimmed = crate::text::trim_ws(&snippet);
        let detail: Option<String> = if trimmed.len() == 0 {
            None
        } else {
            Some(crate::text::truncate(crate::text::string_of(&trimmed).as_str(), 120))
        };
        crate::entry::ListEntry {
            detail,
            id: crate::text::u64_to_string(self.id),
            title,
            url: Some(self.permalink()),
        }
    }
}

} // verus!
