//! The fixed partitions of the content feed.

use vstd::prelude::*;

verus! {

/// What a partition holds: a named story endpoint, the comment firehose,
/// search results, or the saved bookmarks.
#[derive(Clone, Copy, Debug)]
pub enum CategoryKind {
    Bookmarks,
    Comments,
    Search,
    Stories(&'static str),
}

/// One partition of the feed, with its display label.
#[derive(Clone, Copy, Debug)]
pub struct Category {
    pub kind: CategoryKind,
    pub label: &'static str,
}

impl Category {
    /// The partitions shown at startup, in tab order.
    pub fn all() -> (r: Vec<Category>)
        ensures
            r@.len() == 7,
            r@[0].label@ == "top"@ && (r@[0].kind matches CategoryKind::Stories(e) && e@
                == "topstories"@),
            r@[1].label@ == "new"@ && (r@[1].kind matches CategoryKind::Stories(e) && e@
                == "newstories"@),
            r@[2].label@ == "past"@ && (r@[2].kind matches CategoryKind::Stories(e) && e@
                == "topstories"@),
            r@[3].label@ == "comments"@ && r@[3].kind matches CategoryKind::Comments,
            r@[4].label@ == "ask"@ && (r@[4].kind matches CategoryKind::Stories(e) && e@
                == "askstories"@),
            r@[5].label@ == "show"@ && (r@[5].kind matches CategoryKind::Stories(e) && e@
                == "showstories"@),
            r@[6].label@ == "jobs"@ && (r@[6].kind matches CategoryKind::Stories(e) && e@
                == "jobstories"@),
    {
        let mut r: Vec<Category> = Vec::new();
        r.push(Category { label: "top", kind: CategoryKind::Stories("topstories") });
        r.push(Category { label: "new", kind: CategoryKind::Stories("newstories") });
        r.push(Category { label: "past", kind: CategoryKind::Stories("topstories") });
        r.push(Category { label: "comments", kind: CategoryKind::Comments });
        r.push(Category { label: "ask", kind: CategoryKind::Stories("askstories") });
        r.push(Category { label: "show", kind: CategoryKind::Stories("showstories") });
        r.push(Category { label: "jobs", kind: CategoryKind::Stories("jobstories") });
        r
    }
}

} // verus!
