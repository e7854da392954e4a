//! Flat list rows and their construction from fetched records.

use vstd::prelude::*;
use vstd::string::StringExecFns;
use crate::text::{
    chars_of, spec_decimal, spec_format_points, spec_trim_end_ws, spec_truncate, string_of,
    format_points, trim_ws, truncate, u64_to_string,
};

verus! {

/// A fetched story record.
pub struct Story {
    pub by: Option<String>,
    pub id: u64,
    pub score: Option<u64>,
    pub title: String,
    pub url: Option<String>,
}

/// A fetched comment search record.
pub struct CommentHit {
    pub author: Option<String>,
    pub comment_text: Option<String>,
    pub object_id: String,
    pub story_id: Option<String>,
    pub story_title: Option<String>,
    pub story_url: Option<String>,
}

/// A fetched story search record.
pub struct SearchHit {
    pub author: Option<String>,
    pub object_id: String,
    pub points: Option<u64>,
    pub title: Option<String>,
    pub url: Option<String>,
}

/// One row of the flat list: its identity, title, optional detail line
/// and optional link.
pub struct ListEntry {
    pub detail: Option<String>,
    pub id: String,
    pub title: String,
    pub url: Option<String>,
}

impl Clone for ListEntry {
    /// A field-for-field copy, equal to the original.
    fn clone(&self) -> (r: Self)
        ensures
            r == *self,
    {
        ListEntry {
            detail: match &self.detail {
                Some(d) => Some(d.clone()),
                None => None,
            },
            id: self.id.clone(),
            title: self.title.clone(),
            url: match &self.url {
                Some(u) => Some(u.clone()),
                None => None,
            },
        }
    }
}

/// The site's own page for an item id given as text.
pub open spec fn spec_item_page(id: Seq<char>) -> Seq<char> {
    "https://news.ycombinator.com/item?id="@ + id
}

/// The detail line built from a score and an author, either optional.
pub open spec fn spec_score_detail(score: Option<u64>, by: Option<Seq<char>>) -> Option<
    Seq<char>,
> {
    match (score, by) {
        (Some(sc), Some(name)) => Some(spec_format_points(sc as int) + " by "@ + name),
        (Some(sc), None) => Some(spec_format_points(sc as int)),
        (None, Some(name)) => Some("by "@ + name),
        (None, None) => None,
    }
}

fn score_detail(score: Option<u64>, by: Option<String>) -> (r: Option<String>)
    ensures
        r is Some <==> spec_score_detail(
            score,
            match by {
                Some(n) => Some(n@),
                None => None,
            },
        ) is Some,
        r matches Some(d) ==> d@ == spec_score_detail(
            score,
            match by {
                Some(n) => Some(n@),
                None => None,
            },
        )->Some_0,
{
    match (score, by) {
        (Some(sc), Some(name)) => Some(
            format_points(sc).concat(" by ").concat(name.as_str()),
        ),
        (Some(sc), None) => Some(format_points(sc)),
        (None, Some(name)) => Some("by ".to_owned().concat(name.as_str())),
        (None, None) => None,
    }
}

impl ListEntry {
    /// Builds a list row from a story: decimal id, the story's title and
    /// link, and a score-and-author detail line.
    pub fn from_story(story: Story) -> (r: ListEntry)
        ensures
            r.id@ == spec_decimal(story.id as int),
            r.title == story.title,
            r.url == story.url,
            r.detail is Some <==> spec_score_detail(
                story.score,
                match story.by {
                    Some(n) => Some(n@),
                    None => None,
                },
            ) is Some,
            r.detail matches Some(d) ==> d@ == spec_score_detail(
                story.score,
                match story.by {
                    Some(n) => Some(n@),
                    None => None,
                },
            )->Some_0,
    {
        let Story { by, id, score, title, url } = story;
        ListEntry { detail: score_detail(score, by), id: u64_to_string(id), title, url }
    }

    /// Builds a list row from a story search record: points-and-author
    /// detail, a placeholder title when none came back.
    pub fn from_search_hit(hit: SearchHit) -> (r: ListEntry)
        ensures
            r.id == hit.object_id,
            r.url == hit.url,
            r.title@ == match hit.title {
                Some(t) => t@,
                None => "Untitled"@,
            },
            r.detail is Some <==> spec_score_detail(
                hit.points,
                match hit.author {
                    Some(n) => Some(n@),
                    None => None,
                },
            ) is Some,
            r.detail matches Some(d) ==> d@ == spec_score_detail(
                hit.points,
                match hit.author {
                    Some(n) => Some(n@),
                    None => None,
                },
            )->Some_0,
    {
        let SearchHit { author, object_id, points, title, url } = hit;
        let title = match title {
            Some(t) => t,
            None => "Untitled".to_owned(),
        };
        ListEntry { detail: score_detail(points, author), id: object_id, title, url }
    }

    /// Builds a list row from a comment search record.  The detail is the
    /// comment's rendered text behind an author prefix; the link prefers
    /// the story's own page and falls back to the site's item page.
    pub fn from_comment_hit(hit: CommentHit) -> (r: ListEntry)
        ensures
            r.id == hit.object_id,
            r.title@ == match hit.story_title {
                Some(t) => t@,
                None => "Comment thread"@,
            },
            r.url matches Some(u) ==> (match (hit.story_url, hit.story_id) {
                (Some(su), _) => u@ == su@,
                (None, Some(sid)) => u@ == spec_item_page(sid@),
                (None, None) => false,
            }),
            r.url is None ==> hit.story_url is None && hit.story_id is None,
            hit.comment_text is None ==> r.detail is None,
            r.detail matches Some(d) ==> (hit.comment_text matches Some(ct) && {
                let author = match hit.author {
                    Some(a) => a@,
                    None => "unknown"@,
                };
                let cleaned = spec_trim_end_ws(rendered_text(ct@));
                cleaned.len() > 0 && d@ == author + ": "@ + spec_truncate(cleaned, 120)
            }),
    {
        let CommentHit { author, comment_text, object_id, story_id, story_title, story_url } =
            hit;
        let author: String = match author {
            Some(a) => a,
            None => "unknown".to_owned(),
        };
        let snippet: Option<String> = match comment_text {
            Some(ct) => {
                match render_text(ct.as_str()) {
                    Some(rendered) => {
                        let cs = chars_of(rendered.as_str());
                        let trimmed = Self::trim_tail(&cs);
                        if trimmed.len() == 0 {
                            None
                        } else {
                            Some(truncate(string_of(&trimmed).as_str(), 120))
                        }
                    },
                    None => None,
                }
            },
            None => None,
        };
        let detail: Option<String> = match snippet {
            Some(text) => Some(author.concat(": ").concat(text.as_str())),
            None => None,
        };
        let title: String = match story_title {
            Some(t) => t,
            None => "Comment thread".to_owned(),
        };
        let url: Option<String> = match story_url {
            Some(su) => Some(su),
            None => {
                match story_id {
                    Some(sid) => Some(
                        "https://news.ycombinator.com/item?id=".to_owned().concat(sid.as_str()),
                    ),
                    None => None,
                }
            },
        };
        ListEntry { detail, id: object_id, title, url }
    }

    fn trim_tail(cs: &Vec<char>) -> (r: Vec<char>)
        ensures
            r@ == spec_trim_end_ws(cs@),
    {
        let mut end: usize = cs.len();
        proof {
            assert(cs@.take(end as int) =~= cs@);
        }
        while end > 0 && crate::text::is_ws_char(cs[end - 1])
            invariant
                end <= cs@.len(),
                spec_trim_end_ws(cs@) == spec_trim_end_ws(cs@.take(end as int)),
            decreases end,
        {
            proof {
                assert(cs@.take(end as int).last() == cs@[end - 1]);
                assert(cs@.take(end as int).drop_last() =~= cs@.take(end - 1));
            }
            end = end - 1;
        }
        proof {
            if end > 0 {
                assert(cs@.take(end as int).last() == cs@[end - 1]);
            }
            assert(spec_trim_end_ws(cs@.take(end as int)) == cs@.take(end as int));
        }
        let mut r: Vec<char> = Vec::new();
        let mut t: usize = 0;
        while t < end
            invariant
                t <= end <= cs@.len(),
                r@ == cs@.take(t as int),
            decreases end - t,
        {
            r.push(cs[t]);
            t = t + 1;
            proof {
                assert(r@ =~= cs@.take(t as int));
            }
        }
        r
    }

    /// The link this row opens: its own URL when one is present and not
    /// empty, otherwise the site's item page for its id.
    pub fn resolved_url(&self) -> (r: String)
        ensures
            (self.url matches Some(u) && u@.len() > 0) ==> r@ == self.url->Some_0@,
            (self.url is None || self.url->Some_0@.len() == 0) ==> r@ == spec_item_page(self.id@),
    {
        match &self.url {
            Some(u) => {
                if u.as_str().is_empty() {
                    "https://news.ycombinator.com/item?id=".to_owned().concat(self.id.as_str())
                } else {
                    u.clone()
                }
            },
            None => "https://news.ycombinator.com/item?id=".to_owned().concat(self.id.as_str()),
        }
    }
}

/// The plain rendering of comment markup at unbounded width, as the
/// outside renderer produces it; a function of the markup alone.
pub uninterp spec fn rendered_text(s: Seq<char>) -> Seq<char>;

/// Relies on html2text::from_read at unbounded width: the rendering
/// depends on the markup alone.
#[verifier::external_body]
fn render_text(text: &str) -> (r: Option<String>)
    ensures
        r matches Some(s) ==> s@ == rendered_text(text@),
{
    html2text::from_read(text.as_bytes(), usize::MAX).ok()
}

} // verus!
