//! Cleaning of fetched comment markup: rendering to plain text through an
//! outside renderer, then a verified normalisation of the rendered lines.

use vstd::prelude::*;
use crate::text::{chars_of, spec_split_lines, spec_trim_ws, split_lines, string_of, trim_ws};

verus! {

/// The plain-text rendering of HTML markup, as the outside renderer
/// produces it with decoration off; a function of the markup alone.
pub uninterp spec fn plain_rendering(s: Seq<char>) -> Seq<char>;

/// Relies on html2text's plain no-decoration configuration with width
/// overflow allowed, no link wrapping and no table borders: the rendering
/// depends on the markup alone.
#[verifier::external_body]
fn render_plain(text: &str) -> (r: Option<String>)
    ensures
        r matches Some(s) ==> s@ == plain_rendering(text@),
{
    let config = html2text::config::plain_no_decorate()
        .allow_width_overflow()
        .no_link_wrapping()
        .no_table_borders();
    config.string_from_read(text.as_bytes(), usize::MAX).ok()
}

/// Markup with its character entities decoded, as the outside decoder
/// produces it; a function of the markup alone.
pub uninterp spec fn decoded_entities(s: Seq<char>) -> Seq<char>;

/// Relies on html_escape::decode_html_entities: the decoding depends on
/// the text alone.
#[verifier::external_body]
fn decode_entities(text: &str) -> (r: String)
    ensures
        r@ == decoded_entities(text@),
{
    html_escape::decode_html_entities(text).into_owned()
}

/// Text without its trailing line breaks.
pub open spec fn spec_trim_end_nl(s: Seq<char>) -> Seq<char>
    decreases s.len(),
{
    if s.len() > 0 && s.last() == '\n' {
        spec_trim_end_nl(s.drop_last())
    } else {
        s
    }
}

/// How many spaces a line starts with.
pub open spec fn spec_leading_spaces(s: Seq<char>) -> int
    decreases s.len(),
{
    if s.len() > 0 && s[0] == ' ' {
        1 + spec_leading_spaces(s.skip(1))
    } else {
        0
    }
}

/// A line with a starred bullet after its indent rewritten to a dash;
/// other lines are unchanged.
pub open spec fn spec_bullet_line(l: Seq<char>) -> Seq<char> {
    let ind = spec_leading_spaces(l);
    if ind + 1 < l.len() && l[ind] == '*' && (l[ind + 1] == ' ' || l[ind + 1] == '\t') {
        l.update(ind, '-')
    } else {
        l
    }
}

/// Lines with trailing empty ones removed.
pub open spec fn spec_drop_trailing_empties(ls: Seq<Seq<char>>) -> Seq<Seq<char>>
    decreases ls.len(),
{
    if ls.len() > 0 && ls.last().len() == 0 {
        spec_drop_trailing_empties(ls.drop_last())
    } else {
        ls
    }
}

/// Lines joined with single line breaks.
pub open spec fn spec_join_nl(ls: Seq<Seq<char>>) -> Seq<char>
    decreases ls.len(),
{
    if ls.len() == 0 {
        Seq::empty()
    } else if ls.len() == 1 {
        ls[0]
    } else {
        spec_join_nl(ls.drop_last()).push('\n') + ls.last()
    }
}

/// Rendered comment text after normalisation: trailing line breaks gone,
/// starred bullets rewritten to dashes, trailing empty lines dropped.
pub open spec fn spec_normalize(s: Seq<char>) -> Seq<char> {
    let t = spec_trim_end_nl(s);
    if t.len() == 0 {
        Seq::empty()
    } else {
        spec_join_nl(
            spec_drop_trailing_empties(
                spec_split_lines(t).map_values(|l: Seq<char>| spec_bullet_line(l)),
            ),
        )
    }
}

fn bullet_line(line: &Vec<char>) -> (r: Vec<char>)
    ensures
        r@ == spec_bullet_line(line@),
{
    let n = line.len();
    let mut ind: usize = 0;
    proof {
        assert(line@.skip(0) =~= line@);
    }
    while ind < n && line[ind] == ' '
        invariant
            ind <= n,
            n == line@.len(),
            spec_leading_spaces(line@) == ind + spec_leading_spaces(line@.skip(ind as int)),
        decreases n - ind,
    {
        proof {
            assert(line@.skip(ind as int)[0] == line@[ind as int]);
            assert(line@.skip(ind as int).skip(1) =~= line@.skip(ind + 1));
        }
        ind = ind + 1;
    }
    proof {
        if ind < n {
            assert(line@.skip(ind as int)[0] == line@[ind as int]);
        }
        assert(spec_leading_spaces(line@.skip(ind as int)) == 0);
        assert(spec_leading_spaces(line@) == ind);
    }
    let mut r: Vec<char> = Vec::new();
    let mut t: usize = 0;
    while t < n
        invariant
            t <= n,
            n == line@.len(),
            r@ == line@.take(t as int),
        decreases n - t,
    {
        r.push(line[t]);
        t = t + 1;
        proof {
            assert(r@ =~= line@.take(t as int));
        }
    }
    proof {
        assert(r@ =~= line@);
    }
    if n >= 2 && ind < n - 1 && r[ind] == '*' && (r[ind + 1] == ' ' || r[ind + 1] == '\t') {
        r.set(ind, '-');
        proof {
            assert(r@ =~= line@.update(ind as int, '-'));
        }
    }
    r
}

/// Tidies a rendered comment: drops trailing line breaks and empty tail
/// lines, and turns starred bullets into dashed ones.
pub fn normalize_rendered_comment(rendered: &str) -> (r: String)
    ensures
        r@ == spec_normalize(rendered@),
{
    let cs = chars_of(rendered);
    let n = cs.len();
    let mut end: usize = n;
    proof {
        assert(cs@.take(n as int) =~= cs@);
    }
    while end > 0 && cs[end - 1] == '\n'
        invariant
            end <= n,
            n == cs@.len(),
            spec_trim_end_nl(cs@) == spec_trim_end_nl(cs@.take(end as int)),
        decreases end,
    {
        proof {
            assert(cs@.take(end as int).last() == cs@[end - 1]);
            assert(cs@.take(end as int).drop_last() =~= cs@.take(end - 1));
        }
        end = end - 1;
    }
    proof {
        if end > 0 {
            assert(cs@.take(end as int).last() == cs@[end - 1]);
        }
        assert(spec_trim_end_nl(cs@.take(end as int)) == cs@.take(end as int));
    }
    if end == 0 {
        proof {
            assert(cs@.take(0) =~= Seq::<char>::empty());
        }
        return String::new();
    }
    let mut tv: Vec<char> = Vec::new();
    let mut t: usize = 0;
    while t < end
        invariant
            t <= end <= n,
            n == cs@.len(),
            tv@ == cs@.take(t as int),
        decreases end - t,
    {
        tv.push(cs[t]);
        t = t + 1;
        proof {
            assert(tv@ =~= cs@.take(t as int));
        }
    }
    proof {
        assert(tv@ =~= spec_trim_end_nl(rendered@));
    }
    let lines = split_lines(&tv);
    let ghost mapped_spec = spec_split_lines(tv@).map_values(|l: Seq<char>| spec_bullet_line(l));
    let mut mapped: Vec<Vec<char>> = Vec::new();
    let k = lines.len();
    let mut i: usize = 0;
    while i < k
        invariant
            i <= k,
            k == lines@.len(),
            lines.deep_view() == spec_split_lines(tv@),
            mapped_spec == spec_split_lines(tv@).map_values(|l: Seq<char>| spec_bullet_line(l)),
            mapped@.len() == i,
            forall|j: int| 0 <= j < i ==> #[trigger] mapped@[j]@ == mapped_spec[j],
        decreases k - i,
    {
        let b = bullet_line(&lines[i]);
        proof {
            assert(lines.deep_view()[i as int] == lines@[i as int]@);
            assert(mapped_spec[i as int] == spec_bullet_line(lines.deep_view()[i as int]));
        }
        mapped.push(b);
        i = i + 1;
    }
    proof {
        assert(mapped.deep_view() =~~= mapped_spec);
    }
    let mut m: usize = k;
    proof {
        assert(mapped.deep_view().take(k as int) =~~= mapped.deep_view());
    }
    while m > 0 && mapped[m - 1].len() == 0
        invariant
            m <= k,
            k == mapped@.len(),
            mapped.deep_view() == mapped_spec,
            spec_drop_trailing_empties(mapped_spec) == spec_drop_trailing_empties(
                mapped.deep_view().take(m as int),
            ),
        decreases m,
    {
        proof {
            assert(mapped.deep_view().take(m as int).last() == mapped.deep_view()[m - 1]);
            assert(mapped.deep_view().take(m as int).drop_last() =~~= mapped.deep_view().take(
                m - 1,
            ));
        }
        m = m - 1;
    }
    proof {
        if m > 0 {
            assert(mapped.deep_view().take(m as int).last() == mapped.deep_view()[m - 1]);
        }
        assert(spec_drop_trailing_empties(mapped.deep_view().take(m as int))
            == mapped.deep_view().take(m as int));
    }
    let ghost kept = mapped.deep_view().take(m as int);
    let mut acc: Vec<char> = Vec::new();
    let mut i: usize = 0;
    proof {
        assert(kept.take(0) =~~= Seq::<Seq<char>>::empty());
        assert(acc@ =~= spec_join_nl(kept.take(0)));
    }
    while i < m
        invariant
            i <= m <= k,
            k == mapped@.len(),
            mapped.deep_view() == mapped_spec,
            kept == mapped.deep_view().take(m as int),
            acc@ == spec_join_nl(kept.take(i as int)),
        decreases m - i,
    {
        if i > 0 {
            acc.push('\n');
        }
        let piece = &mapped[i];
        let mut t: usize = 0;
        let ghost acc0 = acc@;
        while t < piece.len()
            invariant
                t <= piece@.len(),
                acc@ == acc0 + piece@.take(t as int),
            decreases piece@.len() - t,
        {
            acc.push(piece[t]);
            t = t + 1;
            proof {
                assert(acc@ =~= acc0 + piece@.take(t as int));
            }
        }
        proof {
            assert(piece@.take(piece@.len() as int) =~= piece@);
            assert(kept[i as int] == mapped.deep_view()[i as int]);
            assert(kept.take(i + 1).drop_last() =~~= kept.take(i as int));
            assert(kept.take(i + 1).last() == kept[i as int]);
            if i == 0 {
                assert(acc@ =~= kept[0]);
                assert(spec_join_nl(kept.take(1)) == kept.take(1)[0]);
            } else {
                assert(spec_join_nl(kept.take(i + 1)) == spec_join_nl(kept.take(i as int)).push(
                    '\n',
                ) + kept[i as int]);
                assert(acc@ =~= spec_join_nl(kept.take(i as int)).push('\n') + kept[i as int]);
            }
        }
        i = i + 1;
    }
    proof {
        assert(kept.take(m as int) =~~= kept);
    }
    string_of(&acc)
}

/// Turns fetched comment markup into clean plain text: blank input yields
/// an empty string; otherwise the outside rendering is normalised, with
/// plain entity decoding taking the renderer's place when it refuses the
/// markup.
pub fn sanitize_comment(text: &str) -> (r: String)
    ensures
        spec_trim_ws(text@).len() == 0 ==> r@ == Seq::<char>::empty(),
        spec_trim_ws(text@).len() > 0 ==> r@ == spec_normalize(plain_rendering(text@)) || r@
            == spec_normalize(decoded_entities(text@)),
{
    let cs = chars_of(text);
    let trimmed = trim_ws(&cs);
    if trimmed.len() == 0 {
        return String::new();
    }
    let rendered: String = match render_plain(text) {
        Some(rendered) => rendered,
        None => decode_entities(text),
    };
    normalize_rendered_comment(rendered.as_str())
}

} // verus!
