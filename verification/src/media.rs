//! Media in issue Markdown: a paragraph that holds images, links to media
//! files or bare media URLs is cut into Markdown runs and media parts.

use vstd::prelude::*;
use crate::text::{from_chars, has_prefix, push_all, starts_with, to_chars, trim, trim_chars};

verus! {

/// A child of a Markdown paragraph, as the media parser sees it.
pub enum ParagraphChild {
    /// An image, a link or a bare URL that names a media file of the
    /// repository, shown under `label`.
    Media { label: String },
    /// Any other child, with its Markdown source when it has one.
    Text { source: Option<String> },
}

/// Mathematical value of a paragraph child.
pub enum ChildView {
    Media { label: Seq<char> },
    Text { source: Option<Seq<char>> },
}

impl View for ParagraphChild {
    type V = ChildView;

    open spec fn view(&self) -> ChildView {
        match self {
            ParagraphChild::Media { label } => ChildView::Media { label: label@ },
            ParagraphChild::Text { source } => ChildView::Text {
                source: match source {
                    Some(s) => Some(s@),
                    None => None,
                },
            },
        }
    }
}

/// A piece of a media paragraph: Markdown source, or the media of child
/// number `child`.
pub enum Part {
    Markdown(String),
    Media { child: usize, label: String },
}

/// Mathematical value of a part.
pub enum PartView {
    Markdown(Seq<char>),
    Media { child: int, label: Seq<char> },
}

impl View for Part {
    type V = PartView;

    open spec fn view(&self) -> PartView {
        match self {
            Part::Markdown(s) => PartView::Markdown(s@),
            Part::Media { child, label } => PartView::Media { child: *child as int, label: label@ },
        }
    }
}

/// Where the cut stands after some children: the parts so far, the Markdown
/// collected since the last media, and whether a media was met.
pub struct SplitState {
    pub parts: Seq<PartView>,
    pub text: Seq<char>,
    pub found: bool,
}

/// Text that is more than white space.
pub open spec fn has_content(s: Seq<char>) -> bool {
    trim(s).len() > 0
}

/// The state of the cut after the children `children`.
pub open spec fn split_state(children: Seq<ChildView>) -> SplitState
    decreases children.len(),
{
    if children.len() == 0 {
        SplitState { parts: Seq::empty(), text: Seq::empty(), found: false }
    } else {
        let st = split_state(children.drop_last());
        match children.last() {
            ChildView::Media { label } => SplitState {
                parts: (if has_content(st.text) {
                    st.parts.push(PartView::Markdown(st.text))
                } else {
                    st.parts
                }).push(PartView::Media { child: children.len() - 1, label }),
                text: Seq::empty(),
                found: true,
            },
            ChildView::Text { source: Some(src) } => SplitState { text: st.text + src, ..st },
            ChildView::Text { source: None } => st,
        }
    }
}

/// The parts of a paragraph: none when it names no media; else the media
/// in order, with the Markdown between them that is more than white space.
pub open spec fn media_parts(children: Seq<ChildView>) -> Option<Seq<PartView>> {
    let st = split_state(children);
    if !st.found {
        None
    } else if has_content(st.text) {
        Some(st.parts.push(PartView::Markdown(st.text)))
    } else {
        Some(st.parts)
    }
}

/// The values of a list of parts.
pub open spec fn parts_view(parts: Seq<Part>) -> Seq<PartView> {
    parts.map_values(|p: Part| p@)
}

/// Cuts a paragraph into Markdown runs and media parts; `None` when the
/// paragraph names no media.
pub fn split_media_paragraph(children: &[ParagraphChild]) -> (r: Option<Vec<Part>>)
    ensures
        match r {
            Some(parts) => media_parts(children@.map_values(|c: ParagraphChild| c@)) == Some(
                parts_view(parts@),
            ),
            None => media_parts(children@.map_values(|c: ParagraphChild| c@)) is None,
        },
{
    let ghost cv = children@.map_values(|c: ParagraphChild| c@);
    let mut parts: Vec<Part> = Vec::new();
    let mut text: Vec<char> = Vec::new();
    let mut found = false;
    let mut i: usize = 0;
    assert(cv.take(0) =~= Seq::<ChildView>::empty());
    assert(parts_view(parts@) =~= Seq::<PartView>::empty());
    while i < children.len()
        invariant
            i <= children@.len(),
            cv == children@.map_values(|c: ParagraphChild| c@),
            split_state(cv.take(i as int)) == (SplitState {
                parts: parts_view(parts@),
                text: text@,
                found,
            }),
        decreases children.len() - i,
    {
        assert(cv.take(i + 1).drop_last() =~= cv.take(i as int));
        assert(cv.take(i + 1).last() == children@[i as int]@);
        match &children[i] {
            ParagraphChild::Media { label } => {
                if trim_chars(text.as_slice()).len() > 0 {
                    let ghost before = parts_view(parts@);
                    let run = Part::Markdown(from_chars(text.as_slice()));
                    parts.push(run);
                    assert(parts_view(parts@) =~= before.push(PartView::Markdown(text@)));
                }
                let ghost before = parts_view(parts@);
                parts.push(Part::Media { child: i, label: label.clone() });
                assert(parts_view(parts@) =~= before.push(
                    PartView::Media { child: i as int, label: label@ },
                ));
                text = Vec::new();
                found = true;
            },
            ParagraphChild::Text { source: Some(src) } => {
                push_all(&mut text, to_chars(src.as_str()).as_slice());
            },
            ParagraphChild::Text { source: None } => {},
        }
        i = i + 1;
    }
    assert(cv.take(i as int) =~= cv);
    if !found {
        return None;
    }
    if trim_chars(text.as_slice()).len() > 0 {
        let ghost before = parts_view(parts@);
        parts.push(Part::Markdown(from_chars(text.as_slice())));
        assert(parts_view(parts@) =~= before.push(PartView::Markdown(text@)));
    }
    Some(parts)
}

/// A text child is a bare media URL when, without its surrounding white
/// space, it starts with `https://` or `http://`; the URL is that trimmed text.
pub open spec fn bare_url_of(text: Seq<char>) -> Option<Seq<char>> {
    let t = trim(text);
    if has_prefix(t, "https://"@) || has_prefix(t, "http://"@) {
        Some(t)
    } else {
        None
    }
}

/// The URL that a text child holds on its own, if it is one.
pub fn bare_url(text: &str) -> (r: Option<String>)
    ensures
        match r {
            Some(u) => bare_url_of(text@) == Some(u@),
            None => bare_url_of(text@) is None,
        },
{
    let t = trim_chars(to_chars(text).as_slice());
    if starts_with(t.as_slice(), to_chars("https://").as_slice()) || starts_with(
        t.as_slice(),
        to_chars("http://").as_slice(),
    ) {
        Some(from_chars(t.as_slice()))
    } else {
        None
    }
}

/// The label of a link: the text of its children, one after the other.
pub fn link_label(children: &[String]) -> (r: String)
    ensures
        r@ == children@.map_values(|c: String| c@).fold_left(Seq::<char>::empty(), |acc: Seq<char>, c: Seq<char>| acc + c),
{
    let ghost cv = children@.map_values(|c: String| c@);
    let mut out: Vec<char> = Vec::new();
    let mut i: usize = 0;
    assert(cv.take(0) =~= Seq::<Seq<char>>::empty());
    while i < children.len()
        invariant
            i <= children@.len(),
            cv == children@.map_values(|c: String| c@),
            out@ == cv.take(i as int).fold_left(Seq::<char>::empty(), |acc: Seq<char>, c: Seq<char>| acc + c),
        decreases children.len() - i,
    {
        assert(cv.take(i + 1).drop_last() =~= cv.take(i as int));
        push_all(&mut out, to_chars(children[i].as_str()).as_slice());
        i = i + 1;
    }
    assert(cv.take(i as int) =~= cv);
    from_chars(out.as_slice())
}


/// Whether child `k` of `cs` names a media.
pub open spec fn is_media(cs: Seq<ChildView>, k: int) -> bool {
    cs[k] is Media
}

/// A paragraph is cut exactly when one of its children names a media, and
/// no Markdown run of the cut is only white space.
pub proof fn lemma_media_parts_found(cs: Seq<ChildView>)
    ensures
        media_parts(cs) is Some <==> exists|k: int| 0 <= k < cs.len() && #[trigger] is_media(cs, k),
        media_parts(cs) matches Some(ps) ==> forall|j: int|
            0 <= j < ps.len() && (#[trigger] ps[j]) is Markdown ==> has_content(ps[j]->Markdown_0),
{
    lemma_split_state(cs);
}

proof fn lemma_split_state(cs: Seq<ChildView>)
    ensures
        split_state(cs).found <==> exists|k: int| 0 <= k < cs.len() && #[trigger] is_media(cs, k),
        forall|j: int|
            0 <= j < split_state(cs).parts.len() && (#[trigger] split_state(cs).parts[j]) is Markdown
                ==> has_content(split_state(cs).parts[j]->Markdown_0),
    decreases cs.len(),
{
    if cs.len() > 0 {
        let init = cs.drop_last();
        lemma_split_state(init);
        assert forall|k: int| 0 <= k < init.len() implies is_media(init, k) == is_media(cs, k) by {
            assert(init[k] == cs[k]);
        }
        if split_state(init).found {
            let k = choose|k: int| 0 <= k < init.len() && #[trigger] is_media(init, k);
            assert(is_media(cs, k));
        }
        if cs.last() is Media {
            assert(is_media(cs, cs.len() - 1));
        } else if exists|k: int| 0 <= k < cs.len() && #[trigger] is_media(cs, k) {
            let k = choose|k: int| 0 <= k < cs.len() && #[trigger] is_media(cs, k);
            assert(k < cs.len() - 1);
            assert(is_media(init, k));
        }
    }
}

/// The text between the media of a paragraph: the sources of its text
/// children, one run before the first media, one after each media.
pub open spec fn text_runs(cs: Seq<ChildView>) -> Seq<Seq<char>>
    decreases cs.len(),
{
    if cs.len() == 0 {
        seq![Seq::empty()]
    } else {
        let runs = text_runs(cs.drop_last());
        match cs.last() {
            ChildView::Media { .. } => runs.push(Seq::empty()),
            ChildView::Text { source: Some(src) } => runs.update(
                runs.len() - 1,
                runs.last() + src,
            ),
            ChildView::Text { source: None } => runs,
        }
    }
}

/// The sources of all text children of a paragraph, one after the other.
pub open spec fn all_text(cs: Seq<ChildView>) -> Seq<char>
    decreases cs.len(),
{
    if cs.len() == 0 {
        Seq::empty()
    } else {
        all_text(cs.drop_last()) + match cs.last() {
            ChildView::Text { source: Some(src) } => src,
            _ => Seq::empty(),
        }
    }
}

/// The texts of `ss`, one after the other.
pub open spec fn concat(ss: Seq<Seq<char>>) -> Seq<char>
    decreases ss.len(),
{
    if ss.len() == 0 {
        Seq::empty()
    } else {
        concat(ss.drop_last()) + ss.last()
    }
}

/// The Markdown runs among `ps`, in order.
pub open spec fn markdown_runs(ps: Seq<PartView>) -> Seq<Seq<char>>
    decreases ps.len(),
{
    if ps.len() == 0 {
        Seq::empty()
    } else {
        match ps.last() {
            PartView::Markdown(t) => markdown_runs(ps.drop_last()).push(t),
            _ => markdown_runs(ps.drop_last()),
        }
    }
}

/// The media labels among `ps`, in order.
pub open spec fn media_labels(ps: Seq<PartView>) -> Seq<Seq<char>>
    decreases ps.len(),
{
    if ps.len() == 0 {
        Seq::empty()
    } else {
        match ps.last() {
            PartView::Media { label, .. } => media_labels(ps.drop_last()).push(label),
            _ => media_labels(ps.drop_last()),
        }
    }
}

/// The labels of the media children, in order.
pub open spec fn child_media_labels(cs: Seq<ChildView>) -> Seq<Seq<char>>
    decreases cs.len(),
{
    if cs.len() == 0 {
        Seq::empty()
    } else {
        match cs.last() {
            ChildView::Media { label } => child_media_labels(cs.drop_last()).push(label),
            _ => child_media_labels(cs.drop_last()),
        }
    }
}

/// The runs among `ss` that are more than white space, in order.
pub open spec fn runs_with_content(ss: Seq<Seq<char>>) -> Seq<Seq<char>> {
    ss.filter(|t: Seq<char>| has_content(t))
}

proof fn lemma_runs_with_content_push(ss: Seq<Seq<char>>, x: Seq<char>)
    ensures
        runs_with_content(ss.push(x)) == if has_content(x) {
            runs_with_content(ss).push(x)
        } else {
            runs_with_content(ss)
        },
{
    reveal(Seq::filter);
    assert(ss.push(x).drop_last() =~= ss);
    assert(ss.push(x).last() == x);
}

/// No source text is lost when a paragraph is cut: the text runs between
/// its media, put back together, are all of its text; the Markdown parts of
/// the cut are exactly those runs that are more than white space, in order;
/// and the media parts are the paragraph's media, in order.
pub proof fn lemma_media_parts_keep_text(cs: Seq<ChildView>)
    ensures
        concat(text_runs(cs)) == all_text(cs),
        media_parts(cs) matches Some(ps) ==> markdown_runs(ps) == runs_with_content(text_runs(cs))
            && media_labels(ps) == child_media_labels(cs),
{
    lemma_runs_concat(cs);
    lemma_split_runs(cs);
    let st = split_state(cs);
    let runs = text_runs(cs);
    assert(runs.drop_last().push(runs.last()) =~= runs);
    lemma_runs_with_content_push(runs.drop_last(), runs.last());
    if st.found && has_content(st.text) {
        let ps = st.parts.push(PartView::Markdown(st.text));
        assert(ps.drop_last() =~= st.parts);
        assert(ps.last() == PartView::Markdown(st.text));
    }
}

proof fn lemma_runs_concat(cs: Seq<ChildView>)
    ensures
        text_runs(cs).len() >= 1,
        concat(text_runs(cs)) == all_text(cs),
    decreases cs.len(),
{
    if cs.len() == 0 {
        let r = text_runs(cs);
        assert(r == seq![Seq::<char>::empty()]);
        assert(r.drop_last() =~= Seq::<Seq<char>>::empty());
        assert(concat(r.drop_last()) == Seq::<char>::empty());
        assert(r.last() == Seq::<char>::empty());
        assert(concat(r) == concat(r.drop_last()) + r.last());
        assert(concat(r) =~= Seq::<char>::empty());
    } else {
        let init = cs.drop_last();
        lemma_runs_concat(init);
        let runs = text_runs(init);
        match cs.last() {
            ChildView::Media { label } => {
                let r = runs.push(Seq::<char>::empty());
                assert(text_runs(cs) == r);
                assert(r.drop_last() =~= runs);
                assert(all_text(cs) =~= all_text(init));
                assert(concat(r) =~= concat(runs));
            },
            ChildView::Text { source: Some(src) } => {
                let up = runs.update(runs.len() - 1, runs.last() + src);
                assert(text_runs(cs) == up);
                assert(up.drop_last() =~= runs.drop_last());
                assert(up.last() == runs.last() + src);
                assert(concat(runs) == concat(runs.drop_last()) + runs.last());
                assert(all_text(cs) == all_text(init) + src);
                assert(concat(up) =~= concat(runs) + src);
            },
            ChildView::Text { source: None } => {
                assert(text_runs(cs) == runs);
                assert(all_text(cs) =~= all_text(init));
            },
        }
    }
}

proof fn lemma_split_runs(cs: Seq<ChildView>)
    ensures
        text_runs(cs).len() >= 1,
        split_state(cs).text == text_runs(cs).last(),
        markdown_runs(split_state(cs).parts) == runs_with_content(text_runs(cs).drop_last()),
        media_labels(split_state(cs).parts) == child_media_labels(cs),
    decreases cs.len(),
{
    if cs.len() == 0 {
        reveal(Seq::filter);
        assert(text_runs(cs).drop_last() =~= Seq::<Seq<char>>::empty());
    } else {
        let init = cs.drop_last();
        lemma_split_runs(init);
        let st = split_state(init);
        let runs = text_runs(init);
        match cs.last() {
            ChildView::Media { label } => {
                let mid = if has_content(st.text) {
                    st.parts.push(PartView::Markdown(st.text))
                } else {
                    st.parts
                };
                let ps = mid.push(PartView::Media { child: cs.len() - 1, label });
                assert(split_state(cs).parts == ps);
                assert(ps.drop_last() =~= mid);
                assert(markdown_runs(ps) == markdown_runs(mid));
                assert(media_labels(ps) == media_labels(mid).push(label));
                if has_content(st.text) {
                    assert(mid.drop_last() =~= st.parts);
                    assert(markdown_runs(mid) == markdown_runs(st.parts).push(st.text));
                    assert(media_labels(mid) == media_labels(st.parts));
                }
                let r = runs.push(Seq::<char>::empty());
                assert(text_runs(cs) == r);
                assert(r.drop_last() =~= runs);
                assert(runs.drop_last().push(runs.last()) =~= runs);
                lemma_runs_with_content_push(runs.drop_last(), runs.last());
                assert(child_media_labels(cs) == child_media_labels(init).push(label));
            },
            ChildView::Text { source: Some(src) } => {
                let up = runs.update(runs.len() - 1, runs.last() + src);
                assert(text_runs(cs) == up);
                assert(up.drop_last() =~= runs.drop_last());
                assert(split_state(cs).parts == st.parts);
                assert(child_media_labels(cs) == child_media_labels(init));
            },
            ChildView::Text { source: None } => {
                assert(text_runs(cs) == runs);
                assert(split_state(cs) == st);
                assert(child_media_labels(cs) == child_media_labels(init));
            },
        }
    }
}

/// Each media part of a cut names the child it stands for: that child is a
/// media with the same label.
pub proof fn lemma_media_parts_name_their_child(cs: Seq<ChildView>)
    ensures
        media_parts(cs) matches Some(ps) ==> forall|j: int|
            0 <= j < ps.len() && (#[trigger] ps[j]) is Media ==> {
                let k = ps[j]->Media_child;
                0 <= k < cs.len() && cs[k] == ChildView::Media { label: ps[j]->Media_label }
            },
{
    lemma_split_children(cs);
    let st = split_state(cs);
    if st.found && has_content(st.text) {
        let ps = st.parts.push(PartView::Markdown(st.text));
        assert forall|j: int| 0 <= j < ps.len() && (#[trigger] ps[j]) is Media implies {
            let k = ps[j]->Media_child;
            0 <= k < cs.len() && cs[k] == ChildView::Media { label: ps[j]->Media_label }
        } by {
            assert(ps[j] == st.parts[j]);
        }
    }
}

proof fn lemma_split_children(cs: Seq<ChildView>)
    ensures
        forall|j: int|
            0 <= j < split_state(cs).parts.len() && (#[trigger] split_state(cs).parts[j]) is Media ==> {
                let k = split_state(cs).parts[j]->Media_child;
                0 <= k < cs.len() && cs[k] == ChildView::Media {
                    label: split_state(cs).parts[j]->Media_label,
                }
            },
    decreases cs.len(),
{
    if cs.len() > 0 {
        let init = cs.drop_last();
        lemma_split_children(init);
        let st = split_state(init);
        let ps = split_state(cs).parts;
        assert forall|j: int| 0 <= j < ps.len() && (#[trigger] ps[j]) is Media implies {
            let k = ps[j]->Media_child;
            0 <= k < cs.len() && cs[k] == ChildView::Media { label: ps[j]->Media_label }
        } by {
            match cs.last() {
                ChildView::Media { label } => {
                    let mid = if has_content(st.text) {
                        st.parts.push(PartView::Markdown(st.text))
                    } else {
                        st.parts
                    };
                    assert(ps == mid.push(PartView::Media { child: cs.len() - 1, label }));
                    if j < st.parts.len() {
                        assert(ps[j] == st.parts[j]);
                        let k = ps[j]->Media_child;
                        assert(cs[k] == init[k]);
                    } else if j < mid.len() {
                        assert(ps[j] == mid[j]);
                    } else {
                        assert(cs[cs.len() - 1] == cs.last());
                    }
                },
                _ => {
                    assert(ps == st.parts);
                    let k = ps[j]->Media_child;
                    assert(cs[k] == init[k]);
                },
            }
        }
    }
}

} // verus!
