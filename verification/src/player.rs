//! The embedded media player page.

use vstd::prelude::*;
use crate::i18n::{language_tag, translation, Language, Text};
use crate::text::{ascii_lower, chars_eq, from_chars, has_prefix, push_all, to_chars};

verus! {

/// The kind of an attached media file.
#[derive(Clone, Copy, Debug, PartialEq, Eq, Structural)]
pub enum MediaKind {
    Image,
    Video,
    Audio,
}

/// The HTML escape of one character.
pub open spec fn escape_char(c: char) -> Seq<char> {
    if c == '&' {
        "&amp;"@
    } else if c == '<' {
        "&lt;"@
    } else if c == '>' {
        "&gt;"@
    } else if c == '"' {
        "&quot;"@
    } else if c == '\'' {
        "&#39;"@
    } else {
        seq![c]
    }
}

/// `s` with `&`, `<`, `>`, `"` and `'` replaced by their HTML entities.
pub open spec fn escaped(s: Seq<char>) -> Seq<char>
    decreases s.len(),
{
    if s.len() == 0 {
        Seq::empty()
    } else {
        escaped(s.drop_last()) + escape_char(s.last())
    }
}

/// A character that HTML markup or attribute quoting would interpret.
pub open spec fn is_markup_char(c: char) -> bool {
    c == '<' || c == '>' || c == '"' || c == '\''
}

proof fn lemma_escape_char_plain(c: char)
    ensures
        forall|i: int| 0 <= i < escape_char(c).len() ==> !is_markup_char(#[trigger] escape_char(c)[i]),
{
    reveal_strlit("&amp;");
    reveal_strlit("&lt;");
    reveal_strlit("&gt;");
    reveal_strlit("&quot;");
    reveal_strlit("&#39;");
}

/// HTML text that uses the five entities of `escaped`, decoded from left to
/// right: `&amp;`, `&lt;`, `&gt;`, `&quot;` and `&#39;` stand for their
/// characters; every other character stands for itself.
pub open spec fn unescaped(s: Seq<char>) -> Seq<char>
    decreases s.len(),
{
    if s.len() == 0 {
        Seq::empty()
    } else if has_prefix(s, seq!['&', 'a', 'm', 'p', ';']) {
        seq!['&'] + unescaped(s.skip(5))
    } else if has_prefix(s, seq!['&', 'l', 't', ';']) {
        seq!['<'] + unescaped(s.skip(4))
    } else if has_prefix(s, seq!['&', 'g', 't', ';']) {
        seq!['>'] + unescaped(s.skip(4))
    } else if has_prefix(s, seq!['&', 'q', 'u', 'o', 't', ';']) {
        seq!['"'] + unescaped(s.skip(6))
    } else if has_prefix(s, seq!['&', '#', '3', '9', ';']) {
        seq!['\''] + unescaped(s.skip(5))
    } else {
        seq![s[0]] + unescaped(s.drop_first())
    }
}

proof fn lemma_escaped_concat(a: Seq<char>, b: Seq<char>)
    ensures
        escaped(a + b) == escaped(a) + escaped(b),
    decreases b.len(),
{
    if b.len() == 0 {
        assert(a + b =~= a);
        assert(escaped(a) + escaped(b) =~= escaped(a));
    } else {
        lemma_escaped_concat(a, b.drop_last());
        assert((a + b).drop_last() =~= a + b.drop_last());
        assert(escaped(a) + escaped(b) =~= escaped(a) + escaped(b.drop_last()) + escape_char(
            b.last(),
        ));
    }
}

proof fn lemma_not_prefix_at(x: Seq<char>, p: Seq<char>, k: int)
    requires
        0 <= k < p.len(),
        k < x.len(),
        x[k] != p[k],
    ensures
        !has_prefix(x, p),
{
    if has_prefix(x, p) {
        assert(x.subrange(0, p.len() as int)[k] == x[k]);
    }
}

proof fn lemma_prefix_of(e: Seq<char>, rest: Seq<char>)
    ensures
        has_prefix(e + rest, e),
        (e + rest).skip(e.len() as int) == rest,
{
    assert((e + rest).subrange(0, e.len() as int) =~= e);
    assert((e + rest).skip(e.len() as int) =~= rest);
}

proof fn lemma_unescape_step(c: char, rest: Seq<char>)
    ensures
        unescaped(escape_char(c) + rest) == seq![c] + unescaped(rest),
{
    reveal_strlit("&amp;");
    reveal_strlit("&lt;");
    reveal_strlit("&gt;");
    reveal_strlit("&quot;");
    reveal_strlit("&#39;");
    let amp = seq!['&', 'a', 'm', 'p', ';'];
    let lt = seq!['&', 'l', 't', ';'];
    let gt = seq!['&', 'g', 't', ';'];
    let quot = seq!['&', 'q', 'u', 'o', 't', ';'];
    let apos = seq!['&', '#', '3', '9', ';'];
    let e = escape_char(c);
    let x = e + rest;
    lemma_prefix_of(e, rest);
    if c == '&' {
        assert(e =~= amp);
    } else if c == '<' {
        assert(e =~= lt);
        lemma_not_prefix_at(x, amp, 1);
    } else if c == '>' {
        assert(e =~= gt);
        lemma_not_prefix_at(x, amp, 1);
        lemma_not_prefix_at(x, lt, 1);
    } else if c == '"' {
        assert(e =~= quot);
        lemma_not_prefix_at(x, amp, 1);
        lemma_not_prefix_at(x, lt, 1);
        lemma_not_prefix_at(x, gt, 1);
    } else if c == '\'' {
        assert(e =~= apos);
        lemma_not_prefix_at(x, amp, 1);
        lemma_not_prefix_at(x, lt, 1);
        lemma_not_prefix_at(x, gt, 1);
        lemma_not_prefix_at(x, quot, 1);
    } else {
        assert(e =~= seq![c]);
        assert(x[0] == c);
        lemma_not_prefix_at(x, amp, 0);
        lemma_not_prefix_at(x, lt, 0);
        lemma_not_prefix_at(x, gt, 0);
        lemma_not_prefix_at(x, quot, 0);
        lemma_not_prefix_at(x, apos, 0);
        assert(x.drop_first() =~= rest);
    }
}

/// An entity of `escaped` starts at position `i` of `s`.
pub open spec fn entity_at(s: Seq<char>, i: int) -> bool {
    let t = s.skip(i);
    has_prefix(t, seq!['&', 'a', 'm', 'p', ';']) || has_prefix(t, seq!['&', 'l', 't', ';'])
        || has_prefix(t, seq!['&', 'g', 't', ';']) || has_prefix(t, seq!['&', 'q', 'u', 'o', 't', ';'])
        || has_prefix(t, seq!['&', '#', '3', '9', ';'])
}

proof fn lemma_prefix_extends(t: Seq<char>, u: Seq<char>, p: Seq<char>)
    requires
        has_prefix(t, p),
    ensures
        has_prefix(t + u, p),
{
    assert((t + u).subrange(0, p.len() as int) =~= t.subrange(0, p.len() as int));
}

/// Every `&` of an escaped text begins one of the five entities.
pub proof fn lemma_escaped_ampersands(v: Seq<char>)
    ensures
        forall|i: int| 0 <= i < escaped(v).len() && #[trigger] escaped(v)[i] == '&' ==> entity_at(escaped(v), i),
    decreases v.len(),
{
    reveal_strlit("&amp;");
    reveal_strlit("&lt;");
    reveal_strlit("&gt;");
    reveal_strlit("&quot;");
    reveal_strlit("&#39;");
    if v.len() > 0 {
        let front = escaped(v.drop_last());
        let e = escape_char(v.last());
        lemma_escaped_ampersands(v.drop_last());
        let w = escaped(v);
        assert(w == front + e);
        assert forall|i: int| 0 <= i < w.len() && #[trigger] w[i] == '&' implies entity_at(w, i) by {
            if i < front.len() {
                assert(front[i] == '&');
                assert(entity_at(front, i));
                assert(w.skip(i) =~= front.skip(i) + e);
                let t = front.skip(i);
                if has_prefix(t, seq!['&', 'a', 'm', 'p', ';']) {
                    lemma_prefix_extends(t, e, seq!['&', 'a', 'm', 'p', ';']);
                } else if has_prefix(t, seq!['&', 'l', 't', ';']) {
                    lemma_prefix_extends(t, e, seq!['&', 'l', 't', ';']);
                } else if has_prefix(t, seq!['&', 'g', 't', ';']) {
                    lemma_prefix_extends(t, e, seq!['&', 'g', 't', ';']);
                } else if has_prefix(t, seq!['&', 'q', 'u', 'o', 't', ';']) {
                    lemma_prefix_extends(t, e, seq!['&', 'q', 'u', 'o', 't', ';']);
                } else {
                    lemma_prefix_extends(t, e, seq!['&', '#', '3', '9', ';']);
                }
            } else {
                let k = i - front.len();
                assert(e[k] == '&');
                assert(w.skip(i) =~= e.skip(k));
                assert(k == 0);
                assert(e.skip(0) =~= e);
                assert(e.subrange(0, e.len() as int) =~= e);
                let c = v.last();
                if c == '&' {
                    assert(e =~= seq!['&', 'a', 'm', 'p', ';']);
                } else if c == '<' {
                    assert(e =~= seq!['&', 'l', 't', ';']);
                } else if c == '>' {
                    assert(e =~= seq!['&', 'g', 't', ';']);
                } else if c == '"' {
                    assert(e =~= seq!['&', 'q', 'u', 'o', 't', ';']);
                } else if c == '\'' {
                    assert(e =~= seq!['&', '#', '3', '9', ';']);
                } else {
                    assert(e =~= seq![c]);
                }
            }
        }
    }
}

/// Escaping loses nothing: decoding the entities of an escaped text gives
/// the text back (for example `it's` escapes to `it&#39;s` and `&lt;` to
/// `&amp;lt;`, and both decode to where they came from).
pub proof fn lemma_escape_round_trip(v: Seq<char>)
    ensures
        unescaped(escaped(v)) == v,
    decreases v.len(),
{
    if v.len() > 0 {
        let rest = v.drop_first();
        lemma_escaped_concat(seq![v[0]], rest);
        assert(seq![v[0]] + rest =~= v);
        assert(seq![v[0]].drop_last() =~= Seq::<char>::empty());
        assert(escaped(seq![v[0]]) == escaped(Seq::<char>::empty()) + escape_char(v[0]));
        assert(escaped(seq![v[0]]) =~= escape_char(v[0]));
        lemma_unescape_step(v[0], escaped(rest));
        lemma_escape_round_trip(rest);
        assert(seq![v[0]] + rest =~= v);
    }
}

/// `s` with every occurrence of `p` replaced by `r`, scanning from the left
/// (what `str::replace` does).
pub open spec fn replace_all(s: Seq<char>, p: Seq<char>, r: Seq<char>) -> Seq<char>
    decreases s.len(),
{
    if s.len() == 0 {
        Seq::empty()
    } else if p.len() > 0 && has_prefix(s, p) {
        r + replace_all(s.skip(p.len() as int), p, r)
    } else {
        seq![s[0]] + replace_all(s.drop_first(), p, r)
    }
}

/// The entity of `escaped` for `c`: `&amp;`, `&lt;`, `&gt;`, `&quot;` or
/// `&#39;`.
pub open spec fn entity(c: char) -> Seq<char> {
    if c == '&' {
        seq!['&', 'a', 'm', 'p', ';']
    } else if c == '<' {
        seq!['&', 'l', 't', ';']
    } else if c == '>' {
        seq!['&', 'g', 't', ';']
    } else if c == '"' {
        seq!['&', 'q', 'u', 'o', 't', ';']
    } else {
        seq!['&', '#', '3', '9', ';']
    }
}

/// The character that the undoing of stage `n` brings back: `&`, `<`,
/// `>`, `"`, `'` for stages 0 to 4.
spec fn stage_target(n: int) -> char {
    if n == 0 {
        '&'
    } else if n == 1 {
        '<'
    } else if n == 2 {
        '>'
    } else if n == 3 {
        '"'
    } else {
        '\''
    }
}

/// `c` escaped as far as stage `n`: stage 4 escapes all five characters,
/// each stage below leaves one more as it is, and stage -1 escapes none.
spec fn stage_char(c: char, n: int) -> Seq<char> {
    if (c == '&' && n >= 0) || (c == '<' && n >= 1) || (c == '>' && n >= 2) || (c == '"' && n
        >= 3) || (c == '\'' && n >= 4) {
        entity(c)
    } else {
        seq![c]
    }
}

spec fn staged(v: Seq<char>, n: int) -> Seq<char>
    decreases v.len(),
{
    if v.len() == 0 {
        Seq::empty()
    } else {
        stage_char(v[0], n) + staged(v.drop_first(), n)
    }
}

proof fn lemma_staged_full(v: Seq<char>)
    ensures
        staged(v, 4) == escaped(v),
        staged(v, -1) == v,
    decreases v.len(),
{
    reveal_strlit("&amp;");
    reveal_strlit("&lt;");
    reveal_strlit("&gt;");
    reveal_strlit("&quot;");
    reveal_strlit("&#39;");
    if v.len() > 0 {
        let rest = v.drop_first();
        lemma_staged_full(rest);
        lemma_escaped_concat(seq![v[0]], rest);
        assert(seq![v[0]] + rest =~= v);
        assert(seq![v[0]].drop_last() =~= Seq::<char>::empty());
        assert(escaped(seq![v[0]]) == escaped(Seq::<char>::empty()) + escape_char(v[0]));
        assert(escaped(seq![v[0]]) =~= escape_char(v[0]));
        assert(stage_char(v[0], 4) =~= escape_char(v[0]));
    } else {
        assert(v =~= Seq::<char>::empty());
    }
}

proof fn lemma_replace_passes(e: Seq<char>, rest: Seq<char>, p: Seq<char>, r: Seq<char>)
    requires
        p.len() >= 2,
        p[0] == '&',
        forall|i: int| 0 < i < e.len() ==> e[i] != '&',
        e.len() > 0 ==> (e[0] != '&' || (e.len() >= 2 && e[1] != p[1])),
    ensures
        replace_all(e + rest, p, r) == e + replace_all(rest, p, r),
    decreases e.len(),
{
    let x = e + rest;
    if e.len() == 0 {
        assert(x =~= rest);
        assert(e + replace_all(rest, p, r) =~= replace_all(rest, p, r));
    } else {
        if e[0] != '&' {
            lemma_not_prefix_at(x, p, 0);
        } else {
            lemma_not_prefix_at(x, p, 1);
        }
        let e2 = e.drop_first();
        assert(x.drop_first() =~= e2 + rest);
        lemma_replace_passes(e2, rest, p, r);
        assert(e + replace_all(rest, p, r) =~= seq![e[0]] + (e2 + replace_all(rest, p, r)));
    }
}

proof fn lemma_undo_stage(v: Seq<char>, n: int)
    requires
        0 <= n <= 4,
    ensures
        replace_all(staged(v, n), entity(stage_target(n)), seq![stage_target(n)]) == staged(v, n - 1),
    decreases v.len(),
{
    let p = entity(stage_target(n));
    let r = seq![stage_target(n)];
    if v.len() == 0 {
    } else {
        let c = v[0];
        let rest = v.drop_first();
        let e = stage_char(c, n);
        lemma_undo_stage(rest, n);
        if c == stage_target(n) {
            lemma_prefix_of(e, staged(rest, n));
            assert(e == p);
            assert(stage_char(c, n - 1) == r);
        } else {
            assert(e == stage_char(c, n - 1));
            lemma_replace_passes(e, staged(rest, n), p, r);
        }
    }
}

/// Undoing the escape by plain replacements gives the text back: replacing
/// `&#39;`, `&quot;`, `&gt;`, `&lt;` by `'`, `"`, `>`, `<`, and `&amp;` by
/// `&` last, turns `escaped(v)` into `v`.
pub proof fn lemma_escape_undone_by_replacements(v: Seq<char>)
    ensures
        replace_all(
            replace_all(
                replace_all(
                    replace_all(replace_all(escaped(v), entity('\''), seq!['\'']), entity('"'), seq!['"']),
                    entity('>'),
                    seq!['>'],
                ),
                entity('<'),
                seq!['<'],
            ),
            entity('&'),
            seq!['&'],
        ) == v,
{
    lemma_staged_full(v);
    lemma_undo_stage(v, 4);
    lemma_undo_stage(v, 3);
    lemma_undo_stage(v, 2);
    lemma_undo_stage(v, 1);
    lemma_undo_stage(v, 0);
}

/// Escapes text for use inside HTML, attribute values included. The result
/// holds no `<`, `>`, `"` or `'`.
pub fn escape_html(value: &str) -> (r: String)
    ensures
        r@ == escaped(value@),
        forall|i: int| 0 <= i < r@.len() ==> !is_markup_char(#[trigger] r@[i]),
{
    let v = to_chars(value);
    let mut out: Vec<char> = Vec::new();
    let mut i: usize = 0;
    while i < v.len()
        invariant
            i <= v@.len(),
            out@ == escaped(v@.take(i as int)),
            forall|k: int| 0 <= k < out@.len() ==> !is_markup_char(#[trigger] out@[k]),
        decreases v.len() - i,
    {
        let c = v[i];
        let ghost before = out@;
        if c == '&' {
            push_all(&mut out, to_chars("&amp;").as_slice());
        } else if c == '<' {
            push_all(&mut out, to_chars("&lt;").as_slice());
        } else if c == '>' {
            push_all(&mut out, to_chars("&gt;").as_slice());
        } else if c == '"' {
            push_all(&mut out, to_chars("&quot;").as_slice());
        } else if c == '\'' {
            push_all(&mut out, to_chars("&#39;").as_slice());
        } else {
            out.push(c);
        }
        proof {
            assert(v@.take(i + 1).drop_last() =~= v@.take(i as int));
            assert(out@ =~= before + escape_char(c));
            lemma_escape_char_plain(c);
            assert forall|k: int| 0 <= k < out@.len() implies !is_markup_char(#[trigger] out@[k]) by {
                if k >= before.len() {
                    assert(out@[k] == escape_char(c)[k - before.len()]);
                }
            }
        }
        i = i + 1;
    }
    assert(v@.take(v@.len() as int) =~= v@);
    from_chars(out.as_slice())
}

/// The element that plays a kind of media.
pub open spec fn media_tag(kind: MediaKind) -> Seq<char> {
    if kind == MediaKind::Audio {
        "audio"@
    } else {
        "video"@
    }
}

/// Part 1 of the player page template.
pub open spec fn page_part_1() -> Seq<char> {
    "<!doctype html><html lang=\""@
}

/// Part 2 of the player page template.
pub open spec fn page_part_2() -> Seq<char> {
    "\"><head><meta charset=\"utf-8\">\n<meta name=\"viewport\" content=\"width=device-width,initial-scale=1\">\n<meta http-equiv=\"Content-Security-Policy\" content=\"default-src 'none'; media-src https: http:; style-src 'unsafe-inline'; script-src 'unsafe-inline'\">\n<style>\nhtml,body{margin:0;width:100%;height:100%;overflow:hidden;background:#15181d;color:#eff2f7;color-scheme:dark}\n#player{position:absolute;width:100%;height:100%}video,audio{display:block;width:100%;height:100%;object-fit:contain}\n#error{position:absolute;inset:0;align-content:center;text-align:center;padding:16px;font:14px system-ui;background:#15181d}\n</style></head><body><div id=\"player\"><"@
}

/// Part 3 of the player page template.
pub open spec fn page_part_3() -> Seq<char> {
    " controls playsinline preload=\"metadata\" src=\""@
}

/// Part 4 of the player page template.
pub open spec fn page_part_4() -> Seq<char> {
    "\"></"@
}

/// Part 5 of the player page template.
pub open spec fn page_part_5() -> Seq<char> {
    "><div id=\"error\" hidden>"@
}

/// Part 6 of the player page template.
pub open spec fn page_part_6() -> Seq<char> {
    "</div></div>\n<script>\nwindow.layoutPlayer=()=>{const b=window.playerBounds||[innerWidth,innerHeight,0,0],p=document.getElementById('player');p.style.width=b[0]+'px';p.style.height=b[1]+'px';p.style.left=b[2]+'px';p.style.top=b[3]+'px'};\nlayoutPlayer();const media=document.querySelector('video,audio');media.addEventListener('error',()=>document.getElementById('error').hidden=false);\naddEventListener('wheel',e=>{if(e.ctrlKey)return;const scale=e.deltaMode===1?16:e.deltaMode===2?innerHeight:1;window.ipc.postMessage(JSON.stringify({x:e.clientX,y:e.clientY,dx:e.deltaX*scale,dy:e.deltaY*scale}));e.preventDefault()},{passive:false});\n</script></body></html>"@
}

/// The player page for `url`: a `<video>` or `<audio>` element with native
/// controls, no autoplay, the URL and the error note HTML-escaped, and the
/// page language set from the locale.
pub open spec fn player_page(url: Seq<char>, kind: MediaKind, l: Language) -> Seq<char> {
    page_part_1() + language_tag(l) + page_part_2() + media_tag(kind) + page_part_3() + escaped(url)
        + page_part_4() + media_tag(kind) + page_part_5() + escaped(
        translation(l, Text::PlaybackFailed),
    ) + page_part_6()
}

/// The HTML page that plays `url`.
pub fn player_html(url: &str, kind: MediaKind, locale: Language) -> (r: String)
    ensures
        r@ == player_page(url@, kind, locale),
{
    let tag = if kind == MediaKind::Audio {
        "audio"
    } else {
        "video"
    };
    let url = escape_html(url);
    let error = escape_html(locale.text(Text::PlaybackFailed));
    let mut page = to_chars("<!doctype html><html lang=\"");
    push_all(&mut page, to_chars(locale.as_str()).as_slice());
    push_all(&mut page, to_chars("\"><head><meta charset=\"utf-8\">\n<meta name=\"viewport\" content=\"width=device-width,initial-scale=1\">\n<meta http-equiv=\"Content-Security-Policy\" content=\"default-src 'none'; media-src https: http:; style-src 'unsafe-inline'; script-src 'unsafe-inline'\">\n<style>\nhtml,body{margin:0;width:100%;height:100%;overflow:hidden;background:#15181d;color:#eff2f7;color-scheme:dark}\n#player{position:absolute;width:100%;height:100%}video,audio{display:block;width:100%;height:100%;object-fit:contain}\n#error{position:absolute;inset:0;align-content:center;text-align:center;padding:16px;font:14px system-ui;background:#15181d}\n</style></head><body><div id=\"player\"><").as_slice());
    push_all(&mut page, to_chars(tag).as_slice());
    push_all(&mut page, to_chars(" controls playsinline preload=\"metadata\" src=\"").as_slice());
    push_all(&mut page, to_chars(url.as_str()).as_slice());
    push_all(&mut page, to_chars("\"></").as_slice());
    push_all(&mut page, to_chars(tag).as_slice());
    push_all(&mut page, to_chars("><div id=\"error\" hidden>").as_slice());
    push_all(&mut page, to_chars(error.as_str()).as_slice());
    push_all(&mut page, to_chars("</div></div>\n<script>\nwindow.layoutPlayer=()=>{const b=window.playerBounds||[innerWidth,innerHeight,0,0],p=document.getElementById('player');p.style.width=b[0]+'px';p.style.height=b[1]+'px';p.style.left=b[2]+'px';p.style.top=b[3]+'px'};\nlayoutPlayer();const media=document.querySelector('video,audio');media.addEventListener('error',()=>document.getElementById('error').hidden=false);\naddEventListener('wheel',e=>{if(e.ctrlKey)return;const scale=e.deltaMode===1?16:e.deltaMode===2?innerHeight:1;window.ipc.postMessage(JSON.stringify({x:e.clientX,y:e.clientY,dx:e.deltaX*scale,dy:e.deltaY*scale}));e.preventDefault()},{passive:false});\n</script></body></html>").as_slice());
    from_chars(page.as_slice())
}

/// The MIME type a local media file is served with, when its extension needs
/// one that the web view accepts: `m4a` as `audio/mp4`, `m4v` as `video/mp4`
/// (in any letter case); other files are served with a guessed type.
pub open spec fn media_mime_for(extension: Option<Seq<char>>) -> Option<Seq<char>> {
    match extension {
        Some(e) => if ascii_lower(e) == "m4a"@ {
            Some("audio/mp4"@)
        } else if ascii_lower(e) == "m4v"@ {
            Some("video/mp4"@)
        } else {
            None
        },
        None => None,
    }
}

/// The MIME type to serve a local media file with, from its extension.
pub fn media_mime(extension: Option<&str>) -> (r: Option<&'static str>)
    ensures
        match r {
            Some(m) => media_mime_for(match extension {
                Some(e) => Some(e@),
                None => None,
            }) == Some(m@),
            None => media_mime_for(match extension {
                Some(e) => Some(e@),
                None => None,
            }) is None,
        },
{
    match extension {
        Some(e) => {
            let chars = to_chars(e);
            let mut lower: Vec<char> = Vec::new();
            let mut i: usize = 0;
            while i < chars.len()
                invariant
                    i <= chars@.len(),
                    lower@ == ascii_lower(chars@.take(i as int)),
                decreases chars.len() - i,
            {
                let c = chars[i];
                let l = if 'A' <= c && c <= 'Z' {
                    ((c as u32) + 32) as u8 as char
                } else {
                    c
                };
                lower.push(l);
                assert(lower@ =~= ascii_lower(chars@.take(i + 1)));
                i = i + 1;
            }
            assert(chars@.take(chars@.len() as int) =~= chars@);
            if chars_eq(lower.as_slice(), to_chars("m4a").as_slice()) {
                Some("audio/mp4")
            } else if chars_eq(lower.as_slice(), to_chars("m4v").as_slice()) {
                Some("video/mp4")
            } else {
                None
            }
        },
        None => None,
    }
}

} // verus!
