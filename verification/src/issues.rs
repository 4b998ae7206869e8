//! Issue lists: state colours, label colours and dates.

use vstd::prelude::*;
use vstd::utf8::*;
use crate::bytes::{byte_len, byte_length};
use crate::i18n::{translation, Language, Text};
use crate::text::{
    chars_eq, chars_from, decimal, decimal_chars, from_chars, push_all, to_chars, trim, trim_chars,
};
use crate::theme::Palette;

verus! {

/// An issue as the list shows it.
pub struct Issue {
    /// `open` or `closed`.
    pub state: String,
}

/// A label attached to an issue.
pub struct Label {
    pub name: String,
    /// `#rrggbb` as the issue tracker reports it.
    pub color: String,
}

/// A label chip: its text and its dot colour (`0xRRGGBB`).
pub struct LabelChip {
    pub name: String,
    pub color: u32,
}

/// Closed issues are drawn in the accent colour, all others in the success
/// colour.
pub fn issue_color(issue: &Issue, colors: Palette) -> (c: u32)
    ensures
        c == if issue.state@ == "closed"@ {
            colors.accent
        } else {
            colors.success
        },
{
    if chars_eq(to_chars(issue.state.as_str()).as_slice(), to_chars("closed").as_slice()) {
        colors.accent
    } else {
        colors.success
    }
}

/// Value of a hexadecimal digit.
pub open spec fn hex_digit(c: char) -> Option<nat> {
    if '0' <= c && c <= '9' {
        Some((c as u32 - '0' as u32) as nat)
    } else if 'a' <= c && c <= 'f' {
        Some((c as u32 - 'a' as u32 + 10) as nat)
    } else if 'A' <= c && c <= 'F' {
        Some((c as u32 - 'A' as u32 + 10) as nat)
    } else {
        None
    }
}

/// Value of a sequence of hexadecimal digits (`None` when one is not a digit).
pub open spec fn hex_digits(s: Seq<char>) -> Option<nat>
    decreases s.len(),
{
    if s.len() == 0 {
        Some(0)
    } else {
        match (hex_digits(s.drop_last()), hex_digit(s.last())) {
            (Some(v), Some(d)) => Some(v * 16 + d),
            _ => None,
        }
    }
}

/// `u32::from_str_radix(s, 16)` on short input: an optional `+` and at least
/// one hexadecimal digit.
pub open spec fn parse_hex(s: Seq<char>) -> Option<nat> {
    let d = if s.len() > 0 && s[0] == '+' {
        s.drop_first()
    } else {
        s
    };
    if d.len() == 0 {
        None
    } else {
        hex_digits(d)
    }
}

/// The dot colour of a label: its `#rrggbb` colour when that is six bytes of
/// hexadecimal after `#`, else the accent colour.
pub open spec fn label_color(color: Seq<char>, accent: u32) -> nat {
    if color.len() > 0 && color[0] == '#' && byte_len(color.drop_first()) == 6 && parse_hex(
        color.drop_first(),
    ) is Some {
        parse_hex(color.drop_first())->0
    } else {
        accent as nat
    }
}

proof fn lemma_hex_digits_bound(s: Seq<char>)
    ensures
        hex_digits(s) matches Some(v) ==> v < pow16(s.len()),
    decreases s.len(),
{
    if s.len() > 0 {
        lemma_hex_digits_bound(s.drop_last());
        if let Some(v) = hex_digits(s) {
            let w = hex_digits(s.drop_last())->0;
            let d = hex_digit(s.last())->0;
            assert(w < pow16((s.len() - 1) as nat));
            assert(d < 16);
            assert(v == w * 16 + d);
            assert(w * 16 + d < pow16((s.len() - 1) as nat) * 16) by (nonlinear_arith)
                requires
                    w < pow16((s.len() - 1) as nat),
                    d < 16,
            ;
        }
    }
}

/// `16^n`.
pub open spec fn pow16(n: nat) -> nat
    decreases n,
{
    if n == 0 {
        1
    } else {
        pow16((n - 1) as nat) * 16
    }
}

/// Value of a hexadecimal digit.
fn hex_digit_exec(c: char) -> (r: Option<u32>)
    ensures
        match r {
            Some(v) => hex_digit(c) == Some(v as nat),
            None => hex_digit(c) is None,
        },
{
    if '0' <= c && c <= '9' {
        Some(c as u32 - '0' as u32)
    } else if 'a' <= c && c <= 'f' {
        Some(c as u32 - 'a' as u32 + 10)
    } else if 'A' <= c && c <= 'F' {
        Some(c as u32 - 'A' as u32 + 10)
    } else {
        None
    }
}

/// Parses at most seven characters as `u32::from_str_radix(s, 16)` does.
#[verifier::loop_isolation(false)]
fn parse_hex_exec(s: &[char]) -> (r: Option<u32>)
    requires
        s@.len() <= 7,
    ensures
        match r {
            Some(v) => parse_hex(s@) == Some(v as nat),
            None => parse_hex(s@) is None,
        },
{
    let d = if s.len() > 0 && s[0] == '+' {
        assert(s@.skip(1) =~= s@.drop_first());
        chars_from(s, 1)
    } else {
        assert(s@.skip(0) =~= s@);
        chars_from(s, 0)
    };
    if d.len() == 0 {
        return None;
    }
    let mut v: u32 = 0;
    let mut i: usize = 0;
    assert(d@.take(0) =~= Seq::<char>::empty());
    while i < d.len()
        invariant
            i <= d@.len() <= 7,
            hex_digits(d@.take(i as int)) == Some(v as nat),
            v < pow16(i as nat),
        decreases d.len() - i,
    {
        assert(d@.take(i + 1).drop_last() =~= d@.take(i as int));
        match hex_digit_exec(d[i]) {
            Some(h) => {
                proof {
                    lemma_hex_digits_bound(d@.take(i + 1));
                    reveal_with_fuel(pow16, 8);
                    assert(pow16(7) == 268435456);
                    lemma_pow16_mono((i + 1) as nat, 7);
                }
                v = v * 16 + h;
            },
            None => {
                proof {
                    lemma_hex_digits_none(d@, i as int);
                }
                return None;
            },
        }
        i = i + 1;
    }
    assert(d@.take(d@.len() as int) =~= d@);
    Some(v)
}

proof fn lemma_pow16_mono(a: nat, b: nat)
    requires
        a <= b,
    ensures
        pow16(a) <= pow16(b),
    decreases b,
{
    if a < b {
        lemma_pow16_mono(a, (b - 1) as nat);
    }
}

proof fn lemma_hex_digits_none(d: Seq<char>, i: int)
    requires
        0 <= i < d.len(),
        hex_digit(d[i]) is None,
    ensures
        hex_digits(d) is None,
    decreases d.len(),
{
    if i < d.len() - 1 {
        lemma_hex_digits_none(d.drop_last(), i);
    }
}

/// The chip of a label.
pub fn issue_label(label: &Label, colors: Palette) -> (chip: LabelChip)
    ensures
        chip.name@ == label.name@,
        chip.color as nat == label_color(label.color@, colors.accent),
{
    let c = to_chars(label.color.as_str());
    let color = if c.len() > 0 && c[0] == '#' {
        let hex = chars_from(c.as_slice(), 1);
        assert(c@.skip(1) =~= c@.drop_first());
        proof {
            crate::bytes::lemma_encode_utf8_concat(seq![c@[0]], hex@);
            assert(seq![c@[0]] + hex@ =~= c@);
            crate::bytes::lemma_byte_len_at_most_four(hex@);
        }
        if hex.len() <= 7 && byte_length(hex.as_slice()) == 6 {
            match parse_hex_exec(hex.as_slice()) {
                Some(v) => v,
                None => colors.accent,
            }
        } else {
            proof {
                if hex@.len() > 7 {
                    crate::bytes::lemma_char_count_le_byte_len(hex@);
                }
            }
            colors.accent
        }
    } else {
        colors.accent
    };
    LabelChip { name: label.name.clone(), color }
}

/// Whether chrono's `DateTime::parse_from_rfc3339` accepts the text.
pub uninterp spec fn rfc3339_valid(s: Seq<char>) -> bool;

/// `n` in decimal, padded on the left with `0` to at least `width` digits.
pub open spec fn padded(n: nat, width: nat) -> Seq<char> {
    let d = decimal(n);
    if d.len() >= width {
        d
    } else {
        Seq::new((width - d.len()) as nat, |i: int| '0') + d
    }
}

/// A year as chrono's `%Y` writes it: four digits for years 0 to 9999,
/// otherwise a sign followed by at least four digits.
pub open spec fn year_text(y: int) -> Seq<char> {
    if 0 <= y <= 9999 {
        padded(y as nat, 4)
    } else if y < 0 {
        seq!['-'] + padded((-y) as nat, 4)
    } else {
        seq!['+'] + padded(y as nat, 4)
    }
}

/// A local time to the minute as `%Y-%m-%d %H:%M` writes it.
pub open spec fn minute_text(y: int, mo: nat, d: nat, h: nat, mi: nat) -> Seq<char> {
    year_text(y) + seq!['-'] + padded(mo, 2) + seq!['-'] + padded(d, 2) + seq![' '] + padded(h, 2)
        + seq![':'] + padded(mi, 2)
}

/// The fields are those of a date and a time of day: month 1 to 12, day 1 to
/// 31, hour 0 to 23, minute 0 to 59.
pub open spec fn minute_fields_ok(mo: nat, d: nat, h: nat, mi: nat) -> bool {
    1 <= mo <= 12 && 1 <= d <= 31 && h < 24 && mi < 60
}

/// The text has the shape of a local time to the minute.
pub open spec fn is_minute_text(s: Seq<char>) -> bool {
    exists|y: int, mo: nat, d: nat, h: nat, mi: nat|
        minute_fields_ok(mo, d, h, mi) && s == #[trigger] minute_text(y, mo, d, h, mi)
}


/// The hexadecimal digit for `k` (below 16): `0` to `9`, then `a` to `f`, or
/// `A` to `F` when `upper`.
pub open spec fn hex_char(k: nat, upper: bool) -> char {
    if k < 10 {
        (48 + k) as char
    } else if upper {
        (55 + k) as char
    } else {
        (87 + k) as char
    }
}

/// Every hexadecimal digit, in either case, stands for its usual value.
pub proof fn lemma_hex_char_value(k: nat, upper: bool)
    requires
        k < 16,
    ensures
        hex_digit(hex_char(k, upper)) == Some(k),
{
}

proof fn lemma_ascii_byte_len(s: Seq<char>)
    requires
        forall|i: int| 0 <= i < s.len() ==> (s[i] as u32) < 128,
    ensures
        byte_len(s) == s.len(),
    decreases s.len(),
{
    if s.len() > 0 {
        lemma_ascii_byte_len(s.drop_first());
        assert(encode_utf8(s) == encode_scalar(s[0] as u32) + encode_utf8(s.drop_first()));
    }
}

/// A label colour written `#` and six hexadecimal digits, in either case, is
/// the number those digits denote in base 16.
pub proof fn lemma_label_colour_is_hex_value(ks: Seq<nat>, upper: Seq<bool>, accent: u32)
    requires
        ks.len() == 6,
        upper.len() == 6,
        forall|i: int| 0 <= i < 6 ==> ks[i] < 16,
    ensures
        label_color(
            seq![
                '#',
                hex_char(ks[0], upper[0]),
                hex_char(ks[1], upper[1]),
                hex_char(ks[2], upper[2]),
                hex_char(ks[3], upper[3]),
                hex_char(ks[4], upper[4]),
                hex_char(ks[5], upper[5]),
            ],
            accent,
        ) == ks[0] * 1048576 + ks[1] * 65536 + ks[2] * 4096 + ks[3] * 256 + ks[4] * 16 + ks[5],
{
    let c = seq![
        hex_char(ks[0], upper[0]),
        hex_char(ks[1], upper[1]),
        hex_char(ks[2], upper[2]),
        hex_char(ks[3], upper[3]),
        hex_char(ks[4], upper[4]),
        hex_char(ks[5], upper[5]),
    ];
    let color = seq!['#'] + c;
    assert(color =~= seq![
        '#',
        hex_char(ks[0], upper[0]),
        hex_char(ks[1], upper[1]),
        hex_char(ks[2], upper[2]),
        hex_char(ks[3], upper[3]),
        hex_char(ks[4], upper[4]),
        hex_char(ks[5], upper[5]),
    ]);
    assert(color.drop_first() =~= c);
    assert forall|i: int| 0 <= i < 6 implies hex_digit(#[trigger] c[i]) == Some(ks[i]) by {
        lemma_hex_char_value(ks[i], upper[i]);
    }
    assert forall|i: int| 0 <= i < c.len() implies (c[i] as u32) < 128 by {
        lemma_hex_char_value(ks[i], upper[i]);
    }
    lemma_ascii_byte_len(c);
    assert(c[0] != '+') by {
        lemma_hex_char_value(ks[0], upper[0]);
    }
    assert(c.take(5) =~= c.drop_last());
    assert(c.take(4) =~= c.take(5).drop_last());
    assert(c.take(3) =~= c.take(4).drop_last());
    assert(c.take(2) =~= c.take(3).drop_last());
    assert(c.take(1) =~= c.take(2).drop_last());
    assert(c.take(0) =~= c.take(1).drop_last());
    assert(hex_digits(c.take(0)) == Some(0nat));
    assert(hex_digits(c.take(1)) == Some(ks[0]));
    assert(hex_digits(c.take(2)) == Some(ks[0] * 16 + ks[1]));
    assert(hex_digits(c.take(3)) == Some((ks[0] * 16 + ks[1]) * 16 + ks[2]));
    assert(hex_digits(c.take(4)) == Some(((ks[0] * 16 + ks[1]) * 16 + ks[2]) * 16 + ks[3]));
    assert(hex_digits(c.take(5)) == Some((((ks[0] * 16 + ks[1]) * 16 + ks[2]) * 16 + ks[3]) * 16
        + ks[4]));
    assert(hex_digits(c) == Some(((((ks[0] * 16 + ks[1]) * 16 + ks[2]) * 16 + ks[3]) * 16 + ks[4])
        * 16 + ks[5]));
}


/// `c` is a hexadecimal digit, in either case.
pub open spec fn is_hex_char(c: char) -> bool {
    exists|k: nat, upper: bool| k < 16 && c == #[trigger] hex_char(k, upper)
}

/// A label colour that does not start with `#`, or whose text after `#`
/// holds a character that is neither a hexadecimal digit nor `+`, is shown
/// in the accent colour.
pub proof fn lemma_malformed_label_colour_is_accent(color: Seq<char>, accent: u32)
    requires
        color.len() == 0 || color[0] != '#' || exists|i: int|
            1 <= i < color.len() && color[i] != '+' && !is_hex_char(#[trigger] color[i]),
    ensures
        label_color(color, accent) == accent,
{
    if color.len() > 0 && color[0] == '#' {
        let i = choose|i: int| 1 <= i < color.len() && color[i] != '+' && !is_hex_char(#[trigger] color[i]);
        let c = color[i];
        if let Some(v) = hex_digit(c) {
            if '0' <= c && c <= '9' {
                assert(c == hex_char(v, false));
            } else if 'a' <= c && c <= 'f' {
                assert(c == hex_char(v, false));
            } else {
                assert(c == hex_char(v, true));
            }
            assert(false);
        }
        let h = color.drop_first();
        let d = if h.len() > 0 && h[0] == '+' {
            h.drop_first()
        } else {
            h
        };
        if h.len() > 0 && h[0] == '+' {
            assert(i >= 2);
            assert(d[i - 2] == c);
            lemma_hex_digits_none(d, i - 2);
        } else {
            assert(d[i - 1] == c);
            lemma_hex_digits_none(d, i - 1);
        }
    }
}

/// `DateTime::parse_from_rfc3339` followed by conversion to the local time
/// zone and `%Y-%m-%d %H:%M` formatting. Claimed: a text comes back exactly
/// when the timestamp parses, and it is some date and time of day in the
/// shape that chrono's format documentation gives (`%Y` a year, `%m %d %H
/// %M` two digits each). Which date and time it names is not claimed: that
/// depends on the machine's time zone.
#[verifier::external_body]
fn local_minute(value: &str) -> (r: Option<String>)
    ensures
        r is Some <==> rfc3339_valid(value@),
        r matches Some(s) ==> is_minute_text(s@),
{
    chrono::DateTime::parse_from_rfc3339(value).ok().map(
        |date| date.with_timezone(&chrono::Local).format("%Y-%m-%d %H:%M").to_string(),
    )
}

/// The date shown for an issue, given its local formatting: that text, or a
/// dash when the date could not be read.
pub fn issue_date_text(formatted: Option<String>) -> (r: String)
    ensures
        r@ == match formatted {
            Some(s) => s@,
            None => "—"@,
        },
{
    match formatted {
        Some(s) => s,
        None => "—".to_owned(),
    }
}

proof fn lemma_padded_len(n: nat, width: nat)
    ensures
        padded(n, width).len() >= width,
{
}

/// The date shown for an RFC 3339 timestamp, in local time to the minute; a
/// dash exactly when the timestamp cannot be read.
pub fn issue_date(value: &str) -> (r: String)
    ensures
        !rfc3339_valid(value@) ==> r@ == "—"@,
        rfc3339_valid(value@) ==> is_minute_text(r@) && r@ != "—"@,
{
    let formatted = local_minute(value);
    proof {
        reveal_strlit("—");
        if formatted is Some {
            let t = formatted->0@;
            let (y, mo, d, h, mi) = choose|y: int, mo: nat, d: nat, h: nat, mi: nat|
                minute_fields_ok(mo, d, h, mi) && t == #[trigger] minute_text(y, mo, d, h, mi);
            lemma_padded_len(mo, 2);
            lemma_padded_len(d, 2);
            assert(t.len() > 1);
        }
    }
    issue_date_text(formatted)
}

/// What the composer holds after an issue is sent to the chat: the issue's
/// prompt, below the draft and a blank line when there is a draft.
pub open spec fn chat_text(draft: Seq<char>, prompt: Seq<char>) -> Seq<char> {
    if draft.len() == 0 {
        prompt
    } else {
        draft + "\n\n"@ + prompt
    }
}

/// The composer text after sending an issue's `prompt` to a chat whose
/// draft is `draft`.
pub fn compose_issue_prompt(draft: &str, prompt: String) -> (r: String)
    ensures
        r@ == chat_text(draft@, prompt@),
{
    let d = to_chars(draft);
    if d.len() == 0 {
        prompt
    } else {
        let mut out = d;
        crate::text::push_all(&mut out, to_chars("\n\n").as_slice());
        crate::text::push_all(&mut out, to_chars(prompt.as_str()).as_slice());
        crate::text::from_chars(out.as_slice())
    }
}

/// The state an issue action sets.
#[derive(Clone, Copy, Debug, PartialEq, Eq, Structural)]
pub enum IssueState {
    Open,
    Closed,
}

/// The action row below an issue: what the state button does and says, and
/// which buttons are offered or enabled.
pub struct IssueActions {
    /// The state the state button sets.
    pub target: IssueState,
    /// The state button's label.
    pub state_label: Text,
    /// The button that hands the issue to the chat.
    pub chat_enabled: bool,
    /// The button that assigns the issue to the user.
    pub assign_enabled: bool,
    /// The state button.
    pub state_enabled: bool,
    /// The NPC button is offered (CNB issues only).
    pub npc_shown: bool,
    /// The NPC button.
    pub npc_enabled: bool,
}

/// The action row of an issue. `busy` says an action is under way,
/// `comments_loaded` and `comments_loading` describe the comments,
/// `is_cnb` whether the issue is a CNB issue and `npc_comment` whether the
/// NPC was already asked.
pub fn issue_actions(
    closed: bool,
    busy: bool,
    comments_loaded: bool,
    comments_loading: bool,
    is_cnb: bool,
    npc_comment: bool,
) -> (a: IssueActions)
    ensures
        a.target == (if closed {
            IssueState::Open
        } else {
            IssueState::Closed
        }),
        a.state_label == (if closed {
            Text::ReopenIssue
        } else {
            Text::CloseIssue
        }),
        a.chat_enabled == (!busy && comments_loaded && !comments_loading),
        a.assign_enabled == !busy,
        a.state_enabled == !busy,
        a.npc_shown == is_cnb,
        a.npc_enabled == (!busy && !npc_comment),
{
    let (target, state_label) = if closed {
        (IssueState::Open, Text::ReopenIssue)
    } else {
        (IssueState::Closed, Text::CloseIssue)
    };
    IssueActions {
        target,
        state_label,
        chat_enabled: !busy && comments_loaded && !comments_loading,
        assign_enabled: !busy,
        state_enabled: !busy,
        npc_shown: is_cnb,
        npc_enabled: !busy && !npc_comment,
    }
}

/// The number of pages `total` items fill, `page_size` to a page, and never
/// fewer than the page being shown.
pub open spec fn page_count(total: nat, page: nat, page_size: nat) -> nat {
    let full = if total % page_size == 0 {
        total / page_size
    } else {
        total / page_size + 1
    };
    if full >= page {
        full
    } else {
        page
    }
}

/// The pager text: page `page` of `pages`.
pub open spec fn page_text(page: nat, pages: nat, locale: Language) -> Seq<char> {
    translation(locale, Text::PagePrefix) + decimal(page) + translation(locale, Text::PageOf)
        + decimal(pages) + translation(locale, Text::PageSuffix)
}

/// The pager below an issue list.
pub struct PageControls {
    pub pages: usize,
    pub text: String,
    pub previous_enabled: bool,
    pub next_enabled: bool,
}

/// The pager of an issue list showing page `page` of `total` issues,
/// `page_size` to a page. The next page is offered while the shown pages
/// hold fewer than `total` issues, nothing is loading and, where pages are
/// reached by cursor, the next page's cursor is known.
pub fn page_controls(
    total: usize,
    page: usize,
    page_size: usize,
    loading: bool,
    next_cursor_missing: bool,
    locale: Language,
) -> (c: PageControls)
    requires
        page_size > 0,
    ensures
        c.pages == page_count(total as nat, page as nat, page_size as nat),
        c.text@ == page_text(page as nat, c.pages as nat, locale),
        c.previous_enabled == (!loading && page > 1),
        c.next_enabled == (!loading && page * page_size < total && !next_cursor_missing),
{
    proof {
        if total % page_size != 0 {
            assert(page_size != 1);
            assert(total / page_size <= total / 2) by (nonlinear_arith)
                requires
                    page_size >= 2,
            ;
        }
    }
    let full = if total % page_size == 0 {
        total / page_size
    } else {
        total / page_size + 1
    };
    let pages = if full >= page {
        full
    } else {
        page
    };
    let within = match page.checked_mul(page_size) {
        Some(shown) => shown < total,
        None => false,
    };
    let mut out = to_chars(locale.text(Text::PagePrefix));
    push_all(&mut out, decimal_chars(page).as_slice());
    push_all(&mut out, to_chars(locale.text(Text::PageOf)).as_slice());
    push_all(&mut out, decimal_chars(pages).as_slice());
    push_all(&mut out, to_chars(locale.text(Text::PageSuffix)).as_slice());
    PageControls {
        pages,
        text: from_chars(out.as_slice()),
        previous_enabled: !loading && page > 1,
        next_enabled: !loading && within && !next_cursor_missing,
    }
}

/// The pager offers the next page only where there is one: when the pages
/// before and including `page` hold fewer than `total` items, `page` is not
/// the last page counted.
pub proof fn lemma_next_page_is_counted(total: nat, page: nat, page_size: nat)
    requires
        page_size > 0,
        page * page_size < total,
    ensures
        page + 1 <= page_count(total, page, page_size),
{
    let q = total / page_size;
    let r = total % page_size;
    vstd::arithmetic::div_mod::lemma_fundamental_div_mod(total as int, page_size as int);
    assert(total == page_size * q + r);
    if r == 0 {
        if page >= q {
            assert(page * page_size >= q * page_size) by (nonlinear_arith)
                requires
                    page >= q,
            ;
        }
    } else {
        if page >= q + 1 {
            assert(page * page_size >= (q + 1) * page_size) by (nonlinear_arith)
                requires
                    page >= q + 1,
            ;
            assert((q + 1) * page_size == q * page_size + page_size) by (nonlinear_arith);
        }
    }
}

/// `ls` joined with `, `.
pub open spec fn comma_list(ls: Seq<Seq<char>>) -> Seq<char>
    decreases ls.len(),
{
    if ls.len() == 0 {
        Seq::empty()
    } else if ls.len() == 1 {
        ls[0]
    } else {
        comma_list(ls.drop_last()) + ", "@ + ls.last()
    }
}

/// The texts of a list of strings.
pub open spec fn string_views(v: Seq<String>) -> Seq<Seq<char>> {
    v.map_values(|s: String| s@)
}

/// The assignee field of an issue: the names joined with `, `, or
/// "unassigned" when there are none.
pub fn assignees_text(names: &[String], locale: Language) -> (r: String)
    ensures
        r@ == if names@.len() == 0 {
            translation(locale, Text::Unassigned)
        } else {
            comma_list(string_views(names@))
        },
{
    if names.len() == 0 {
        return locale.text(Text::Unassigned).to_owned();
    }
    let ghost views = string_views(names@);
    let sep = to_chars(", ");
    let mut out: Vec<char> = Vec::new();
    let mut j: usize = 0;
    while j < names.len()
        invariant
            j <= names@.len(),
            views == string_views(names@),
            sep@ == ", "@,
            out@ == comma_list(views.take(j as int)),
        decreases names.len() - j,
    {
        assert(views.take(j + 1).drop_last() =~= views.take(j as int));
        assert(views.take(j + 1).last() == names@[j as int]@);
        if j > 0 {
            push_all(&mut out, sep.as_slice());
        } else {
            assert(views.take(1)[0] == names@[0]@);
        }
        push_all(&mut out, to_chars(names[j].as_str()).as_slice());
        j = j + 1;
    }
    assert(views.take(names@.len() as int) =~= views);
    from_chars(out.as_slice())
}

/// The priority field of an issue: the priority, or a dash when it has none.
pub fn priority_text(priority: &str) -> (r: String)
    ensures
        r@ == if priority@.len() == 0 {
            "—"@
        } else {
            priority@
        },
{
    if to_chars(priority).len() == 0 {
        "—".to_owned()
    } else {
        priority.to_owned()
    }
}

/// The state chip of an issue.
pub fn issue_state_text(issue: &Issue) -> (t: Text)
    ensures
        t == if issue.state@ == "closed"@ {
            Text::IssueClosed
        } else {
            Text::IssueOpen
        },
{
    if chars_eq(to_chars(issue.state.as_str()).as_slice(), to_chars("closed").as_slice()) {
        Text::IssueClosed
    } else {
        Text::IssueOpen
    }
}

/// The body shown for an issue: the body, or a note that it has none when
/// it is blank.
pub fn issue_body_text(body: &str, locale: Language) -> (r: String)
    ensures
        r@ == if trim(body@).len() == 0 {
            translation(locale, Text::NoIssueDescription)
        } else {
            body@
        },
{
    let t = trim_chars(to_chars(body).as_slice());
    if t.len() == 0 {
        locale.text(Text::NoIssueDescription).to_owned()
    } else {
        body.to_owned()
    }
}

} // verus!
