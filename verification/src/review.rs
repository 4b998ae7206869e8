//! Review of workspace changes: splitting `git diff` output into files,
//! recovering file paths from diff headers, and building the text shown for
//! each file.

use vstd::prelude::*;
use vstd::utf8::*;
use crate::bytes::{byte_len, byte_length, char_index_at_byte, char_index_of_byte};
use crate::i18n::{translation, Language, Text};
use crate::text::{
    chars_eq, chars_from, chars_until, contains, contains_seq, decimal, decimal_chars, find,
    extension_of, from_chars, has_prefix, last_index_of, occurs_at, portable_path, push_all,
    starts_with, strip_prefix, strip_prefix_chars, to_chars,
};

verus! {

/// Characters of the string as the named replacement decoding of possibly
/// invalid UTF-8 (`String::from_utf8_lossy`).
pub uninterp spec fn utf8_lossy(b: Seq<u8>) -> Seq<char>;

/// `String::from_utf8_lossy`: claims the result is the named lossy decoding of
/// the bytes and, as its documentation states, that valid UTF-8 is decoded
/// unchanged.
#[verifier::external_body]
fn decode_lossy(b: &[u8]) -> (s: String)
    ensures
        s@ == utf8_lossy(b@),
        valid_utf8(b@) ==> s@ == decode_utf8(b@),
{
    String::from_utf8_lossy(b).into_owned()
}

/// Whether `b` is an ASCII octal digit.
pub open spec fn is_octal(b: u8) -> bool {
    0x30 <= b <= 0x37
}

/// The byte that a one-character C escape `\e` stands for.
pub open spec fn escaped_byte(e: u8) -> u8 {
    if e == 0x74 {
        0x09
    } else if e == 0x6e {
        0x0a
    } else if e == 0x72 {
        0x0d
    } else if e == 0x61 {
        7
    } else if e == 0x62 {
        8
    } else if e == 0x66 {
        12
    } else if e == 0x76 {
        11
    } else {
        e
    }
}

/// Number of bytes an escape starting at `b[0] == '\\'` consumes, and the
/// byte it stands for (octal escapes take up to three digits; their value is
/// kept modulo 256).
pub open spec fn escape_at(b: Seq<u8>) -> (int, u8)
    recommends
        b.len() >= 2,
{
    let e = b[1];
    if is_octal(e) {
        let d1 = (e - 0x30) as int;
        if b.len() > 2 && is_octal(b[2]) {
            let d2 = d1 * 8 + (b[2] - 0x30);
            if b.len() > 3 && is_octal(b[3]) {
                (4, ((d2 * 8 + (b[3] - 0x30)) % 256) as u8)
            } else {
                (3, (d2 % 256) as u8)
            }
        } else {
            (2, d1 as u8)
        }
    } else {
        (2, escaped_byte(e))
    }
}

/// Bytes of a C-quoted path after its opening quote, with escapes resolved,
/// up to the closing quote.
pub open spec fn unquote(b: Seq<u8>) -> Seq<u8>
    decreases b.len(),
{
    if b.len() == 0 {
        Seq::empty()
    } else if b[0] == 0x22 {
        Seq::empty()
    } else if b[0] == 0x5c {
        if b.len() == 1 {
            seq![0x5cu8]
        } else {
            seq![escape_at(b).1] + unquote(b.skip(escape_at(b).0))
        }
    } else {
        seq![b[0]] + unquote(b.drop_first())
    }
}

/// A path as `git` prints it: quoted paths are unescaped and decoded (invalid
/// UTF-8 replaced), anything else is kept as it is.
pub open spec fn decoded_path(text: Seq<char>) -> Seq<char> {
    let b = encode_utf8(text);
    if b.len() > 0 && b[0] == 0x22 {
        let u = unquote(b.drop_first());
        if valid_utf8(u) {
            decode_utf8(u)
        } else {
            utf8_lossy(u)
        }
    } else {
        text
    }
}

/// Decodes a path that `git` may have C-quoted (`"a/\303\244.txt"`).
pub fn decode_path(text: &str) -> (r: String)
    ensures
        r@ == decoded_path(text@),
{
    let b = text.as_bytes();
    if b.len() == 0 || b[0] != 0x22 {
        return text.to_owned();
    }
    let n = b.len();
    let mut out: Vec<u8> = Vec::new();
    let mut i: usize = 1;
    assert(b@.skip(1) =~= b@.drop_first());
    while i < n
        invariant
            1 <= i <= n,
            n == b@.len(),
            unquote(b@.drop_first()) == out@ + unquote(b@.skip(i as int)),
        decreases n - i,
    {
        let byte = b[i];
        let ghost rest = b@.skip(i as int);
        let ghost out0 = out@;
        if byte == 0x22 {
            assert(unquote(rest) =~= Seq::<u8>::empty());
            assert(b@.skip(n as int) =~= Seq::<u8>::empty());
            assert(out@ + unquote(rest) =~= out@ + unquote(b@.skip(n as int)));
            i = n;
        } else if byte == 0x5c {
            if i + 1 >= n {
                out.push(0x5c);
                assert(rest.len() == 1);
                assert(b@.skip(n as int) =~= Seq::<u8>::empty());
                i = n;
            } else {
                let e = b[i + 1];
                assert(rest[1] == e);
                if 0x30 <= e && e <= 0x37 {
                    let mut value: u16 = (e - 0x30) as u16;
                    let mut used: usize = 2;
                    if i + 2 < n && 0x30 <= b[i + 2] && b[i + 2] <= 0x37 {
                        assert(rest[2] == b[i + 2]);
                        value = value * 8 + (b[i + 2] - 0x30) as u16;
                        used = 3;
                        if i + 3 < n && 0x30 <= b[i + 3] && b[i + 3] <= 0x37 {
                            assert(rest[3] == b[i + 3]);
                            value = value * 8 + (b[i + 3] - 0x30) as u16;
                            used = 4;
                        } else {
                            assert(!(rest.len() > 3 && is_octal(rest[3])));
                        }
                    } else {
                        assert(!(rest.len() > 2 && is_octal(rest[2])));
                    }
                    let v8 = (value % 256) as u8;
                    assert(escape_at(rest) == (used as int, v8));
                    out.push(v8);
                    assert(rest.skip(used as int) =~= b@.skip(i + used));
                    i = i + used;
                } else {
                    let mapped = if e == 0x74 {
                        0x09u8
                    } else if e == 0x6e {
                        0x0au8
                    } else if e == 0x72 {
                        0x0du8
                    } else if e == 0x61 {
                        7u8
                    } else if e == 0x62 {
                        8u8
                    } else if e == 0x66 {
                        12u8
                    } else if e == 0x76 {
                        11u8
                    } else {
                        e
                    };
                    assert(escape_at(rest) == (2int, mapped));
                    out.push(mapped);
                    assert(rest.skip(2) =~= b@.skip(i + 2));
                    i = i + 2;
                }
            }
        } else {
            out.push(byte);
            assert(rest.drop_first() =~= b@.skip(i + 1));
            i = i + 1;
        }
        assert(out0 + unquote(rest) =~= out@ + unquote(b@.skip(i as int)));
    }
    assert(b@.skip(n as int) =~= Seq::<u8>::empty());
    assert(out@ =~= unquote(b@.drop_first()));
    decode_lossy(out.as_slice())
}

} // verus!

verus! {

/// Prefix of a two-path `git diff` header.
pub open spec fn git_header() -> Seq<char> {
    "diff --git "@
}

/// Where the first path of an unquoted `a/<path> b/<path>` pair ends: the
/// halfway byte of the pair, when it falls on a character boundary.
pub open spec fn first_half(paths: Seq<char>) -> Seq<char> {
    let n = byte_len(paths);
    let middle = if n == 0 { 0 } else { (n - 1) / 2 };
    match char_index_of_byte(paths, middle as int) {
        Some(k) => paths.take(k as int),
        None => paths,
    }
}

/// The text after the separator that follows the halfway byte, if that
/// position is a character boundary within the pair.
pub open spec fn second_half(paths: Seq<char>) -> Option<Seq<char>> {
    let n = byte_len(paths);
    let middle = if n == 0 { 0 } else { (n - 1) / 2 };
    if middle + 1 <= n {
        match char_index_of_byte(paths, middle + 1) {
            Some(k) => Some(paths.skip(k as int)),
            None => None,
        }
    } else {
        None
    }
}

/// `a/X b/X` is read as the single path `a/X`; any other unquoted pair is
/// kept whole so that no patch is silently dropped.
pub open spec fn unquoted_source(paths: Seq<char>) -> Seq<char> {
    let first = first_half(paths);
    let second = match second_half(paths) {
        Some(t) => strip_prefix(t, "b/"@),
        None => None,
    };
    if strip_prefix(first, "a/"@) == second {
        first
    } else {
        paths
    }
}

/// The file path that a `diff --git`, `diff --cc` or `diff --combined` header
/// names; any other header is kept as it is.
pub open spec fn header_path(header: Seq<char>) -> Seq<char> {
    if has_prefix(header, git_header()) {
        let paths = header.skip(git_header().len() as int);
        let source = if paths.len() > 0 && paths[0] == '"' {
            decoded_path(paths)
        } else {
            unquoted_source(paths)
        };
        match strip_prefix(source, "a/"@) {
            Some(p) => p,
            None => source,
        }
    } else if has_prefix(header, "diff --cc "@) {
        decoded_path(header.skip("diff --cc "@.len() as int))
    } else if has_prefix(header, "diff --combined "@) {
        decoded_path(header.skip("diff --combined "@.len() as int))
    } else {
        header
    }
}

proof fn lemma_suffix_byte_len(s: Seq<char>, k: int)
    requires
        0 <= k <= s.len(),
    ensures
        byte_len(s.skip(k)) <= byte_len(s),
{
    crate::bytes::lemma_encode_utf8_concat(s.take(k), s.skip(k));
    assert(s.take(k) + s.skip(k) =~= s);
}

/// The path of the file that a diff header line names.
pub fn patch_path(header: &str) -> (r: String)
    ensures
        r@ == header_path(header@),
{
    let h = to_chars(header);
    let hb = header.as_bytes();
    let _total = hb.len();
    let git = to_chars("diff --git ");
    if !starts_with(h.as_slice(), git.as_slice()) {
        let cc = to_chars("diff --cc ");
        if starts_with(h.as_slice(), cc.as_slice()) {
            let rest = from_chars(chars_from(h.as_slice(), cc.len()).as_slice());
            return decode_path(rest.as_str());
        }
        let combined = to_chars("diff --combined ");
        if starts_with(h.as_slice(), combined.as_slice()) {
            let rest = from_chars(chars_from(h.as_slice(), combined.len()).as_slice());
            return decode_path(rest.as_str());
        }
        return header.to_owned();
    }
    let paths = chars_from(h.as_slice(), git.len());
    proof {
        lemma_suffix_byte_len(h@, git@.len() as int);
    }
    let a = to_chars("a/");
    let source: Vec<char> = if paths.len() > 0 && paths[0] == '"' {
        let quoted = from_chars(paths.as_slice());
        to_chars(decode_path(quoted.as_str()).as_str())
    } else {
        let n = byte_length(paths.as_slice());
        let middle = if n == 0 { 0 } else { (n - 1) / 2 };
        let first = match char_index_at_byte(paths.as_slice(), middle) {
            Some(k) => chars_until(paths.as_slice(), k),
            None => chars_from(paths.as_slice(), 0),
        };
        assert(paths@.skip(0) =~= paths@);
        let second: Option<Vec<char>> = if middle + 1 <= n {
            match char_index_at_byte(paths.as_slice(), middle + 1) {
                Some(k) => Some(chars_from(paths.as_slice(), k)),
                None => None,
            }
        } else {
            None
        };
        let b = to_chars("b/");
        let second_stripped = match second {
            Some(t) => strip_prefix_chars(t.as_slice(), b.as_slice()),
            None => None,
        };
        let first_stripped = strip_prefix_chars(first.as_slice(), a.as_slice());
        let same = match (first_stripped, second_stripped) {
            (Some(x), Some(y)) => chars_eq(x.as_slice(), y.as_slice()),
            (None, None) => true,
            _ => false,
        };
        assert(n == byte_len(paths@));
        assert(middle as int == (if byte_len(paths@) == 0 { 0 } else { (byte_len(paths@) - 1) / 2 }));
        assert(first@ == first_half(paths@));
        assert(second_stripped matches Some(y) ==> second_half(paths@) matches Some(t) && strip_prefix(t, "b/"@) == Some(y@));
        assert(same == (strip_prefix(first@, "a/"@) == match second_half(paths@) {
            Some(t) => strip_prefix(t, "b/"@),
            None => None,
        }));
        if same {
            first
        } else {
            paths
        }
    };
    assert(git@ == git_header());
    assert(paths@ == h@.skip(git_header().len() as int));
    assert(source@ == (if paths@.len() > 0 && paths@[0] == '"' {
            decoded_path(paths@)
        } else {
            unquoted_source(paths@)
        }));
    match strip_prefix_chars(source.as_slice(), a.as_slice()) {
        Some(p) => from_chars(p.as_slice()),
        None => from_chars(source.as_slice()),
    }
}

} // verus!

verus! {

/// The part of a review a patch belongs to.
#[derive(Clone, Copy, Debug, PartialEq, Eq, Structural)]
pub enum ReviewSection {
    Unstaged,
    Untracked,
    Staged,
    Committed,
    Merge,
    Resolution,
    ResolutionStaged,
}

/// How a patch changes its file.
#[derive(Clone, Copy, Debug, PartialEq, Eq, Structural)]
pub enum FileStatus {
    Modified,
    Added,
    Deleted,
}

impl FileStatus {
    /// The one-letter code shown beside the file (`M`, `A`, `D`).
    pub fn as_str(self) -> (s: &'static str)
        ensures
            s@ == status_letter(self),
    {
        match self {
            FileStatus::Modified => "M",
            FileStatus::Added => "A",
            FileStatus::Deleted => "D",
        }
    }
}

/// The one-letter code of a status.
pub open spec fn status_letter(s: FileStatus) -> Seq<char> {
    match s {
        FileStatus::Modified => "M"@,
        FileStatus::Added => "A"@,
        FileStatus::Deleted => "D"@,
    }
}

/// One file of a review: its path, its part of the patch and line counts.
pub struct ReviewFile {
    pub path: String,
    pub patch: String,
    pub section: ReviewSection,
    pub status: FileStatus,
    pub additions: usize,
    pub deletions: usize,
}

/// Mathematical value of a review file.
pub struct FileView {
    pub path: Seq<char>,
    pub patch: Seq<char>,
    pub section: ReviewSection,
    pub status: FileStatus,
    pub additions: nat,
    pub deletions: nat,
}

impl View for ReviewFile {
    type V = FileView;

    open spec fn view(&self) -> FileView {
        FileView {
            path: self.path@,
            patch: self.patch@,
            section: self.section,
            status: self.status,
            additions: self.additions as nat,
            deletions: self.deletions as nat,
        }
    }
}

/// Mathematical values of a list of review files.
pub open spec fn file_views(files: Seq<ReviewFile>) -> Seq<FileView> {
    files.map_values(|f: ReviewFile| f@)
}

/// Length of the first line of `s`, its newline included.
pub open spec fn line_len(s: Seq<char>) -> nat
    decreases s.len(),
{
    if s.len() == 0 {
        0
    } else if s[0] == '\n' {
        1
    } else {
        1 + line_len(s.drop_first())
    }
}

pub proof fn lemma_line_len_bounds(s: Seq<char>)
    ensures
        line_len(s) <= s.len(),
        s.len() > 0 ==> line_len(s) >= 1,
    decreases s.len(),
{
    if s.len() > 0 && s[0] != '\n' {
        lemma_line_len_bounds(s.drop_first());
    }
}

/// The lines of `s`, each with its terminating newline (`split_inclusive('\n')`).
pub open spec fn lines(s: Seq<char>) -> Seq<Seq<char>>
    decreases s.len(),
{
    if s.len() == 0 {
        Seq::empty()
    } else {
        proof {
            lemma_line_len_bounds(s);
        }
        seq![s.take(line_len(s) as int)] + lines(s.skip(line_len(s) as int))
    }
}

/// `s` without its trailing newlines (`trim_end_matches('\n')`).
pub open spec fn trim_newlines(s: Seq<char>) -> Seq<char>
    decreases s.len(),
{
    if s.len() > 0 && s.last() == '\n' {
        trim_newlines(s.drop_last())
    } else {
        s
    }
}

/// `1` when `line` starts with `c`, else `0`.
pub open spec fn starts_count(line: Seq<char>, c: char) -> nat {
    if line.len() > 0 && line[0] == c {
        1
    } else {
        0
    }
}

/// Files found so far while reading a patch, and whether a hunk is open.
pub struct PatchState {
    pub files: Seq<FileView>,
    pub in_hunk: bool,
}

/// Reading one line: a `diff --` line opens a new file; inside a hunk `+`
/// and `-` lines are counted; before the first hunk `new file mode` and
/// `deleted file mode` set the status; every line joins the current file.
pub open spec fn read_line(st: PatchState, line: Seq<char>, section: ReviewSection) -> PatchState {
    let opened = if has_prefix(line, "diff --"@) {
        PatchState {
            files: st.files.push(
                FileView {
                    path: header_path(trim_newlines(line)),
                    patch: Seq::empty(),
                    section,
                    status: FileStatus::Modified,
                    additions: 0,
                    deletions: 0,
                },
            ),
            in_hunk: false,
        }
    } else {
        st
    };
    if opened.files.len() == 0 {
        opened
    } else {
        let f = opened.files.last();
        let in_hunk = opened.in_hunk || has_prefix(line, "@@"@);
        let counted = if in_hunk {
            FileView {
                additions: f.additions + starts_count(line, '+'),
                deletions: f.deletions + starts_count(line, '-'),
                ..f
            }
        } else if has_prefix(line, "new file mode "@) {
            FileView { status: FileStatus::Added, ..f }
        } else if has_prefix(line, "deleted file mode "@) {
            FileView { status: FileStatus::Deleted, ..f }
        } else {
            f
        };
        PatchState {
            files: opened.files.update(
                opened.files.len() - 1,
                FileView { patch: counted.patch + line, ..counted },
            ),
            in_hunk,
        }
    }
}

/// Reading a sequence of lines from a state.
pub open spec fn read_lines(st: PatchState, ls: Seq<Seq<char>>, section: ReviewSection) -> PatchState
    decreases ls.len(),
{
    if ls.len() == 0 {
        st
    } else {
        read_lines(read_line(st, ls[0], section), ls.drop_first(), section)
    }
}

/// The files of a patch: one per `diff --` header; a non-empty patch without
/// any header becomes a single file named `HEAD`.
pub open spec fn split_files(patch: Seq<char>, section: ReviewSection) -> Seq<FileView> {
    let st = read_lines(PatchState { files: Seq::empty(), in_hunk: false }, lines(patch), section);
    if st.files.len() == 0 && patch.len() > 0 {
        seq![
            FileView {
                path: "HEAD"@,
                patch,
                section,
                status: FileStatus::Modified,
                additions: 0,
                deletions: 0,
            },
        ]
    } else {
        st.files
    }
}

proof fn lemma_line_len_scan(s: Seq<char>, m: int)
    requires
        0 <= m <= s.len(),
        forall|j: int| 0 <= j < m ==> s[j] != '\n',
        m == s.len() || s[m] == '\n',
    ensures
        line_len(s) == if m == s.len() { m } else { m + 1 },
    decreases m,
{
    if m > 0 {
        lemma_line_len_scan(s.drop_first(), m - 1);
    }
}

proof fn lemma_lines_step(s: Seq<char>, pos: int, end: int)
    requires
        0 <= pos < end <= s.len(),
        line_len(s.skip(pos)) == end - pos,
    ensures
        lines(s.skip(pos)) == seq![s.subrange(pos, end)] + lines(s.skip(end)),
{
    let t = s.skip(pos);
    assert(t.take(end - pos) =~= s.subrange(pos, end));
    assert(t.skip(end - pos) =~= s.skip(end));
}

/// `line` without its trailing newlines.
fn trim_newlines_chars(line: &[char]) -> (r: Vec<char>)
    ensures
        r@ == trim_newlines(line@),
{
    let mut end = line.len();
    assert(line@.take(end as int) =~= line@);
    while end > 0 && line[end - 1] == '\n'
        invariant
            end <= line@.len(),
            trim_newlines(line@) == trim_newlines(line@.take(end as int)),
        decreases end,
    {
        assert(line@.take(end as int).drop_last() =~= line@.take(end - 1));
        end = end - 1;
    }
    assert(line@.take(line@.len() as int) =~= line@);
    chars_until(line, end)
}


/// Every file counts no more added and removed lines than characters of its
/// patch, and no patch is longer than `bound`.
#[verifier::opaque]
spec fn counts_bounded(files: Seq<ReviewFile>, bound: int) -> bool {
    forall|i: int|
        0 <= i < files.len() ==> #[trigger] files[i].additions + files[i].deletions
            <= files[i].patch@.len() <= bound
}

/// Applies one line of a patch to the files read so far; returns whether a
/// hunk is open afterwards.
#[verifier::spinoff_prover]
fn read_line_into(
    files: &mut Vec<ReviewFile>,
    in_hunk: bool,
    line: &Vec<char>,
    section: ReviewSection,
    pos: usize,
) -> (hunk_open: bool)
    requires
        line@.len() >= 1,
        pos + line@.len() <= usize::MAX,
        counts_bounded(old(files)@, pos as int),
    ensures
        (PatchState { files: file_views(final(files)@), in_hunk: hunk_open }) == read_line(
            (PatchState { files: file_views(old(files)@), in_hunk }),
            line@,
            section,
        ),
        counts_bounded(final(files)@, pos + line@.len()),
{
    reveal(counts_bounded);
    let diff = to_chars("diff --");
    let hunk = to_chars("@@");
    let new_mode = to_chars("new file mode ");
    let deleted_mode = to_chars("deleted file mode ");
    let mut in_hunk = in_hunk;
    let ghost st = PatchState { files: file_views(files@), in_hunk };
    let ghost orig = files@;
    assert(orig == old(files)@);
    assert(counts_bounded(orig, pos as int));
    if starts_with(line.as_slice(), diff.as_slice()) {
        let header = from_chars(trim_newlines_chars(line.as_slice()).as_slice());
        let path = patch_path(header.as_str());
        files.push(
            ReviewFile {
                path,
                patch: String::new(),
                section,
                status: FileStatus::Modified,
                additions: 0,
                deletions: 0,
            },
        );
        in_hunk = false;
    }
    let ghost opened = PatchState { files: file_views(files@), in_hunk };
    assert forall|i: int| 0 <= i < files@.len() implies #[trigger] files@[i].additions
        + files@[i].deletions <= files@[i].patch@.len() <= pos by {
        if i < orig.len() {
            assert(files@[i] == orig[i]);
            assert(orig[i].additions + orig[i].deletions <= orig[i].patch@.len() <= pos);
        }
    }
    assert(opened == (if has_prefix(line@, "diff --"@) {
        PatchState {
            files: st.files.push(
                FileView {
                    path: header_path(trim_newlines(line@)),
                    patch: Seq::empty(),
                    section,
                    status: FileStatus::Modified,
                    additions: 0,
                    deletions: 0,
                },
            ),
            in_hunk: false,
        }
    } else {
        st
    })) by {
        if has_prefix(line@, "diff --"@) {
            assert(file_views(files@) =~= st.files.push(file_views(files@).last()));
        }
    }
    if files.len() > 0 {
        let ghost pre = files@;
        assert(pre[pre.len() - 1].additions + pre[pre.len() - 1].deletions
            <= pre[pre.len() - 1].patch@.len() <= pos);
        let mut f = files.pop().unwrap();
        let ghost f0 = f@;
        let ghost popped = files@;
        assert(f == pre[pre.len() - 1]);
        assert(f0.additions + f0.deletions <= f0.patch.len() <= pos);
        assert(forall|i: int| 0 <= i < popped.len() ==> popped[i] == pre[i]);
        assert(file_views(popped) =~= opened.files.drop_last());
        if starts_with(line.as_slice(), hunk.as_slice()) {
            in_hunk = true;
        }
        if in_hunk {
            if line.len() > 0 && line[0] == '+' {
                f.additions = f.additions + 1;
            }
            if line.len() > 0 && line[0] == '-' {
                f.deletions = f.deletions + 1;
            }
        } else if starts_with(line.as_slice(), new_mode.as_slice()) {
            f.status = FileStatus::Added;
        } else if starts_with(line.as_slice(), deleted_mode.as_slice()) {
            f.status = FileStatus::Deleted;
        }
        assert(f.additions + f.deletions <= f0.additions + f0.deletions + 1);
        let piece = from_chars(line.as_slice());
        f.patch.append(piece.as_str());
        assert(f.patch@.len() == f0.patch.len() + line@.len());
        let ghost last = f;
        assert(last.additions + last.deletions <= last.patch@.len() <= pos + line@.len());
        files.push(f);
        assert(forall|i: int|
            0 <= i < files@.len() - 1 ==> files@[i] == popped[i]);
        assert(files@[files@.len() - 1] == last);
        assert(forall|i: int|
            0 <= i < files@.len() ==> #[trigger] files@[i].additions + files@[i].deletions
                <= files@[i].patch@.len() <= pos + line@.len()) by {
            assert forall|i: int| 0 <= i < files@.len() implies #[trigger] files@[i].additions
                + files@[i].deletions <= files@[i].patch@.len() <= pos + line@.len() by {
                if i < files@.len() - 1 {
                    assert(files@[i] == popped[i]);
                    assert(popped[i] == pre[i]);
                    assert(pre[i].additions + pre[i].deletions <= pre[i].patch@.len() <= pos);
                } else {
                    assert(files@[i] == last);
                }
            }
        }
        assert(file_views(files@) =~= opened.files.update(opened.files.len() - 1, f@));
    }
    assert(PatchState { files: file_views(files@), in_hunk } == read_line(st, line@, section));
    in_hunk
}

/// Splits `git diff` output into one review file per `diff --` header.
pub fn patch_files(patch: &str, section: ReviewSection) -> (files: Vec<ReviewFile>)
    ensures
        file_views(files@) == split_files(patch@, section),
{
    let s = to_chars(patch);
    let n = s.len();
    let mut files: Vec<ReviewFile> = Vec::new();
    let mut in_hunk = false;
    let mut pos: usize = 0;
    let ghost init = PatchState { files: Seq::empty(), in_hunk: false };
    assert(s@.skip(0) =~= s@);
    assert(file_views(files@) =~= Seq::<FileView>::empty());
    assert(counts_bounded(files@, 0)) by {
        reveal(counts_bounded);
    }
    while pos < n
        invariant
            pos <= n,
            n == s@.len(),
            read_lines(init, lines(s@), section) == read_lines(
                (PatchState { files: file_views(files@), in_hunk }),
                lines(s@.skip(pos as int)),
                section,
            ),
            counts_bounded(files@, pos as int),
        decreases n - pos,
    {
        let mut end = pos;
        while end < n && s[end] != '\n'
            invariant
                pos <= end <= n,
                n == s@.len(),
                forall|j: int| pos <= j < end ==> s@[j] != '\n',
            decreases n - end,
        {
            end = end + 1;
        }
        proof {
            lemma_line_len_scan(s@.skip(pos as int), end - pos);
        }
        if end < n {
            end = end + 1;
        }
        proof {
            lemma_lines_step(s@, pos as int, end as int);
        }
        let line = chars_from(chars_until(s.as_slice(), end).as_slice(), pos);
        assert(line@ =~= s@.subrange(pos as int, end as int));
        assert(pos + line@.len() == end);
        let ghost before = PatchState { files: file_views(files@), in_hunk };
        in_hunk = read_line_into(&mut files, in_hunk, &line, section, pos);
        assert(counts_bounded(files@, end as int));
        proof {
            let ls = seq![line@] + lines(s@.skip(end as int));
            assert(ls[0] == line@);
            assert(ls.drop_first() =~= lines(s@.skip(end as int)));
        }
        pos = end;
    }
    assert(s@.skip(n as int) =~= Seq::<char>::empty());
    if files.len() == 0 && !patch.is_empty() {
        files.push(
            ReviewFile {
                path: "HEAD".to_owned(),
                patch: patch.to_owned(),
                section,
                status: FileStatus::Modified,
                additions: 0,
                deletions: 0,
            },
        );
        assert(file_views(files@) =~= split_files(patch@, section));
    }
    files
}

} // verus!

verus! {

/// Mathematical values of a list of character vectors.
pub open spec fn char_views(v: Seq<Vec<char>>) -> Seq<Seq<char>> {
    v.map_values(|x: Vec<char>| x@)
}

/// The lines of `s`, each with its newline (`split_inclusive('\n')`).
pub fn split_lines(s: &[char]) -> (r: Vec<Vec<char>>)
    ensures
        char_views(r@) == lines(s@),
{
    let n = s.len();
    let mut r: Vec<Vec<char>> = Vec::new();
    let mut pos: usize = 0;
    assert(s@.skip(0) =~= s@);
    assert(char_views(r@) =~= Seq::<Seq<char>>::empty());
    while pos < n
        invariant
            pos <= n,
            n == s@.len(),
            lines(s@) == char_views(r@) + lines(s@.skip(pos as int)),
        decreases n - pos,
    {
        let mut end = pos;
        while end < n && s[end] != '\n'
            invariant
                pos <= end <= n,
                n == s@.len(),
                forall|j: int| pos <= j < end ==> s@[j] != '\n',
            decreases n - end,
        {
            end = end + 1;
        }
        proof {
            lemma_line_len_scan(s@.skip(pos as int), end - pos);
        }
        if end < n {
            end = end + 1;
        }
        proof {
            lemma_lines_step(s@, pos as int, end as int);
        }
        let line = chars_from(chars_until(s, end).as_slice(), pos);
        assert(line@ =~= s@.subrange(pos as int, end as int));
        let ghost before = char_views(r@);
        r.push(line);
        assert(char_views(r@) =~= before.push(line@));
        assert(before + (seq![line@] + lines(s@.skip(end as int))) =~= char_views(r@) + lines(
            s@.skip(end as int),
        ));
        pos = end;
    }
    assert(s@.skip(n as int) =~= Seq::<char>::empty());
    assert(char_views(r@) + Seq::<Seq<char>>::empty() =~= char_views(r@));
    r
}

/// The text of a line without its line ending (`str::lines`): a final `\n`
/// is removed, and then a `\r` before it.
pub open spec fn line_content(l: Seq<char>) -> Seq<char> {
    if l.len() > 0 && l.last() == '\n' {
        let t = l.drop_last();
        if t.len() > 0 && t.last() == '\r' {
            t.drop_last()
        } else {
            t
        }
    } else {
        l
    }
}

/// A line that records a change of file mode.
pub open spec fn is_mode_line(l: Seq<char>) -> bool {
    has_prefix(l, "old mode "@) || has_prefix(l, "new mode "@) || has_prefix(l, "new file mode "@)
        || has_prefix(l, "deleted file mode "@)
}

/// The mode lines among `ls`, without their line endings.
pub open spec fn mode_lines(ls: Seq<Seq<char>>) -> Seq<Seq<char>>
    decreases ls.len(),
{
    if ls.len() == 0 {
        Seq::empty()
    } else if is_mode_line(line_content(ls.last())) {
        mode_lines(ls.drop_last()).push(line_content(ls.last()))
    } else {
        mode_lines(ls.drop_last())
    }
}

/// `ls` joined with newlines.
pub open spec fn join_lines(ls: Seq<Seq<char>>) -> Seq<char>
    decreases ls.len(),
{
    if ls.len() == 0 {
        Seq::empty()
    } else if ls.len() == 1 {
        ls[0]
    } else {
        join_lines(ls.drop_last()) + seq!['\n'] + ls.last()
    }
}

/// Every line of `ls` with a `+` in front.
pub open spec fn added_lines(ls: Seq<Seq<char>>) -> Seq<char>
    decreases ls.len(),
{
    if ls.len() == 0 {
        Seq::empty()
    } else {
        added_lines(ls.drop_last()) + seq!['+'] + ls.last()
    }
}

/// The position of the first occurrence of `n` in `h`.
pub open spec fn first_occurrence(h: Seq<char>, n: Seq<char>) -> int {
    choose|i: int| occurs_at(h, n, i) && forall|k: int| 0 <= k < i ==> !occurs_at(h, n, k)
}

/// An untracked file whose content is shown as binary.
pub open spec fn looks_binary(text: Seq<char>) -> bool {
    contains_seq(text, seq!['\0']) || has_prefix(text, "二进制文件（"@)
}

/// What the review shows for a file: the text and whether it is a diff.
/// Untracked text files become a single all-added hunk; patches show from
/// their first hunk header on; binary patches and bare mode changes get a
/// short note.
pub open spec fn detail_text(patch: Seq<char>, section: ReviewSection, l: Language) -> (
    Seq<char>,
    bool,
) {
    if section == ReviewSection::Untracked {
        if looks_binary(patch) {
            (translation(l, Text::BinaryFile), false)
        } else if patch.len() == 0 {
            (translation(l, Text::EmptyFile), false)
        } else {
            (
                "@@ -0,0 +1,"@ + decimal(lines(patch).len()) + " @@\n"@ + added_lines(lines(patch)),
                true,
            )
        }
    } else if contains_seq(patch, "\n@@"@) {
        (patch.skip(first_occurrence(patch, "\n@@"@) + 1), true)
    } else if contains_seq(patch, "GIT binary patch"@) || contains_seq(patch, "Binary files "@) {
        (translation(l, Text::BinaryFile), false)
    } else {
        let metadata = join_lines(mode_lines(lines(patch)));
        (
            if metadata.len() == 0 {
                patch
            } else {
                metadata
            },
            false,
        )
    }
}

/// A file shown in the review's code view.
pub struct ToolDetail {
    pub title: String,
    pub text: String,
    pub language: String,
    pub diff: bool,
}

/// The section whose label names a review section.
pub open spec fn section_text(s: ReviewSection) -> Text {
    match s {
        ReviewSection::Unstaged => Text::ReviewUnstaged,
        ReviewSection::Untracked => Text::ReviewUntracked,
        ReviewSection::Staged => Text::ReviewStaged,
        ReviewSection::Committed => Text::ReviewCommitted,
        ReviewSection::Merge => Text::ReviewMerge,
        ReviewSection::Resolution => Text::ReviewResolution,
        ReviewSection::ResolutionStaged => Text::ReviewResolutionStaged,
    }
}

impl ReviewSection {
    /// The heading of this section.
    pub fn label(self, locale: Language) -> (s: &'static str)
        ensures
            s@ == translation(locale, section_text(self)),
    {
        locale.text(
            match self {
                ReviewSection::Unstaged => Text::ReviewUnstaged,
                ReviewSection::Untracked => Text::ReviewUntracked,
                ReviewSection::Staged => Text::ReviewStaged,
                ReviewSection::Committed => Text::ReviewCommitted,
                ReviewSection::Merge => Text::ReviewMerge,
                ReviewSection::Resolution => Text::ReviewResolution,
                ReviewSection::ResolutionStaged => Text::ReviewResolutionStaged,
            },
        )
    }
}

/// `Path::extension` followed by `OsStr::to_str`: claims that an extension
/// found is text after a `.` in the path and holds no `.` itself, and that on
/// a path written with `/` only it is the text after the last `.` of the
/// file name, none when the name has no `.` but a leading one.
#[verifier::external_body]
fn path_extension(path: &str) -> (r: Option<String>)
    ensures
        r matches Some(e) ==> contains_seq(path@, seq!['.'] + e@) && !contains_seq(e@, seq!['.']),
        portable_path(path@) ==> match r {
            Some(e) => extension_of(path@) == Some(e@),
            None => extension_of(path@) is None,
        },
{
    std::path::Path::new(path).extension().and_then(|e| e.to_str()).map(|e| e.to_owned())
}

/// Appends `line` with a `+` in front.
fn push_added(out: &mut Vec<char>, line: &[char])
    ensures
        final(out)@ == old(out)@ + seq!['+'] + line@,
{
    out.push('+');
    push_all(out, line);
}

/// The text of a line without its line ending.
fn line_content_chars(l: &[char]) -> (r: Vec<char>)
    ensures
        r@ == line_content(l@),
{
    let n = l.len();
    if n > 0 && l[n - 1] == '\n' {
        if n > 1 && l[n - 2] == '\r' {
            chars_until(l, n - 2)
        } else {
            chars_until(l, n - 1)
        }
    } else {
        chars_until(l, n)
    }
}

/// Body of an untracked text file as one all-added hunk.
fn untracked_hunk(p: &[char]) -> (r: Vec<char>)
    ensures
        r@ == "@@ -0,0 +1,"@ + decimal(lines(p@).len()) + " @@\n"@ + added_lines(lines(p@)),
{
    let ls = split_lines(p);
    let mut out = to_chars("@@ -0,0 +1,");
    push_all(&mut out, decimal_chars(ls.len()).as_slice());
    push_all(&mut out, to_chars(" @@\n").as_slice());
    let ghost head = out@;
    let mut i: usize = 0;
    while i < ls.len()
        invariant
            i <= ls@.len(),
            char_views(ls@) == lines(p@),
            out@ == head + added_lines(char_views(ls@).take(i as int)),
        decreases ls.len() - i,
    {
        push_added(&mut out, ls[i].as_slice());
        assert(char_views(ls@).take(i + 1).drop_last() =~= char_views(ls@).take(i as int));
        i = i + 1;
    }
    assert(char_views(ls@).take(ls@.len() as int) =~= char_views(ls@));
    out
}

/// Mode-change lines of a patch joined with newlines.
fn mode_metadata(p: &[char]) -> (r: Vec<char>)
    ensures
        r@ == join_lines(mode_lines(lines(p@))),
{
    let ls = split_lines(p);
    let mut picked: Vec<Vec<char>> = Vec::new();
    let old_mode = to_chars("old mode ");
    let new_mode = to_chars("new mode ");
    let new_file = to_chars("new file mode ");
    let deleted = to_chars("deleted file mode ");
    let mut i: usize = 0;
    while i < ls.len()
        invariant
            i <= ls@.len(),
            char_views(ls@) == lines(p@),
            old_mode@ == "old mode "@,
            new_mode@ == "new mode "@,
            new_file@ == "new file mode "@,
            deleted@ == "deleted file mode "@,
            char_views(picked@) == mode_lines(char_views(ls@).take(i as int)),
        decreases ls.len() - i,
    {
        let c = line_content_chars(ls[i].as_slice());
        assert(char_views(ls@).take(i + 1).drop_last() =~= char_views(ls@).take(i as int));
        assert(char_views(ls@).take(i + 1).last() == ls@[i as int]@);
        if starts_with(c.as_slice(), old_mode.as_slice()) || starts_with(
            c.as_slice(),
            new_mode.as_slice(),
        ) || starts_with(c.as_slice(), new_file.as_slice()) || starts_with(
            c.as_slice(),
            deleted.as_slice(),
        ) {
            let ghost before = char_views(picked@);
            picked.push(c);
            assert(char_views(picked@) =~= before.push(c@));
        }
        i = i + 1;
    }
    assert(char_views(ls@).take(ls@.len() as int) =~= char_views(ls@));
    let mut out: Vec<char> = Vec::new();
    let mut j: usize = 0;
    while j < picked.len()
        invariant
            j <= picked@.len(),
            out@ == join_lines(char_views(picked@).take(j as int)),
        decreases picked.len() - j,
    {
        assert(char_views(picked@).take(j + 1).drop_last() =~= char_views(picked@).take(j as int));
        if j > 0 {
            out.push('\n');
        } else {
            assert(char_views(picked@).take(1)[0] == picked@[0]@);
        }
        push_all(&mut out, picked[j].as_slice());
        j = j + 1;
    }
    assert(char_views(picked@).take(picked@.len() as int) =~= char_views(picked@));
    out
}

impl ReviewFile {
    /// The section and path that identify this file in the review.
    pub fn key(&self) -> (k: (ReviewSection, String))
        ensures
            k.0 == self.section,
            k.1@ == self.path@,
    {
        (self.section, self.path.clone())
    }

    /// The code view of this file; its language is the path's extension, or
    /// `text` when the path has none.
    pub fn detail(&self, locale: Language) -> (d: ToolDetail)
        ensures
            d.title@ == self.path@,
            (d.text@, d.diff) == detail_text(self.patch@, self.section, locale),
            d.language@ == "text"@ || (contains_seq(self.path@, seq!['.'] + d.language@)
                && !contains_seq(d.language@, seq!['.'])),
            portable_path(self.path@) ==> d.language@ == match extension_of(self.path@) {
                Some(e) => e,
                None => "text"@,
            },
    {
        let extension = path_extension(self.path.as_str());
        self.detail_with_extension(locale, extension)
    }

    /// The code view of this file, given the extension of its path; files
    /// without an extension are shown as `text`.
    pub fn detail_with_extension(&self, locale: Language, extension: Option<String>) -> (d:
        ToolDetail)
        ensures
            d.title@ == self.path@,
            (d.text@, d.diff) == detail_text(self.patch@, self.section, locale),
            d.language@ == match extension {
                Some(e) => e@,
                None => "text"@,
            },
    {
        let p = to_chars(self.patch.as_str());
        let plen = p.len();
        proof {
            reveal_strlit("\0");
            assert("\0"@ =~= seq!['\0']);
        }
        let (text, diff): (Vec<char>, bool) = if self.section == ReviewSection::Untracked {
            if contains(p.as_slice(), to_chars("\0").as_slice()) || starts_with(
                p.as_slice(),
                to_chars("二进制文件（").as_slice(),
            ) {
                assert(looks_binary(p@));
                (to_chars(locale.text(Text::BinaryFile)), false)
            } else if p.len() == 0 {
                assert(!looks_binary(p@));
                (to_chars(locale.text(Text::EmptyFile)), false)
            } else {
                assert(!looks_binary(p@));
                (untracked_hunk(p.as_slice()), true)
            }
        } else {
            let marker = to_chars("\n@@");
            match find(p.as_slice(), marker.as_slice()) {
                Some(index) => {
                    proof {
                        reveal_strlit("\n@@");
                        let c = first_occurrence(p@, "\n@@"@);
                        assert(occurs_at(p@, "\n@@"@, index as int));
                        assert(contains_seq(p@, "\n@@"@));
                        assert(occurs_at(p@, "\n@@"@, c) && forall|k: int|
                            0 <= k < c ==> !occurs_at(p@, "\n@@"@, k));
                        if c < index {
                        } else if c > index {
                        }
                        assert(c == index);
                        assert(index + 3 <= plen);
                    }
                    let body = chars_from(p.as_slice(), index + 1);
                    assert((body@, true) == detail_text(p@, self.section, locale));
                    (body, true)
                },
                None => {
                    if contains(p.as_slice(), to_chars("GIT binary patch").as_slice()) || contains(
                        p.as_slice(),
                        to_chars("Binary files ").as_slice(),
                    ) {
                        (to_chars(locale.text(Text::BinaryFile)), false)
                    } else {
                        assert(!contains_seq(p@, "\n@@"@));
                        let metadata = mode_metadata(p.as_slice());
                        if metadata.len() == 0 {
                            (p, false)
                        } else {
                            (metadata, false)
                        }
                    }
                },
            }
        };
        let language = match extension {
            Some(e) => e,
            None => "text".to_owned(),
        };
        ToolDetail { title: self.path.clone(), text: from_chars(text.as_slice()), language, diff }
    }
}

} // verus!

verus! {

/// The patches of a workspace under review.
pub struct WorkspaceReview {
    pub unstaged: String,
    pub staged: String,
    pub committed: String,
    pub resolution_diff: String,
    pub resolution_staged: String,
    /// Untracked files: path and content.
    pub untracked: Vec<(String, String)>,
}

/// A planned merge of the workspace.
pub struct MergePlan {
    pub diff: String,
}

/// The review entry of an untracked file: an added file whose every line is
/// an addition (binary content counts none).
pub open spec fn untracked_file(path: Seq<char>, text: Seq<char>) -> FileView {
    FileView {
        path,
        patch: text,
        section: ReviewSection::Untracked,
        status: FileStatus::Added,
        additions: if looks_binary(text) {
            0
        } else {
            lines(text).len()
        },
        deletions: 0,
    }
}

/// Review entries of the untracked files, in order.
pub open spec fn untracked_files(u: Seq<(String, String)>) -> Seq<FileView> {
    u.map_values(|e: (String, String)| untracked_file(e.0@, e.1@))
}

/// Every file of a review, in the order the review lists them: merge preview,
/// conflict resolution, staged resolution, unstaged, untracked, staged,
/// committed.
pub open spec fn all_review_files(review: WorkspaceReview, plan_diff: Seq<char>) -> Seq<FileView> {
    split_files(plan_diff, ReviewSection::Merge) + split_files(
        review.resolution_diff@,
        ReviewSection::Resolution,
    ) + split_files(review.resolution_staged@, ReviewSection::ResolutionStaged) + split_files(
        review.unstaged@,
        ReviewSection::Unstaged,
    ) + untracked_files(review.untracked@) + split_files(review.staged@, ReviewSection::Staged)
        + split_files(review.committed@, ReviewSection::Committed)
}

/// Appends the files of `more` to `files`.
fn extend_files(files: &mut Vec<ReviewFile>, more: Vec<ReviewFile>)
    ensures
        file_views(final(files)@) == file_views(old(files)@) + file_views(more@),
{
    let mut more = more;
    let ghost added = more@;
    files.append(&mut more);
    assert(file_views(files@) =~= file_views(old(files)@) + file_views(added));
}

/// Every file of a review, in the order the review lists them.
pub fn review_files(review: &WorkspaceReview, plan: Option<&MergePlan>) -> (files: Vec<ReviewFile>)
    ensures
        file_views(files@) == all_review_files(
            *review,
            match plan {
                Some(p) => p.diff@,
                None => Seq::empty(),
            },
        ),
{
    let mut files: Vec<ReviewFile> = Vec::new();
    let merge: &str = match plan {
        Some(p) => p.diff.as_str(),
        None => "",
    };
    proof {
        reveal_strlit("");
    }
    extend_files(&mut files, patch_files(merge, ReviewSection::Merge));
    extend_files(
        &mut files,
        patch_files(review.resolution_diff.as_str(), ReviewSection::Resolution),
    );
    extend_files(
        &mut files,
        patch_files(review.resolution_staged.as_str(), ReviewSection::ResolutionStaged),
    );
    extend_files(&mut files, patch_files(review.unstaged.as_str(), ReviewSection::Unstaged));
    let ghost before_untracked = file_views(files@);
    let mut i: usize = 0;
    while i < review.untracked.len()
        invariant
            i <= review.untracked@.len(),
            file_views(files@) == before_untracked + untracked_files(
                review.untracked@.take(i as int),
            ),
        decreases review.untracked.len() - i,
    {
        let (path, text) = &review.untracked[i];
        proof {
            reveal_strlit("\0");
            assert("\0"@ =~= seq!['\0']);
        }
        let t = to_chars(text.as_str());
        let binary = contains(t.as_slice(), to_chars("\0").as_slice()) || starts_with(
            t.as_slice(),
            to_chars("二进制文件（").as_slice(),
        );
        assert(binary == looks_binary(text@));
        let additions = if binary {
            0
        } else {
            let ls = split_lines(t.as_slice());
            assert(char_views(ls@).len() == ls@.len());
            ls.len()
        };
        assert(additions as nat == untracked_file(path@, text@).additions);
        let ghost before = file_views(files@);
        files.push(
            ReviewFile {
                path: path.clone(),
                patch: text.clone(),
                section: ReviewSection::Untracked,
                status: FileStatus::Added,
                additions,
                deletions: 0,
            },
        );
        assert(file_views(files@) =~= before.push(untracked_file(path@, text@)));
        assert(untracked_files(review.untracked@.take(i + 1)) =~= untracked_files(
            review.untracked@.take(i as int),
        ).push(untracked_file(path@, text@)));
        i = i + 1;
    }
    assert(review.untracked@.take(review.untracked@.len() as int) =~= review.untracked@);
    extend_files(&mut files, patch_files(review.staged.as_str(), ReviewSection::Staged));
    extend_files(&mut files, patch_files(review.committed.as_str(), ReviewSection::Committed));
    files
}


/// The lines `ls` written one after the other.
pub open spec fn join_all(ls: Seq<Seq<char>>) -> Seq<char>
    decreases ls.len(),
{
    if ls.len() == 0 {
        Seq::empty()
    } else {
        ls[0] + join_all(ls.drop_first())
    }
}

/// The patches of `fs` written one after the other.
pub open spec fn concat_patches(fs: Seq<FileView>) -> Seq<char>
    decreases fs.len(),
{
    if fs.len() == 0 {
        Seq::empty()
    } else {
        concat_patches(fs.drop_last()) + fs.last().patch
    }
}

proof fn lemma_join_lines(s: Seq<char>)
    ensures
        join_all(lines(s)) == s,
    decreases s.len(),
{
    if s.len() > 0 {
        lemma_line_len_bounds(s);
        let n = line_len(s) as int;
        lemma_join_lines(s.skip(n));
        let ls = lines(s);
        assert(ls[0] == s.take(n));
        assert(ls.drop_first() =~= lines(s.skip(n)));
        assert(s.take(n) + s.skip(n) =~= s);
    }
}

proof fn lemma_line_len_at_least(s: Seq<char>, m: int)
    requires
        0 <= m <= s.len(),
        forall|j: int| 0 <= j < m ==> s[j] != '\n',
    ensures
        line_len(s) >= m,
    decreases m,
{
    if m > 0 {
        lemma_line_len_at_least(s.drop_first(), m - 1);
    }
}

proof fn lemma_read_line_appends(st: PatchState, line: Seq<char>, section: ReviewSection)
    requires
        st.files.len() > 0 || has_prefix(line, "diff --"@),
    ensures
        read_line(st, line, section).files.len() > 0,
        concat_patches(read_line(st, line, section).files) == concat_patches(st.files) + line,
{
    let r = read_line(st, line, section);
    if has_prefix(line, "diff --"@) {
        assert(r.files.drop_last() =~= st.files);
        assert(r.files.last().patch =~= Seq::<char>::empty() + line);
    } else {
        assert(r.files.drop_last() =~= st.files.drop_last());
        assert(concat_patches(st.files) == concat_patches(st.files.drop_last()) + st.files.last().patch);
    }
}


proof fn lemma_read_lines_appends(st: PatchState, ls: Seq<Seq<char>>, section: ReviewSection)
    requires
        st.files.len() > 0,
    ensures
        read_lines(st, ls, section).files.len() > 0,
        concat_patches(read_lines(st, ls, section).files) == concat_patches(st.files) + join_all(ls),
    decreases ls.len(),
{
    if ls.len() > 0 {
        lemma_read_line_appends(st, ls[0], section);
        let next = read_line(st, ls[0], section);
        lemma_read_lines_appends(next, ls.drop_first(), section);
        assert(concat_patches(st.files) + ls[0] + join_all(ls.drop_first()) =~= concat_patches(
            st.files,
        ) + join_all(ls));
    } else {
        assert(concat_patches(st.files) + join_all(ls) =~= concat_patches(st.files));
    }
}

/// A patch that starts with a `diff --` header is shared out without loss:
/// the files' patches, one after the other, give back the whole patch.
pub proof fn lemma_patch_files_cover(patch: Seq<char>, section: ReviewSection)
    requires
        has_prefix(patch, "diff --"@),
    ensures
        split_files(patch, section).len() > 0,
        concat_patches(split_files(patch, section)) == patch,
{
    reveal_strlit("diff --");
    let init = PatchState { files: Seq::empty(), in_hunk: false };
    let ls = lines(patch);
    assert forall|j: int| 0 <= j < 7 implies patch[j] != '\n' by {
        assert(patch.subrange(0, 7)[j] == patch[j]);
    }
    lemma_line_len_at_least(patch, 7);
    lemma_line_len_bounds(patch);
    let first = patch.take(line_len(patch) as int);
    assert(ls[0] == first);
    assert(first.subrange(0, 7) =~= patch.subrange(0, 7));
    assert(has_prefix(first, "diff --"@));
    lemma_read_line_appends(init, first, section);
    let next = read_line(init, first, section);
    assert(concat_patches(init.files) == Seq::<char>::empty());
    lemma_read_lines_appends(next, ls.drop_first(), section);
    assert(read_lines(init, ls, section) == read_lines(next, ls.drop_first(), section));
    lemma_join_lines(patch);
    assert(join_all(ls) == first + join_all(ls.drop_first()));
    assert(Seq::<char>::empty() + first =~= first);
}


/// A patch of a tracked file with no hunk that git reports as binary (a
/// `Binary files ` line or a `GIT binary patch`) is shown as the binary-file
/// note, never as its raw text, and not as a diff.
pub proof fn lemma_binary_patch_shows_note(patch: Seq<char>, section: ReviewSection, l: Language)
    requires
        section != ReviewSection::Untracked,
        !contains_seq(patch, "\n@@"@),
        contains_seq(patch, "Binary files "@) || contains_seq(patch, "GIT binary patch"@),
    ensures
        detail_text(patch, section, l) == (translation(l, Text::BinaryFile), false),
{
}


proof fn lemma_first_occurrence_exists(h: Seq<char>, n: Seq<char>, i: int)
    requires
        occurs_at(h, n, i),
    ensures
        occurs_at(h, n, first_occurrence(h, n)),
        forall|k: int| 0 <= k < first_occurrence(h, n) ==> !occurs_at(h, n, k),
    decreases i,
{
    if exists|k: int| 0 <= k < i && occurs_at(h, n, k) {
        let k = choose|k: int| 0 <= k < i && occurs_at(h, n, k);
        lemma_first_occurrence_exists(h, n, k);
    } else {
        assert(occurs_at(h, n, i) && forall|k: int| 0 <= k < i ==> !occurs_at(h, n, k));
    }
}

/// A tracked file's patch that has a hunk is shown as a diff from its first
/// hunk header on: the text is the end of the patch, it begins with `@@`
/// right after a line break, and the part cut off holds no hunk header.
pub proof fn lemma_hunk_view_starts_at_first_hunk(patch: Seq<char>, section: ReviewSection, l: Language)
    requires
        section != ReviewSection::Untracked,
        contains_seq(patch, "\n@@"@),
    ensures
        ({
            let (t, d) = detail_text(patch, section, l);
            let cut = patch.len() - t.len();
            &&& d
            &&& 1 <= cut <= patch.len()
            &&& patch.skip(cut) == t
            &&& has_prefix(t, "@@"@)
            &&& patch[cut - 1] == '\n'
            &&& !contains_seq(patch.take(cut), "\n@@"@)
        }),
{
    reveal_strlit("\n@@");
    reveal_strlit("@@");
    let m = "\n@@"@;
    let i0 = choose|i: int| occurs_at(patch, m, i);
    lemma_first_occurrence_exists(patch, m, i0);
    let f = first_occurrence(patch, m);
    let t = patch.skip(f + 1);
    assert(detail_text(patch, section, l) == (t, true));
    let cut = patch.len() - t.len();
    assert(cut == f + 1);
    assert(patch.subrange(f, f + 3) == m);
    assert(patch[f] == patch.subrange(f, f + 3)[0]);
    assert(t.subrange(0, 2) =~= patch.subrange(f + 1, f + 3));
    assert(patch.subrange(f + 1, f + 3) =~= patch.subrange(f, f + 3).subrange(1, 3));
    assert(m.subrange(1, 3) =~= "@@"@);
    if contains_seq(patch.take(cut), m) {
        let k = choose|k: int| occurs_at(patch.take(cut), m, k);
        assert(patch.take(cut).subrange(k, k + 3) =~= patch.subrange(k, k + 3));
        assert(occurs_at(patch, m, k));
    }
}


/// A `diff --` header starts a new file with nothing counted and no hunk
/// open; the files before it are left as they were.
pub proof fn lemma_header_opens_file(st: PatchState, line: Seq<char>, section: ReviewSection)
    requires
        has_prefix(line, "diff --"@),
    ensures
        ({
            let next = read_line(st, line, section);
            &&& next.files.len() == st.files.len() + 1
            &&& next.files.drop_last() == st.files
            &&& next.files.last().additions == 0
            &&& next.files.last().deletions == 0
            &&& !next.in_hunk
        }),
{
    reveal_strlit("diff --");
    reveal_strlit("@@");
    assert(line.subrange(0, 7) == "diff --"@);
    assert(line.subrange(0, 7)[0] == 'd');
    assert(line[0] == 'd');
    if has_prefix(line, "@@"@) {
        assert(line.subrange(0, 2)[0] == '@');
    }
    let next = read_line(st, line, section);
    assert(next.files.drop_last() =~= st.files);
}

/// Before the first hunk header of a file, no line is counted as added or
/// removed, not even the `--- a/…` and `+++ b/…` lines.
pub proof fn lemma_header_lines_are_not_counted(st: PatchState, ls: Seq<Seq<char>>, section: ReviewSection)
    requires
        st.files.len() > 0,
        !st.in_hunk,
        forall|i: int|
            0 <= i < ls.len() ==> !has_prefix(#[trigger] ls[i], "diff --"@) && !has_prefix(
                ls[i],
                "@@"@,
            ),
    ensures
        ({
            let end = read_lines(st, ls, section);
            &&& !end.in_hunk
            &&& end.files.len() == st.files.len()
            &&& end.files.last().additions == st.files.last().additions
            &&& end.files.last().deletions == st.files.last().deletions
        }),
    decreases ls.len(),
{
    if ls.len() > 0 {
        let next = read_line(st, ls[0], section);
        assert(!has_prefix(ls[0], "diff --"@) && !has_prefix(ls[0], "@@"@));
        let rest = ls.drop_first();
        assert forall|i: int| 0 <= i < rest.len() implies !has_prefix(#[trigger] rest[i], "diff --"@)
            && !has_prefix(rest[i], "@@"@) by {
            assert(rest[i] == ls[i + 1]);
        }
        lemma_header_lines_are_not_counted(next, rest, section);
    }
}


/// How many times `c` occurs in `s`.
pub open spec fn count_char(s: Seq<char>, c: char) -> nat
    decreases s.len(),
{
    if s.len() == 0 {
        0
    } else {
        count_char(s.drop_last(), c) + if s.last() == c {
            1nat
        } else {
            0nat
        }
    }
}

proof fn lemma_count_concat(a: Seq<char>, b: Seq<char>, c: char)
    ensures
        count_char(a + b, c) == count_char(a, c) + count_char(b, c),
    decreases b.len(),
{
    if b.len() == 0 {
        assert(a + b =~= a);
    } else {
        lemma_count_concat(a, b.drop_last(), c);
        assert((a + b).drop_last() =~= a + b.drop_last());
        assert((a + b).last() == b.last());
    }
}

proof fn lemma_count_absent(s: Seq<char>, c: char)
    requires
        forall|j: int| 0 <= j < s.len() ==> s[j] != c,
    ensures
        count_char(s, c) == 0,
    decreases s.len(),
{
    if s.len() > 0 {
        lemma_count_absent(s.drop_last(), c);
    }
}

proof fn lemma_join_all_last(ls: Seq<Seq<char>>)
    requires
        ls.len() > 0,
    ensures
        join_all(ls) == join_all(ls.drop_last()) + ls.last(),
    decreases ls.len(),
{
    if ls.len() == 1 {
        assert(ls.drop_first() =~= Seq::<Seq<char>>::empty());
        assert(ls.drop_last() =~= Seq::<Seq<char>>::empty());
        assert(join_all(ls.drop_first()) == Seq::<char>::empty());
        assert(join_all(ls) =~= ls[0]);
        assert(join_all(ls.drop_last()) == Seq::<char>::empty());
        assert(join_all(ls.drop_last()) + ls.last() =~= ls[0]);
    } else {
        lemma_join_all_last(ls.drop_first());
        assert(ls.drop_first().drop_last() =~= ls.drop_last().drop_first());
        assert(ls.drop_last()[0] == ls[0]);
        assert(join_all(ls.drop_last()) == ls[0] + join_all(ls.drop_last().drop_first()));
        assert(join_all(ls) =~= join_all(ls.drop_last()) + ls.last());
    }
}

proof fn lemma_added_lines_counts(ls: Seq<Seq<char>>, c: char)
    ensures
        added_lines(ls).len() == join_all(ls).len() + ls.len(),
        count_char(added_lines(ls), c) == count_char(join_all(ls), c) + if c == '+' {
            ls.len()
        } else {
            0nat
        },
    decreases ls.len(),
{
    if ls.len() > 0 {
        lemma_added_lines_counts(ls.drop_last(), c);
        lemma_join_all_last(ls);
        let a = added_lines(ls.drop_last());
        lemma_count_concat(a + seq!['+'], ls.last(), c);
        lemma_count_concat(a, seq!['+'], c);
        lemma_count_concat(join_all(ls.drop_last()), ls.last(), c);
        assert(seq!['+'].drop_last() =~= Seq::<char>::empty());
        assert(count_char(Seq::<char>::empty(), c) == 0);
        assert(count_char(seq!['+'], c) == if c == '+' {
            1nat
        } else {
            0nat
        });
        assert(added_lines(ls) == a + seq!['+'] + ls.last());
    }
}

proof fn lemma_first_line_shape(s: Seq<char>)
    requires
        s.len() > 0,
    ensures
        forall|j: int| 0 <= j < line_len(s) - 1 ==> s[j] != '\n',
        s[line_len(s) - 1] == '\n' || line_len(s) == s.len(),
    decreases s.len(),
{
    lemma_line_len_bounds(s);
    if s[0] != '\n' && s.len() > 1 {
        lemma_first_line_shape(s.drop_first());
        assert forall|j: int| 0 <= j < line_len(s) - 1 implies s[j] != '\n' by {
            if j > 0 {
                assert(s[j] == s.drop_first()[j - 1]);
            }
        }
    }
}

/// A text has as many lines as line breaks, and one more when it does not
/// end with a line break.
pub proof fn lemma_line_count(s: Seq<char>)
    ensures
        lines(s).len() == count_char(s, '\n') + if s.len() > 0 && s.last() != '\n' {
            1nat
        } else {
            0nat
        },
    decreases s.len(),
{
    if s.len() > 0 {
        lemma_line_len_bounds(s);
        lemma_first_line_shape(s);
        let n = line_len(s) as int;
        let head = s.take(n);
        let tail = s.skip(n);
        lemma_line_count(tail);
        assert(lines(s).len() == 1 + lines(tail).len());
        assert(head + tail =~= s);
        lemma_count_concat(head, tail, '\n');
        lemma_count_absent(head.drop_last(), '\n');
        assert(head.drop_last() =~= s.take(n - 1));
        assert(head.last() == s[n - 1]);
        if tail.len() > 0 {
            assert(s.last() == tail.last());
        }
    }
}

/// The view of an untracked text file is a diff that adds every line: its
/// header counts the file's lines (its line breaks, and one more when it does
/// not end with one), and below the header every line of the file appears
/// with one `+` put in front: one character more per line, one `+` more per
/// line, and the same line breaks.
pub proof fn lemma_untracked_view_adds_every_line(p: Seq<char>, l: Language)
    requires
        p.len() > 0,
        !looks_binary(p),
    ensures
        ({
            let (t, d) = detail_text(p, ReviewSection::Untracked, l);
            let n = count_char(p, '\n') + if p.last() != '\n' {
                1nat
            } else {
                0nat
            };
            let h = "@@ -0,0 +1,"@ + decimal(n) + " @@\n"@;
            let body = t.skip(h.len() as int);
            &&& d
            &&& has_prefix(t, h)
            &&& body.len() == p.len() + n
            &&& count_char(body, '+') == count_char(p, '+') + n
            &&& count_char(body, '\n') == count_char(p, '\n')
        }),
{
    let ls = lines(p);
    lemma_line_count(p);
    lemma_join_lines(p);
    lemma_added_lines_counts(ls, '+');
    lemma_added_lines_counts(ls, '\n');
    let n = count_char(p, '\n') + if p.last() != '\n' {
        1nat
    } else {
        0nat
    };
    let h = "@@ -0,0 +1,"@ + decimal(n) + " @@\n"@;
    let t = detail_text(p, ReviewSection::Untracked, l).0;
    assert(ls.len() == n);
    assert(t == h + added_lines(ls));
    assert(t.subrange(0, h.len() as int) =~= h);
    assert(t.skip(h.len() as int) =~= added_lines(ls));
}

/// How many of `ls` start with `c`.
pub open spec fn count_starting(ls: Seq<Seq<char>>, c: char) -> nat
    decreases ls.len(),
{
    if ls.len() == 0 {
        0
    } else {
        count_starting(ls.drop_last(), c) + if ls.last().len() > 0 && ls.last()[0] == c {
            1nat
        } else {
            0nat
        }
    }
}

/// Once a hunk header (`@@`) has been read for a file, the hunk stays open
/// until the next `diff --` header, and every later line of the file that
/// starts with `+` is one added line and every one that starts with `-` one
/// removed line, whatever context lines stand between them.
pub proof fn lemma_hunk_lines_are_counted(st: PatchState, ls: Seq<Seq<char>>, section: ReviewSection)
    requires
        st.files.len() > 0,
        st.in_hunk || (ls.len() > 0 && has_prefix(ls[0], "@@"@)),
        forall|i: int| 0 <= i < ls.len() ==> !has_prefix(#[trigger] ls[i], "diff --"@),
    ensures
        ({
            let end = read_lines(st, ls, section);
            &&& end.in_hunk || ls.len() == 0
            &&& end.files.len() == st.files.len()
            &&& end.files.last().additions == st.files.last().additions + count_starting(ls, '+')
            &&& end.files.last().deletions == st.files.last().deletions + count_starting(ls, '-')
        }),
    decreases ls.len(),
{
    reveal_strlit("@@");
    if ls.len() > 0 {
        let next = read_line(st, ls[0], section);
        assert(!has_prefix(ls[0], "diff --"@));
        assert(next.in_hunk);
        let rest = ls.drop_first();
        assert forall|i: int| 0 <= i < rest.len() implies !has_prefix(#[trigger] rest[i], "diff --"@) by {
            assert(rest[i] == ls[i + 1]);
        }
        lemma_hunk_lines_are_counted(next, rest, section);
        lemma_count_starting_first(ls, '+');
        lemma_count_starting_first(ls, '-');
    }
}

proof fn lemma_count_starting_first(ls: Seq<Seq<char>>, c: char)
    requires
        ls.len() > 0,
    ensures
        count_starting(ls, c) == count_starting(ls.drop_first(), c) + if ls[0].len() > 0 && ls[0][0]
            == c {
            1nat
        } else {
            0nat
        },
    decreases ls.len(),
{
    if ls.len() > 1 {
        lemma_count_starting_first(ls.drop_last(), c);
        assert(ls.drop_last().drop_first() =~= ls.drop_first().drop_last());
        assert(ls.drop_last()[0] == ls[0]);
    } else {
        assert(ls.drop_first() =~= Seq::<Seq<char>>::empty());
        assert(ls.drop_last() =~= Seq::<Seq<char>>::empty());
    }
}


/// Whether file `f` has the key `(section, path)`.
pub open spec fn has_key(f: FileView, section: ReviewSection, path: Seq<char>) -> bool {
    f.section == section && f.path == path
}

/// The file that the review page shows: the first file with the remembered
/// key, else the first file; none when there are no files.
pub fn selected_file(files: &[ReviewFile], key: Option<&(ReviewSection, String)>) -> (r: Option<usize>)
    ensures
        ({
            let fs = file_views(files@);
            let first = if fs.len() > 0 {
                Some(0usize)
            } else {
                None
            };
            match key {
                Some(k) => if exists|i: int| 0 <= i < fs.len() && #[trigger] has_key(fs[i], k.0, k.1@) {
                    r matches Some(i) && i < fs.len() && has_key(fs[i as int], k.0, k.1@) && forall|j: int|
                        0 <= j < i ==> !#[trigger] has_key(fs[j], k.0, k.1@)
                } else {
                    r == first
                },
                None => r == first,
            }
        }),
{
    let ghost fs = file_views(files@);
    match key {
        Some(k) => {
            let wanted = to_chars(k.1.as_str());
            let mut i: usize = 0;
            while i < files.len()
                invariant
                    i <= files@.len(),
                    fs == file_views(files@),
                    key == Some(k),
                    wanted@ == k.1@,
                    forall|j: int| 0 <= j < i ==> !#[trigger] has_key(fs[j], k.0, k.1@),
                decreases files.len() - i,
            {
                assert(fs[i as int] == files@[i as int]@);
                if files[i].section == k.0 && crate::text::chars_eq(
                    to_chars(files[i].path.as_str()).as_slice(),
                    wanted.as_slice(),
                ) {
                    return Some(i);
                }
                i = i + 1;
            }
        },
        None => {},
    }
    if files.len() > 0 {
        Some(0)
    } else {
        None
    }
}

/// Number of files of `fs` in section `s`.
pub open spec fn section_count(fs: Seq<FileView>, s: ReviewSection) -> nat
    decreases fs.len(),
{
    if fs.len() == 0 {
        0
    } else {
        section_count(fs.drop_last(), s) + if fs.last().section == s {
            1nat
        } else {
            0nat
        }
    }
}

/// File `i` begins a run of its section: it is the first file, or follows a
/// file of another section.
pub open spec fn starts_run(fs: Seq<FileView>, i: int) -> bool {
    i == 0 || fs[i - 1].section != fs[i].section
}

/// A section heading of the review's file list: where it stands, its
/// section, and how many files of the review are in that section.
#[derive(Clone, Copy, Debug, PartialEq, Eq, Structural)]
pub struct SectionHeader {
    pub index: usize,
    pub section: ReviewSection,
    pub count: usize,
}

/// `hd` heads a run of files of `fs` and counts the files of its section.
pub open spec fn heads_run(fs: Seq<FileView>, hd: SectionHeader) -> bool {
    &&& hd.index < fs.len()
    &&& starts_run(fs, hd.index as int)
    &&& hd.section == fs[hd.index as int].section
    &&& hd.count == section_count(fs, hd.section)
}

fn count_section(files: &[ReviewFile], s: ReviewSection) -> (n: usize)
    ensures
        n == section_count(file_views(files@), s),
{
    let ghost fs = file_views(files@);
    let mut n: usize = 0;
    let mut i: usize = 0;
    assert(fs.take(0) =~= Seq::<FileView>::empty());
    while i < files.len()
        invariant
            i <= files@.len(),
            fs == file_views(files@),
            n == section_count(fs.take(i as int), s),
            n <= i,
        decreases files.len() - i,
    {
        assert(fs.take(i + 1).drop_last() =~= fs.take(i as int));
        assert(fs.take(i + 1).last() == files@[i as int]@);
        if files[i].section == s {
            n = n + 1;
        }
        i = i + 1;
    }
    assert(fs.take(i as int) =~= fs);
    n
}

/// The headings of the review's file list: one where each run of a section
/// begins, in order, each with the number of files of its section.
pub fn section_headers(files: &[ReviewFile]) -> (h: Vec<SectionHeader>)
    ensures
        forall|a: int, b: int| 0 <= a < b < h@.len() ==> h@[a].index < h@[b].index,
        forall|j: int| 0 <= j < h@.len() ==> heads_run(file_views(files@), #[trigger] h@[j]),
        forall|i: int|
            0 <= i < files@.len() && starts_run(file_views(files@), i) ==> exists|j: int|
                0 <= j < h@.len() && (#[trigger] h@[j]).index == i,
{
    let ghost fs = file_views(files@);
    let mut h: Vec<SectionHeader> = Vec::new();
    let mut i: usize = 0;
    while i < files.len()
        invariant
            i <= files@.len(),
            fs == file_views(files@),
            forall|a: int, b: int| 0 <= a < b < h@.len() ==> h@[a].index < h@[b].index,
            forall|j: int| 0 <= j < h@.len() ==> heads_run(fs, #[trigger] h@[j]) && h@[j].index < i,
            forall|x: int|
                0 <= x < i && starts_run(fs, x) ==> exists|j: int|
                    0 <= j < h@.len() && (#[trigger] h@[j]).index == x,
        decreases files.len() - i,
    {
        assert(fs[i as int] == files@[i as int]@);
        if i > 0 {
            assert(fs[i - 1] == files@[i - 1]@);
        }
        if i == 0 || files[i - 1].section != files[i].section {
            let count = count_section(files, files[i].section);
            let ghost before = h@;
            h.push(SectionHeader { index: i, section: files[i].section, count });
            assert forall|x: int|
                0 <= x < i + 1 && starts_run(fs, x) implies exists|j: int|
                0 <= j < h@.len() && (#[trigger] h@[j]).index == x by {
                if x < i {
                    let j = choose|j: int| 0 <= j < before.len() && (#[trigger] before[j]).index == x;
                    assert(h@[j] == before[j]);
                } else {
                    assert(h@[h@.len() - 1].index == x);
                }
            }
        }
        i = i + 1;
    }
    h
}

/// How the review lists a file: its name after the last `/`, and the
/// directory before it when there is one.
pub open spec fn split_path(p: Seq<char>) -> (Seq<char>, Option<Seq<char>>) {
    match last_index_of(p, '/') {
        Some(k) => (p.skip(k + 1), Some(p.take(k))),
        None => (p, None),
    }
}

/// The name and the directory of a review file's path.
pub fn review_path_parts(path: &str) -> (r: (String, Option<String>))
    ensures
        (r.0@, match r.1 {
            Some(d) => Some(d@),
            None => None,
        }) == split_path(path@),
{
    let p = to_chars(path);
    let mut end: usize = p.len();
    assert(p@.take(end as int) =~= p@);
    while end > 0 && p[end - 1] != '/'
        invariant
            end <= p@.len(),
            p@ == path@,
            last_index_of(p@, '/') == last_index_of(p@.take(end as int), '/'),
        decreases end,
    {
        assert(p@.take(end as int).drop_last() =~= p@.take(end - 1));
        end = end - 1;
    }
    if end == 0 {
        assert(p@.take(0) =~= Seq::<char>::empty());
        (path.to_owned(), None)
    } else {
        assert(p@.take(end as int).last() == '/');
        let name = from_chars(chars_from(p.as_slice(), end).as_slice());
        let directory = from_chars(chars_until(p.as_slice(), end - 1).as_slice());
        (name, Some(directory))
    }
}


/// What the review page's heading names: the branch, or `HEAD` when there is
/// none, and the first eight characters of the commit.
pub fn review_heading(branch: Option<&str>, head: &str) -> (r: (String, String))
    ensures
        r.0@ == match branch {
            Some(b) => b@,
            None => "HEAD"@,
        },
        r.1@ == head@.take(if head@.len() < 8 {
            head@.len() as int
        } else {
            8
        }),
{
    let name = match branch {
        Some(b) => b.to_owned(),
        None => "HEAD".to_owned(),
    };
    let h = to_chars(head);
    let n = if h.len() < 8 {
        h.len()
    } else {
        8
    };
    (name, from_chars(chars_until(h.as_slice(), n).as_slice()))
}


/// How `git` writes one byte of a path between double quotes: `"` and `\`
/// behind a backslash, tab, newline, carriage return, bell, backspace, form
/// feed and vertical tab as `\t \n \r \a \b \f \v`, any other control
/// byte, DEL and every byte from 0x80 as a backslash and three octal digits,
/// other bytes as they are.
pub open spec fn quote_byte(b: u8) -> Seq<u8> {
    if b == 0x22 {
        seq![0x5cu8, 0x22u8]
    } else if b == 0x5c {
        seq![0x5cu8, 0x5cu8]
    } else if b == 0x09 {
        seq![0x5cu8, 0x74u8]
    } else if b == 0x0a {
        seq![0x5cu8, 0x6eu8]
    } else if b == 0x0d {
        seq![0x5cu8, 0x72u8]
    } else if b == 0x07 {
        seq![0x5cu8, 0x61u8]
    } else if b == 0x08 {
        seq![0x5cu8, 0x62u8]
    } else if b == 0x0c {
        seq![0x5cu8, 0x66u8]
    } else if b == 0x0b {
        seq![0x5cu8, 0x76u8]
    } else if b < 0x20 || b == 0x7f || b >= 0x80 {
        seq![0x5cu8, (0x30 + b / 64) as u8, (0x30 + (b / 8) % 8) as u8, (0x30 + b % 8) as u8]
    } else {
        seq![b]
    }
}

/// The bytes of a path quoted byte by byte, without the surrounding quotes.
pub open spec fn quote_bytes(bs: Seq<u8>) -> Seq<u8>
    decreases bs.len(),
{
    if bs.len() == 0 {
        Seq::empty()
    } else {
        quote_byte(bs[0]) + quote_bytes(bs.drop_first())
    }
}

/// ASCII bytes read as text.
pub open spec fn ascii_text(bs: Seq<u8>) -> Seq<char> {
    bs.map_values(|b: u8| b as char)
}

/// A path as `git` quotes it: a double quote, the quoted bytes of its UTF-8
/// encoding, and a closing double quote.
pub open spec fn git_quoted(path: Seq<char>) -> Seq<char> {
    ascii_text(seq![0x22u8] + quote_bytes(encode_utf8(path)) + seq![0x22u8])
}

proof fn lemma_quote_bytes_ascii(bs: Seq<u8>)
    ensures
        forall|i: int| 0 <= i < quote_bytes(bs).len() ==> #[trigger] quote_bytes(bs)[i] < 0x80,
    decreases bs.len(),
{
    if bs.len() > 0 {
        lemma_quote_bytes_ascii(bs.drop_first());
        let q = quote_byte(bs[0]);
        let b = bs[0];
        assert(forall|i: int| 0 <= i < q.len() ==> #[trigger] q[i] < 0x80) by {
            if b < 0x20 || b == 0x7f || b >= 0x80 {
                assert(b / 64 < 4) by (nonlinear_arith)
                    requires
                        b < 256,
                ;
            }
        }
        assert forall|i: int| 0 <= i < quote_bytes(bs).len() implies #[trigger] quote_bytes(bs)[i] < 0x80 by {
            if i < q.len() {
                assert(quote_bytes(bs)[i] == q[i]);
            } else {
                assert(quote_bytes(bs)[i] == quote_bytes(bs.drop_first())[i - q.len()]);
            }
        }
    }
}

proof fn lemma_encode_ascii_text(bs: Seq<u8>)
    requires
        forall|i: int| 0 <= i < bs.len() ==> #[trigger] bs[i] < 0x80,
    ensures
        encode_utf8(ascii_text(bs)) == bs,
    decreases bs.len(),
{
    if bs.len() > 0 {
        let b = bs[0];
        assert(ascii_text(bs).drop_first() =~= ascii_text(bs.drop_first()));
        assert(bs[0] < 0x80);
        lemma_encode_ascii_text(bs.drop_first());
        let v = (b as char) as u32;
        assert(v == b as u32);
        assert((v & 0x7f) as u8 == b) by (bit_vector)
            requires
                v == b as u32,
                b < 0x80,
        ;
        assert(encode_scalar(v) =~= seq![b]);
        assert(bs =~= seq![b] + bs.drop_first());
    }
}

proof fn lemma_octal_digits(b: u8)
    ensures
        ((b / 64) * 8 + (b / 8) % 8) * 8 + b % 8 == b,
        b / 64 < 8,
{
    assert(((b / 64) * 8 + (b / 8) % 8) * 8 + b % 8 == b) by (bit_vector);
    assert(b / 64 < 8) by (bit_vector);
}

proof fn lemma_unquote_quoted(bs: Seq<u8>, tail: Seq<u8>)
    ensures
        unquote(quote_bytes(bs) + seq![0x22u8] + tail) == bs,
    decreases bs.len(),
{
    let x = quote_bytes(bs) + seq![0x22u8] + tail;
    if bs.len() == 0 {
        assert(x[0] == 0x22);
        assert(bs =~= Seq::<u8>::empty());
    } else {
        let b = bs[0];
        let q = quote_byte(b);
        let after = quote_bytes(bs.drop_first()) + seq![0x22u8] + tail;
        assert(x =~= q + after);
        lemma_unquote_quoted(bs.drop_first(), tail);
        assert(x.skip(q.len() as int) =~= after);
        if q.len() == 1 {
            assert(x[0] == b);
            assert(x.drop_first() =~= after);
        } else if q.len() == 2 {
            assert(x[0] == 0x5c);
            assert(x[1] == q[1]);
            assert(escape_at(x).0 == 2);
            assert(escape_at(x).1 == b);
        } else {
            lemma_octal_digits(b);
            assert(x[0] == 0x5c);
            assert(x[1] == q[1]);
            assert(x[2] == q[2]);
            assert(x[3] == q[3]);
            assert(is_octal(x[1]) && is_octal(x[2]) && is_octal(x[3]));
            assert(escape_at(x).0 == 4);
            assert(escape_at(x).1 == b);
        }
        assert(bs =~= seq![b] + bs.drop_first());
    }
}

/// Decoding undoes `git`'s quoting of any path: the quoted path, with
/// anything after its closing quote, decodes to the path itself.
pub proof fn lemma_decode_path_inverts_git_quoting(path: Seq<char>, tail: Seq<char>)
    ensures
        decoded_path(git_quoted(path) + tail) == path,
{
    let enc = encode_utf8(path);
    let qb = seq![0x22u8] + quote_bytes(enc) + seq![0x22u8];
    lemma_quote_bytes_ascii(enc);
    assert forall|i: int| 0 <= i < qb.len() implies #[trigger] qb[i] < 0x80 by {
        if 0 < i < qb.len() - 1 {
            assert(qb[i] == quote_bytes(enc)[i - 1]);
        }
    }
    lemma_encode_ascii_text(qb);
    crate::bytes::lemma_encode_utf8_concat(git_quoted(path), tail);
    let b = encode_utf8(git_quoted(path) + tail);
    assert(b == qb + encode_utf8(tail));
    assert(b[0] == 0x22);
    assert(b.drop_first() =~= quote_bytes(enc) + seq![0x22u8] + encode_utf8(tail));
    lemma_unquote_quoted(enc, encode_utf8(tail));
    encode_utf8_valid_utf8(path);
    encode_utf8_decode_utf8(path);
}

/// The note shown where the review has no file to show: changes are being
/// read, the diff could not be produced although the status was, or there is
/// nothing to review.
pub fn review_empty_text(busy: bool, has_review: bool, has_status: bool) -> (t: Text)
    ensures
        t == if busy {
            Text::ReadingChanges
        } else if !has_review && has_status {
            Text::DiffUnavailable
        } else {
            Text::NoChanges
        },
{
    if busy {
        Text::ReadingChanges
    } else if !has_review && has_status {
        Text::DiffUnavailable
    } else {
        Text::NoChanges
    }
}

} // verus!
