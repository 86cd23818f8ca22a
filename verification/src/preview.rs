//! File previews: the hex dump of binary files, directory summaries, the
//! checks for text previews, and the Kitty graphics escape sequences.

use vstd::prelude::*;
use crate::error::{io_error_text, joined};
use crate::sort::{lemma_lex_order_flip, lemma_lex_order_trans, lex_compare, lex_order};
use crate::sorting::{is_stable_sort_of, is_total_preorder, stable_sort_permutation, Order};
use syntect::easy::HighlightLines;
use syntect::highlighting::ThemeSet;
use syntect::parsing::SyntaxSet;
use syntect::util::LinesWithEndings;
use crate::text::{
    decimal, hex_padded, is_substring, push_decimal, push_hex_padded, spec_lowercase,
    str_contains, str_eq, string_push, to_lowercase,
};

verus! {

#[derive(Debug, Clone, Copy, PartialEq, Eq, Structural)]
pub enum ImageFormat {
    Png,
    Rgb24,
    Rgba32,
}

#[derive(Debug)]
pub enum PreviewError {
    Io(std::io::Error),
    TooLarge { size: u64 },
    Unsupported,
    Other(String),
}

/// The text a preview error is shown with; that of an I/O error comes from the
/// operating system.
pub open spec fn preview_error_text(e: PreviewError) -> Option<Seq<char>> {
    match e {
        PreviewError::Io(_) => None,
        PreviewError::TooLarge { size } => Some(
            "File too large to preview: "@ + decimal(size as nat) + " bytes"@,
        ),
        PreviewError::Unsupported => Some("Unsupported format"@),
        PreviewError::Other(m) => Some("Preview generation failed: "@ + m@),
    }
}

impl PreviewError {
    /// The text the error is shown with.
    pub fn message(&self) -> (r: String)
        ensures
            match preview_error_text(*self) {
                Some(t) => r@ == t,
                None => r@.len() >= "IO error: "@.len() && r@.take("IO error: "@.len() as int)
                    == "IO error: "@,
            },
    {
        match self {
            PreviewError::Io(e) => {
                let r = joined("IO error: ", io_error_text(e).as_str());
                assert(r@.take("IO error: "@.len() as int) =~= "IO error: "@);
                r
            },
            PreviewError::TooLarge { size } => {
                let mut s = "File too large to preview: ".to_owned();
                push_decimal(&mut s, *size);
                s.append(" bytes");
                s
            },
            PreviewError::Unsupported => "Unsupported format".to_owned(),
            PreviewError::Other(m) => joined("Preview generation failed: ", m.as_str()),
        }
    }
}

/// The colour a span of preview text is drawn in.
#[derive(Debug, Clone, Copy, PartialEq, Eq, Structural)]
pub enum Tone {
    Plain,
    Yellow,
    DarkGray,
    Cyan,
    Green,
    Blue,
    White,
    Rgb(u8, u8, u8),
}

#[derive(Debug)]
pub struct StyledSpan {
    pub text: String,
    pub tone: Tone,
}

#[derive(Debug)]
pub struct StyledLine {
    pub spans: Vec<StyledSpan>,
}

#[derive(Debug)]
pub enum PreviewContent {
    StyledText(Vec<StyledLine>),
    AnsiText(String),
    KittyImage { data: Vec<u8>, width: u32, height: u32, format: ImageFormat },
    Placeholder(String),
}

/// A line as plain values: its spans' texts and tones.
pub open spec fn line_view(l: StyledLine) -> Seq<(Seq<char>, Tone)> {
    l.spans@.map_values(|s: StyledSpan| (s.text@, s.tone))
}

pub open spec fn lines_view(v: Seq<StyledLine>) -> Seq<Seq<(Seq<char>, Tone)>> {
    v.map_values(|l: StyledLine| line_view(l))
}

fn span(text: String, tone: Tone) -> (r: StyledSpan)
    ensures
        r.text@ == text@,
        r.tone == tone,
{
    StyledSpan { text, tone }
}

fn line1(text: String, tone: Tone) -> (r: StyledLine)
    ensures
        line_view(r) == seq![(text@, tone)],
{
    let mut spans: Vec<StyledSpan> = Vec::new();
    spans.push(span(text, tone));
    let r = StyledLine { spans };
    assert(line_view(r) =~= seq![(r.spans@[0].text@, tone)]);
    r
}

fn line2(a: String, ta: Tone, b: String, tb: Tone) -> (r: StyledLine)
    ensures
        line_view(r) == seq![(a@, ta), (b@, tb)],
{
    let ghost av = a@;
    let ghost bv = b@;
    let mut spans: Vec<StyledSpan> = Vec::new();
    spans.push(span(a, ta));
    spans.push(span(b, tb));
    let r = StyledLine { spans };
    assert(line_view(r) =~= seq![(av, ta), (bv, tb)]);
    r
}

fn line4(a: String, ta: Tone, b: String, tb: Tone, c: String, tc: Tone, d: String, td: Tone) -> (r:
    StyledLine)
    ensures
        line_view(r) == seq![(a@, ta), (b@, tb), (c@, tc), (d@, td)],
{
    let ghost av = a@;
    let ghost bv = b@;
    let ghost cv = c@;
    let ghost dv = d@;
    let mut spans: Vec<StyledSpan> = Vec::new();
    spans.push(span(a, ta));
    spans.push(span(b, tb));
    spans.push(span(c, tc));
    spans.push(span(d, td));
    let r = StyledLine { spans };
    assert(line_view(r) =~= seq![(av, ta), (bv, tb), (cv, tc), (dv, td)]);
    r
}

// ---------------------------------------------------------------------------
// Binary files: a hex dump
// ---------------------------------------------------------------------------

/// How many bytes a dump line shows.
pub const BYTES_PER_LINE: usize = 16;

/// Printable ASCII and the space show as themselves; other bytes as a dot.
pub open spec fn shown_char(b: u8) -> char {
    if 0x20 <= b <= 0x7e {
        b as char
    } else {
        '.'
    }
}

/// Two lowercase hex digits per byte, separated by single spaces.
pub open spec fn hex_column(bytes: Seq<u8>) -> Seq<char>
    decreases bytes.len(),
{
    if bytes.len() == 0 {
        Seq::empty()
    } else if bytes.len() == 1 {
        hex_padded(bytes[0] as nat, 2)
    } else {
        hex_column(bytes.drop_last()) + seq![' '] + hex_padded(bytes.last() as nat, 2)
    }
}

pub open spec fn ascii_column(bytes: Seq<u8>) -> Seq<char> {
    bytes.map_values(|b: u8| shown_char(b))
}

pub open spec fn spaces(n: nat) -> Seq<char> {
    Seq::new(n, |i: int| ' ')
}

/// The bytes the `i`-th dump line shows.
pub open spec fn dump_chunk(data: Seq<u8>, i: nat) -> Seq<u8> {
    let start: int = 16 * (i as int);
    let end: int = if start + 16 <= data.len() {
        start + 16
    } else {
        data.len() as int
    };
    data.subrange(start, end)
}

/// The `i`-th dump line: offset, hex bytes, padding and the bytes as text.
pub open spec fn dump_line(data: Seq<u8>, i: nat) -> Seq<(Seq<char>, Tone)> {
    let chunk = dump_chunk(data, i);
    seq![
        ("  "@ + hex_padded(16 * i, 8) + "  "@, Tone::DarkGray),
        (hex_column(chunk), Tone::Cyan),
        (spaces(((16 - chunk.len()) * 3) as nat), Tone::Plain),
        ("  "@ + ascii_column(chunk), Tone::Green),
    ]
}

/// The number of dump lines: one per 16 bytes, as far as `height` rows allow
/// after the two header rows.
pub open spec fn dump_rows(len: nat, height: nat) -> nat {
    let chunks: nat = (len + 15) / 16;
    let room: nat = if height >= 2 {
        (height - 2) as nat
    } else {
        0
    };
    if chunks <= room {
        chunks
    } else {
        room
    }
}

/// The preview of a binary file whose size reads `size_text` and whose first
/// bytes are `data`.
pub open spec fn spec_binary_lines(size_text: Seq<char>, data: Seq<u8>, height: nat) -> Seq<
    Seq<(Seq<char>, Tone)>,
> {
    seq![
        seq![("  Binary file ("@ + size_text + ")"@, Tone::Yellow)],
        seq![(Seq::<char>::empty(), Tone::Plain)],
    ] + Seq::new(dump_rows(data.len(), height), |i: int| dump_line(data, i as nat))
}

/// The bytes shown by the first `k` dump lines, one line after the other.
pub open spec fn dumped_bytes(data: Seq<u8>, k: nat) -> Seq<u8>
    decreases k,
{
    if k == 0 {
        Seq::empty()
    } else {
        dumped_bytes(data, (k - 1) as nat) + dump_chunk(data, (k - 1) as nat)
    }
}

proof fn lemma_dumped_bytes(data: Seq<u8>, k: nat)
    requires
        16 * (k - 1) < data.len() || k == 0,
    ensures
        dumped_bytes(data, k) == data.take(
            if 16 * k <= data.len() {
                (16 * k) as int
            } else {
                data.len() as int
            },
        ),
    decreases k,
{
    if k > 0 {
        let s: int = 16 * (k - 1);
        if k > 1 {
            lemma_dumped_bytes(data, (k - 1) as nat);
            assert(dumped_bytes(data, (k - 1) as nat) == data.take(s));
        } else {
            assert(data.take(0) =~= Seq::<u8>::empty());
            assert(dumped_bytes(data, 0) == Seq::<u8>::empty());
            assert(dumped_bytes(data, (k - 1) as nat) == data.take(s));
        }
        assert(dumped_bytes(data, k) == dumped_bytes(data, (k - 1) as nat) + dump_chunk(
            data,
            (k - 1) as nat,
        ));
        assert(data.take(s) + dump_chunk(data, (k - 1) as nat) =~= data.take(
            if 16 * k <= data.len() {
                (16 * k) as int
            } else {
                data.len() as int
            },
        ));
    } else {
        assert(data.take(0) =~= Seq::<u8>::empty());
    }
}

/// The hex dump shows the data in order, 16 bytes a line with nothing skipped
/// or repeated: the first `k` lines show exactly the first `16 * k` bytes (or
/// all of them), and when the pane has room for every line, all the data is
/// shown. Its lines are the two header rows and one row per line shown.
pub proof fn law_binary_dump(size_text: Seq<char>, data: Seq<u8>, height: nat, k: nat)
    requires
        k <= (data.len() + 15) / 16,
    ensures
        dumped_bytes(data, k) == data.take(
            if 16 * k <= data.len() {
                (16 * k) as int
            } else {
                data.len() as int
            },
        ),
        spec_binary_lines(size_text, data, height).len() == 2 + dump_rows(data.len(), height),
        height >= 2 && (data.len() + 15) / 16 <= height - 2 ==> dumped_bytes(
            data,
            dump_rows(data.len(), height),
        ) == data,
{
    let c = (data.len() + 15) / 16;
    if k > 0 {
        assert(16 * (k - 1) < data.len()) by (nonlinear_arith)
            requires
                c == (data.len() + 15) / 16,
                0 < k <= c,
        ;
    }
    if c > 0 {
        assert(16 * (c - 1) < data.len()) by (nonlinear_arith)
            requires
                c == (data.len() + 15) / 16,
                0 < c,
        ;
    }
    assert(16 * c >= data.len()) by (nonlinear_arith)
        requires
            c == (data.len() + 15) / 16,
    ;
    lemma_dumped_bytes(data, k);
    lemma_dumped_bytes(data, c);
    assert(data.take(data.len() as int) =~= data);
}

fn hex_column_text(chunk: &[u8]) -> (r: String)
    ensures
        r@ == hex_column(chunk@),
{
    let mut s = String::new();
    let mut j: usize = 0;
    while j < chunk.len()
        invariant
            j <= chunk.len(),
            s@ == hex_column(chunk@.take(j as int)),
        decreases chunk.len() - j,
    {
        let ghost before = s@;
        if j > 0 {
            string_push(&mut s, ' ');
        }
        push_hex_padded(&mut s, chunk[j] as u64, 2);
        assert(chunk@.take(j + 1).drop_last() =~= chunk@.take(j as int));
        if j == 0 {
            assert(s@ =~= hex_column(chunk@.take(1)));
        } else {
            assert(s@ =~= hex_column(chunk@.take(j as int)) + seq![' '] + hex_padded(
                chunk@[j as int] as nat,
                2,
            ));
        }
        j = j + 1;
    }
    assert(chunk@.take(chunk.len() as int) =~= chunk@);
    s
}

fn shown(b: u8) -> (c: char)
    ensures
        c == shown_char(b),
{
    if 0x20 <= b && b <= 0x7e {
        b as char
    } else {
        '.'
    }
}

fn ascii_column_text(chunk: &[u8]) -> (r: String)
    ensures
        r@ == "  "@ + ascii_column(chunk@),
{
    let mut s = "  ".to_owned();
    let mut j: usize = 0;
    while j < chunk.len()
        invariant
            j <= chunk.len(),
            s@ == "  "@ + ascii_column(chunk@.take(j as int)),
        decreases chunk.len() - j,
    {
        string_push(&mut s, shown(chunk[j]));
        assert(ascii_column(chunk@.take(j + 1)) =~= ascii_column(chunk@.take(j as int)).push(
            shown_char(chunk@[j as int]),
        ));
        j = j + 1;
    }
    assert(chunk@.take(chunk.len() as int) =~= chunk@);
    s
}

fn spaces_text(n: usize) -> (r: String)
    ensures
        r@ == spaces(n as nat),
{
    let mut s = String::new();
    let mut k: usize = 0;
    while k < n
        invariant
            k <= n,
            s@ == spaces(k as nat),
        decreases n - k,
    {
        string_push(&mut s, ' ');
        k = k + 1;
        assert(s@ =~= spaces(k as nat));
    }
    s
}

fn copy_bytes(data: &[u8], start: usize, end: usize) -> (r: Vec<u8>)
    requires
        start <= end <= data@.len(),
    ensures
        r@ == data@.subrange(start as int, end as int),
{
    let mut r: Vec<u8> = Vec::new();
    let mut k = start;
    while k < end
        invariant
            start <= k <= end <= data@.len(),
            r@ == data@.subrange(start as int, k as int),
        decreases end - k,
    {
        r.push(data[k]);
        k = k + 1;
        assert(r@ =~= data@.subrange(start as int, k as int));
    }
    r
}

fn dump_line_of(data: &[u8], i: usize) -> (r: StyledLine)
    requires
        16 * i < data@.len(),
    ensures
        line_view(r) == dump_line(data@, i as nat),
{
    let n = data.len();
    let start = BYTES_PER_LINE * i;
    let end = if n - start >= BYTES_PER_LINE {
        start + BYTES_PER_LINE
    } else {
        data.len()
    };
    let chunk = copy_bytes(data, start, end);
    let mut offset = "  ".to_owned();
    push_hex_padded(&mut offset, start as u64, 8);
    string_push(&mut offset, ' ');
    string_push(&mut offset, ' ');
    proof {
        reveal_strlit("  ");
        assert(offset@ =~= "  "@ + hex_padded(16 * i as nat, 8) + "  "@);
    }
    let hex = hex_column_text(chunk.as_slice());
    let pad = spaces_text((BYTES_PER_LINE - chunk.len()) * 3);
    let ascii = ascii_column_text(chunk.as_slice());
    line4(offset, Tone::DarkGray, hex, Tone::Cyan, pad, Tone::Plain, ascii, Tone::Green)
}

pub struct BinaryPreviewProvider;

impl BinaryPreviewProvider {
    pub fn priority(&self) -> (r: u8)
        ensures
            r == 10,
    {
        10
    }

    /// How many bytes of a file of `size` bytes a preview `height` rows high reads.
    pub fn bytes_to_read(&self, size: u64, height: u16) -> (r: u64)
        ensures
            r == if size <= height as u64 * 16 {
                size
            } else {
                (height as u64 * 16) as u64
            },
    {
        let cap = height as u64 * 16;
        if size <= cap {
            size
        } else {
            cap
        }
    }

    /// The preview of a binary file: a header with its size, then a hex dump of
    /// `data`, 16 bytes a line, as far as `height` rows allow.
    pub fn preview_lines(&self, size_text: &str, data: &[u8], height: u16) -> (r: Vec<StyledLine>)
        ensures
            lines_view(r@) == spec_binary_lines(size_text@, data@, height as nat),
    {
        let mut lines: Vec<StyledLine> = Vec::new();
        let mut header = "  Binary file (".to_owned();
        header.append(size_text);
        header.append(")");
        lines.push(line1(header, Tone::Yellow));
        lines.push(line1(String::new(), Tone::Plain));
        let ghost want = spec_binary_lines(size_text@, data@, height as nat);
        let rows = {
            let chunks = data.len() / BYTES_PER_LINE + if data.len() % BYTES_PER_LINE == 0 {
                0
            } else {
                1
            };
            let room: usize = if height >= 2 {
                (height - 2) as usize
            } else {
                0
            };
            if chunks <= room {
                chunks
            } else {
                room
            }
        };
        assert(rows == dump_rows(data@.len(), height as nat));
        let mut i: usize = 0;
        while i < rows
            invariant
                i <= rows,
                rows == dump_rows(data@.len(), height as nat),
                want == spec_binary_lines(size_text@, data@, height as nat),
                lines_view(lines@) == want.take(i + 2),
            decreases rows - i,
        {
            let l = dump_line_of(data, i);
            let ghost before = lines_view(lines@);
            lines.push(l);
            assert(lines_view(lines@) =~= before.push(line_view(l)));
            assert(want.take(i + 3) =~= want.take(i + 2).push(want[i + 2]));
            i = i + 1;
        }
        assert(want.take(rows + 2) =~= want);
        lines
    }
}

// ---------------------------------------------------------------------------
// Directories: a summary of their entries
// ---------------------------------------------------------------------------

/// Directories first, then by name, character by character (the byte order of
/// the UTF-8 names).
pub open spec fn dir_entry_order() -> spec_fn((String, bool), (String, bool)) -> Order {
    |a: (String, bool), b: (String, bool)|
        if a.1 != b.1 {
            if a.1 {
                Order::Less
            } else {
                Order::Greater
            }
        } else {
            lex_order(a.0@, b.0@)
        }
}

proof fn lemma_dir_entry_order_total()
    ensures
        is_total_preorder(dir_entry_order()),
{
    let order = dir_entry_order();
    assert forall|a: (String, bool), b: (String, bool)| #[trigger]
        order(a, b) == crate::sorting::flipped(order(b, a)) by {
        lemma_lex_order_flip(a.0@, b.0@);
    }
    assert forall|a: (String, bool), b: (String, bool), c: (String, bool)|
        #[trigger] crate::sorting::no_later(order, a, b) && #[trigger] crate::sorting::no_later(
            order,
            b,
            c,
        ) implies crate::sorting::no_later(order, a, c) by {
        if a.1 == b.1 && b.1 == c.1 {
            lemma_lex_order_trans(a.0@, b.0@, c.0@);
        }
    }
}

/// The line for one entry of a directory: an icon and the name.
pub open spec fn dir_entry_line(e: (String, bool)) -> Seq<(Seq<char>, Tone)> {
    if e.1 {
        seq![("  "@ + "\u{f115} "@, Tone::Blue), (e.0@, Tone::Blue)]
    } else {
        seq![("  "@ + "\u{f016} "@, Tone::White), (e.0@, Tone::White)]
    }
}

/// How many entries a preview `height` rows high lists.
pub open spec fn dir_room(height: nat) -> nat {
    if height >= 3 {
        (height - 3) as nat
    } else {
        0
    }
}

/// The preview of a directory whose entries, in listing order, are `sorted`:
/// the count, then the entries that fit, then how many more there are.
pub open spec fn spec_dir_lines(sorted: Seq<(String, bool)>, height: nat) -> Seq<
    Seq<(Seq<char>, Tone)>,
> {
    let total = sorted.len();
    let room = dir_room(height);
    let shown: nat = if total <= room {
        total
    } else {
        room
    };
    seq![
        seq![("  "@ + decimal(total) + " items"@, Tone::Yellow)],
        seq![(Seq::<char>::empty(), Tone::Plain)],
    ] + Seq::new(shown, |i: int| dir_entry_line(sorted[i])) + if total > room {
        seq![seq![("  ... and "@ + decimal((total - room) as nat) + " more"@, Tone::DarkGray)]]
    } else {
        Seq::empty()
    }
}

fn dir_entry_compare(a: &(String, bool), b: &(String, bool)) -> (o: Order)
    ensures
        o == (dir_entry_order())(*a, *b),
{
    if a.1 != b.1 {
        if a.1 {
            Order::Less
        } else {
            Order::Greater
        }
    } else {
        lex_compare(a.0.as_str(), b.0.as_str())
    }
}

fn dir_entry_line_of(e: &(String, bool)) -> (r: StyledLine)
    ensures
        line_view(r) == dir_entry_line(*e),
{
    if e.1 {
        let mut icon = "  ".to_owned();
        icon.append("\u{f115} ");
        line2(icon, Tone::Blue, e.0.clone(), Tone::Blue)
    } else {
        let mut icon = "  ".to_owned();
        icon.append("\u{f016} ");
        line2(icon, Tone::White, e.0.clone(), Tone::White)
    }
}

pub struct DirectoryPreviewProvider;

impl DirectoryPreviewProvider {
    pub fn priority(&self) -> (r: u8)
        ensures
            r == 40,
    {
        40
    }

    /// The preview of a directory with `entries` (name, is a directory), in the
    /// order they were read.
    pub fn preview_lines(&self, entries: Vec<(String, bool)>, height: u16) -> (r: Vec<StyledLine>)
        ensures
            exists|sorted: Seq<(String, bool)>|
                is_stable_sort_of(sorted, entries@, dir_entry_order()) && lines_view(r@)
                    == spec_dir_lines(sorted, height as nat),
    {
        proof {
            lemma_dir_entry_order_total();
        }
        let f = |a: &(String, bool), b: &(String, bool)| -> (o: Order)
            ensures
                o == (dir_entry_order())(*a, *b),
            { dir_entry_compare(a, b) };
        let p = stable_sort_permutation(&entries, &f, Ghost(dir_entry_order()));
        let ghost sorted = Seq::new(p@.len(), |k: int| entries@[p@[k] as int]);
        assert(is_stable_sort_of(sorted, entries@, dir_entry_order()));
        let ghost want = spec_dir_lines(sorted, height as nat);
        let total = entries.len();
        let room: usize = if height >= 3 {
            (height - 3) as usize
        } else {
            0
        };
        let shown = if total <= room {
            total
        } else {
            room
        };
        let mut lines: Vec<StyledLine> = Vec::new();
        let mut head = "  ".to_owned();
        push_decimal(&mut head, total as u64);
        head.append(" items");
        lines.push(line1(head, Tone::Yellow));
        lines.push(line1(String::new(), Tone::Plain));
        let mut k: usize = 0;
        while k < shown
            invariant
                k <= shown,
                shown <= total,
                total == entries@.len(),
                p@.len() == total,
                shown == (if total <= room { total } else { room }),
                room == dir_room(height as nat),
                crate::sorting::is_index_permutation(p@, entries@.len()),
                sorted == Seq::new(p@.len(), |k: int| entries@[p@[k] as int]),
                want == spec_dir_lines(sorted, height as nat),
                lines_view(lines@) == want.take(k + 2),
            decreases shown - k,
        {
            let l = dir_entry_line_of(&entries[p[k]]);
            let ghost before = lines_view(lines@);
            lines.push(l);
            assert(lines_view(lines@) =~= before.push(line_view(l)));
            assert(want.take(k + 3) =~= want.take(k + 2).push(want[k + 2]));
            k = k + 1;
        }
        if total > room {
            let mut more = "  ... and ".to_owned();
            push_decimal(&mut more, (total - room) as u64);
            more.append(" more");
            let l = line1(more, Tone::DarkGray);
            let ghost before = lines_view(lines@);
            lines.push(l);
            assert(lines_view(lines@) =~= before.push(line_view(l)));
            assert(want =~= want.take(shown + 2).push(want[shown + 2]));
        } else {
            assert(want =~= want.take(shown + 2));
        }
        lines
    }
}

// ---------------------------------------------------------------------------
// Text files
// ---------------------------------------------------------------------------

/// Files larger than this are not previewed as text.
pub const MAX_TEXT_PREVIEW_BYTES: u64 = 10 * 1024 * 1024;

/// The extensions (lowercase) previewed as text.
pub open spec fn is_text_preview_extension(e: Seq<char>) -> bool {
    e == "txt"@
        || e == "md"@
        || e == "rs"@
        || e == "py"@
        || e == "js"@
        || e == "ts"@
        || e == "jsx"@
        || e == "tsx"@
        || e == "c"@
        || e == "cpp"@
        || e == "h"@
        || e == "hpp"@
        || e == "java"@
        || e == "go"@
        || e == "rb"@
        || e == "sh"@
        || e == "bash"@
        || e == "zsh"@
        || e == "fish"@
        || e == "toml"@
        || e == "yaml"@
        || e == "yml"@
        || e == "json"@
        || e == "xml"@
        || e == "html"@
        || e == "css"@
        || e == "scss"@
        || e == "lua"@
        || e == "vim"@
        || e == "sql"@
        || e == "zig"@
        || e == "swift"@
        || e == "kt"@
        || e == "scala"@
        || e == "makefile"@
        || e == "dockerfile"@
        || e == "gitignore"@
        || e == "env"@
        || e == "ini"@
        || e == "cfg"@
        || e == "conf"@
        || e == "log"@
}

/// The file names (lowercase) previewed as text whatever their extension.
pub open spec fn is_text_preview_name(n: Seq<char>) -> bool {
    n == "makefile"@
        || n == "dockerfile"@
        || n == ".gitignore"@
        || n == ".env"@
        || n == "cargo.lock"@
}

fn text_preview_extension(e: &str) -> (r: bool)
    ensures
        r == is_text_preview_extension(e@),
{
    str_eq(e, "txt")
        || str_eq(e, "md")
        || str_eq(e, "rs")
        || str_eq(e, "py")
        || str_eq(e, "js")
        || str_eq(e, "ts")
        || str_eq(e, "jsx")
        || str_eq(e, "tsx")
        || str_eq(e, "c")
        || str_eq(e, "cpp")
        || str_eq(e, "h")
        || str_eq(e, "hpp")
        || str_eq(e, "java")
        || str_eq(e, "go")
        || str_eq(e, "rb")
        || str_eq(e, "sh")
        || str_eq(e, "bash")
        || str_eq(e, "zsh")
        || str_eq(e, "fish")
        || str_eq(e, "toml")
        || str_eq(e, "yaml")
        || str_eq(e, "yml")
        || str_eq(e, "json")
        || str_eq(e, "xml")
        || str_eq(e, "html")
        || str_eq(e, "css")
        || str_eq(e, "scss")
        || str_eq(e, "lua")
        || str_eq(e, "vim")
        || str_eq(e, "sql")
        || str_eq(e, "zig")
        || str_eq(e, "swift")
        || str_eq(e, "kt")
        || str_eq(e, "scala")
        || str_eq(e, "makefile")
        || str_eq(e, "dockerfile")
        || str_eq(e, "gitignore")
        || str_eq(e, "env")
        || str_eq(e, "ini")
        || str_eq(e, "cfg")
        || str_eq(e, "conf")
        || str_eq(e, "log")
}

fn text_preview_name(n: &str) -> (r: bool)
    ensures
        r == is_text_preview_name(n@),
{
    str_eq(n, "makefile")
        || str_eq(n, "dockerfile")
        || str_eq(n, ".gitignore")
        || str_eq(n, ".env")
        || str_eq(n, "cargo.lock")
}

/// Whether syntect's default theme set (`ThemeSet::load_defaults`) has a theme
/// of this name.
pub uninterp spec fn spec_theme_exists(name: Seq<char>) -> bool;

/// Calls `ThemeSet::load_defaults` and looks the name up among its themes. The
/// contract names the result and states what the documentation of
/// `load_defaults` lists among its keys: `base16-ocean.dark`.
#[verifier::external_body]
fn theme_exists(name: &str) -> (r: bool)
    ensures
        r == spec_theme_exists(name@),
        name@ == "base16-ocean.dark"@ ==> r,
{
    ThemeSet::load_defaults().themes.contains_key(name)
}

/// Whether syntect's default syntax set (`SyntaxSet::load_defaults_newlines`)
/// has a syntax for this file extension.
pub uninterp spec fn spec_syntax_exists(ext: Seq<char>) -> bool;

/// Calls `SyntaxSet::load_defaults_newlines` and `find_syntax_by_extension`;
/// the contract names whether it found one.
#[verifier::external_body]
fn syntax_exists_for_extension(ext: &str) -> (r: bool)
    ensures
        r == spec_syntax_exists(ext@),
{
    SyntaxSet::load_defaults_newlines().find_syntax_by_extension(ext).is_some()
}

/// What `syntect` makes of `text` with the default syntax for extension `ext`
/// in the default theme named `theme`: its lines (as `LinesWithEndings` cuts
/// them, newline kept), each a list of (red, green, blue, text) spans; a line
/// that fails to highlight has no spans.
pub uninterp spec fn spec_highlight(text: Seq<char>, ext: Seq<char>, theme: Seq<char>) -> Seq<
    Seq<(u8, u8, u8, Seq<char>)>,
>;

/// The same as `spec_highlight`, with syntect's plain-text syntax.
pub uninterp spec fn spec_highlight_plain(text: Seq<char>, theme: Seq<char>) -> Seq<
    Seq<(u8, u8, u8, Seq<char>)>,
>;

pub open spec fn highlighted_view(v: Seq<Vec<(u8, u8, u8, String)>>) -> Seq<
    Seq<(u8, u8, u8, Seq<char>)>,
> {
    v.map_values(
        |l: Vec<(u8, u8, u8, String)>|
            l@.map_values(|sp: (u8, u8, u8, String)| (sp.0, sp.1, sp.2, sp.3@)),
    )
}

/// Calls `syntect`: the default syntax and theme sets, `find_syntax_by_extension`,
/// and `HighlightLines::highlight_line` on each line of `LinesWithEndings` (a
/// failed line gives no spans); each span is converted to its foreground
/// colour and text. The contract names the result.
#[verifier::external_body]
fn highlight_with_syntax(text: &str, ext: &str, theme: &str) -> (r: Vec<Vec<(u8, u8, u8, String)>>)
    requires
        spec_syntax_exists(ext@),
        spec_theme_exists(theme@),
    ensures
        highlighted_view(r@) == spec_highlight(text@, ext@, theme@),
{
    let ss = SyntaxSet::load_defaults_newlines();
    let ts = ThemeSet::load_defaults();
    let mut h = HighlightLines::new(ss.find_syntax_by_extension(ext).unwrap(), &ts.themes[theme]);
    LinesWithEndings::from(text).map(|l| h.highlight_line(l, &ss).unwrap_or_default().into_iter()
        .map(|(st, t)| (st.foreground.r, st.foreground.g, st.foreground.b, t.to_string()))
        .collect()).collect()
}

/// The same calls as `highlight_with_syntax`, with `find_syntax_plain_text` for
/// the syntax. The contract names the result.
#[verifier::external_body]
fn highlight_plain(text: &str, theme: &str) -> (r: Vec<Vec<(u8, u8, u8, String)>>)
    requires
        spec_theme_exists(theme@),
    ensures
        highlighted_view(r@) == spec_highlight_plain(text@, theme@),
{
    let ss = SyntaxSet::load_defaults_newlines();
    let ts = ThemeSet::load_defaults();
    let mut h = HighlightLines::new(ss.find_syntax_plain_text(), &ts.themes[theme]);
    LinesWithEndings::from(text).map(|l| h.highlight_line(l, &ss).unwrap_or_default().into_iter()
        .map(|(st, t)| (st.foreground.r, st.foreground.g, st.foreground.b, t.to_string()))
        .collect()).collect()
}

/// The theme a provider asked for `name` highlights in: that theme when the
/// default set has it, else `base16-ocean.dark`.
pub open spec fn resolved_theme(name: Seq<char>) -> Seq<char> {
    if spec_theme_exists(name) {
        name
    } else {
        "base16-ocean.dark"@
    }
}

/// The theme to highlight in when `name` is asked for.
pub fn resolve_theme(name: &str) -> (r: String)
    ensures
        r@ == resolved_theme(name@),
        spec_theme_exists(r@),
{
    if theme_exists(name) {
        name.to_owned()
    } else {
        let found = theme_exists("base16-ocean.dark");
        assert(found);
        "base16-ocean.dark".to_owned()
    }
}

/// The highlighted lines of `text` for extension `ext` in theme `theme`: with
/// the syntax for the extension, or as plain text when there is none.
pub open spec fn spec_highlighted(text: Seq<char>, ext: Seq<char>, theme: Seq<char>) -> Seq<
    Seq<(u8, u8, u8, Seq<char>)>,
> {
    if spec_syntax_exists(ext) {
        spec_highlight(text, ext, resolved_theme(theme))
    } else {
        spec_highlight_plain(text, resolved_theme(theme))
    }
}

/// Highlights `text` for extension `ext` in the theme resolved from `theme`.
fn highlight_text(text: &str, ext: &str, theme: &str) -> (r: Vec<Vec<(u8, u8, u8, String)>>)
    ensures
        highlighted_view(r@) == spec_highlighted(text@, ext@, theme@),
{
    let th = resolve_theme(theme);
    if syntax_exists_for_extension(ext) {
        highlight_with_syntax(text, ext, th.as_str())
    } else {
        highlight_plain(text, th.as_str())
    }
}

/// Where the first `n` lines of `t` end, scanning from `i`: just after the
/// `n`-th newline, or at the end of the text.
pub open spec fn lines_end(t: Seq<char>, n: nat, i: int) -> int
    decreases t.len() - i,
{
    if n == 0 || i >= t.len() || i < 0 {
        if i < 0 {
            0
        } else if i > t.len() {
            t.len() as int
        } else {
            i
        }
    } else if t[i] == '\n' {
        lines_end(t, (n - 1) as nat, i + 1)
    } else {
        lines_end(t, n, i + 1)
    }
}

/// The first `n` lines of `t`, newlines kept.
pub open spec fn first_lines(t: Seq<char>, n: nat) -> Seq<char> {
    t.take(lines_end(t, n, 0))
}

/// The number of newline characters in `t`.
pub open spec fn newline_count(t: Seq<char>) -> nat
    decreases t.len(),
{
    if t.len() == 0 {
        0
    } else {
        (if t[0] == '\n' {
            1nat
        } else {
            0nat
        }) + newline_count(t.drop_first())
    }
}

proof fn lemma_lines_end(t: Seq<char>, n: nat, i: int)
    requires
        0 <= i <= t.len(),
    ensures
        i <= lines_end(t, n, i) <= t.len(),
        newline_count(t.subrange(i, lines_end(t, n, i))) == if newline_count(t.skip(i)) < n {
            newline_count(t.skip(i))
        } else {
            n
        },
        n == 0 ==> lines_end(t, n, i) == i,
        n > 0 && newline_count(t.subrange(i, lines_end(t, n, i))) == n ==> lines_end(t, n, i) > i
            && t[lines_end(t, n, i) - 1] == '\n',
        newline_count(t.subrange(i, lines_end(t, n, i))) < n ==> lines_end(t, n, i) == t.len(),
    decreases t.len() - i,
{
    let e = lines_end(t, n, i);
    if n == 0 || i >= t.len() {
        assert(t.subrange(i, e) =~= Seq::<char>::empty());
        if i == t.len() {
            assert(t.skip(i) =~= Seq::<char>::empty());
        }
    } else {
        let m: nat = if t[i] == '\n' { (n - 1) as nat } else { n };
        lemma_lines_end(t, m, i + 1);
        assert(e == lines_end(t, m, i + 1));
        assert(t.subrange(i, e).drop_first() =~= t.subrange(i + 1, e));
        assert(t.subrange(i, e)[0] == t[i]);
        assert(t.skip(i).drop_first() =~= t.skip(i + 1));
        assert(t.skip(i)[0] == t[i]);
    }
}

/// The first `n` lines of a text are where its preview is cut: a prefix of
/// the text holding as many newlines as the text has, up to `n`; when it
/// holds `n` of them it ends just after the `n`-th, and when it holds fewer it
/// is the whole text. No lines gives nothing.
pub proof fn law_first_lines(t: Seq<char>, n: nat)
    ensures
        first_lines(t, n).len() <= t.len(),
        first_lines(t, n) == t.take(first_lines(t, n).len() as int),
        newline_count(first_lines(t, n)) == if newline_count(t) < n {
            newline_count(t)
        } else {
            n
        },
        n == 0 ==> first_lines(t, n).len() == 0,
        n > 0 && newline_count(first_lines(t, n)) == n ==> first_lines(t, n).len() > 0
            && first_lines(t, n).last() == '\n',
        newline_count(first_lines(t, n)) < n ==> first_lines(t, n) == t,
{
    lemma_lines_end(t, n, 0);
    let e = lines_end(t, n, 0);
    assert(t.subrange(0, e) =~= t.take(e));
    assert(t.skip(0) =~= t);
    if e == t.len() {
        assert(t.take(e) =~= t);
    }
}

/// The styled lines for highlighted lines: each span in its colour.
pub open spec fn styled_view(h: Seq<Seq<(u8, u8, u8, Seq<char>)>>) -> Seq<Seq<(Seq<char>, Tone)>> {
    h.map_values(
        |l: Seq<(u8, u8, u8, Seq<char>)>|
            l.map_values(|sp: (u8, u8, u8, Seq<char>)| (sp.3, Tone::Rgb(sp.0, sp.1, sp.2))),
    )
}

/// The preview of a text file of `size` bytes: too large above 10 MiB,
/// otherwise its first `height` lines highlighted for its extension (`txt`
/// when it has none; plain text when no syntax has that extension) in the
/// theme resolved from `theme`. Only those lines are highlighted: `syntect`
/// highlights a text line by line from its start, so they come out as in the
/// whole text.
pub open spec fn spec_text_preview(
    size: u64,
    text: Seq<char>,
    ext: Option<Seq<char>>,
    theme: Seq<char>,
    height: nat,
) -> Result<Seq<Seq<(Seq<char>, Tone)>>, u64> {
    if size > MAX_TEXT_PREVIEW_BYTES {
        Err(size)
    } else {
        let e = match ext {
            Some(x) => x,
            None => "txt"@,
        };
        let h = spec_highlighted(first_lines(text, height), e, theme);
        Ok(styled_view(h).take(
            if h.len() <= height {
                h.len() as int
            } else {
                height as int
            },
        ))
    }
}

/// A text file's preview is highlighted for the file's own extension (with
/// the syntax for it, or as plain text when syntect has none), in the
/// provider's theme, one styled line per highlighted line up to the pane's
/// height; a file without extension is highlighted as `txt`, and a file over
/// 10 MiB is refused with its size.
pub proof fn law_text_preview_uses_extension(
    size: u64,
    text: Seq<char>,
    ext: Seq<char>,
    theme: Seq<char>,
    height: nat,
)
    ensures
        size > 10485760 ==> spec_text_preview(size, text, Some(ext), theme, height) == Err::<
            Seq<Seq<(Seq<char>, Tone)>>,
            u64,
        >(size),
        size <= 10485760 ==> spec_text_preview(size, text, Some(ext), theme, height) == Ok::<
            Seq<Seq<(Seq<char>, Tone)>>,
            u64,
        >(
            styled_view(spec_highlighted(first_lines(text, height), ext, theme)).take(
                if spec_highlighted(first_lines(text, height), ext, theme).len() <= height {
                    spec_highlighted(first_lines(text, height), ext, theme).len() as int
                } else {
                    height as int
                },
            ),
        ),
        size <= 10485760 ==> spec_text_preview(size, text, None, theme, height) == spec_text_preview(
            size,
            text,
            Some("txt"@),
            theme,
            height,
        ),
{
}

fn first_lines_text(text: &str, n: u16) -> (r: String)
    ensures
        r@ == first_lines(text@, n as nat),
{
    let chars = crate::text::chars_of(text);
    let mut i: usize = 0;
    let mut left: u16 = n;
    while left > 0 && i < chars.len()
        invariant
            i <= chars@.len(),
            left <= n,
            chars@ == text@,
            lines_end(text@, n as nat, 0) == lines_end(text@, left as nat, i as int),
        decreases chars.len() - i,
    {
        if chars[i] == '\n' {
            left = left - 1;
        }
        i = i + 1;
    }
    let (head, _) = chars.as_slice().split_at(i);
    crate::text::string_from_chars(head)
}

/// Previews text files.
pub struct TextPreviewProvider {
    /// The name of the highlighting theme.
    pub theme: String,
}

impl TextPreviewProvider {
    /// A provider highlighting in the `base16-ocean.dark` theme.
    pub fn new() -> (r: Self)
        ensures
            r.theme@ == "base16-ocean.dark"@,
    {
        TextPreviewProvider { theme: "base16-ocean.dark".to_owned() }
    }

    /// A provider highlighting in the theme named `theme_name`, or in
    /// `base16-ocean.dark` when the default theme set has none of that name.
    pub fn with_theme(theme_name: &str) -> (r: Self)
        ensures
            r.theme@ == resolved_theme(theme_name@),
    {
        TextPreviewProvider { theme: resolve_theme(theme_name) }
    }

    pub fn priority(&self) -> (r: u8)
        ensures
            r == 60,
    {
        60
    }

    /// Whether a path is previewed as text: a regular file whose extension or
    /// name, ignoring case, is one of the known ones.
    pub fn can_preview(&self, is_file: bool, extension: &str, file_name: &str) -> (r: bool)
        ensures
            r == (is_file && (is_text_preview_extension(spec_lowercase(extension@))
                || is_text_preview_name(spec_lowercase(file_name@)))),
    {
        if !is_file {
            return false;
        }
        let e = to_lowercase(extension);
        let n = to_lowercase(file_name);
        text_preview_extension(e.as_str()) || text_preview_name(n.as_str())
    }

    /// A file of `len` bytes may be previewed unless it is larger than 10 MiB.
    pub fn check_size(&self, len: u64) -> (r: Result<(), PreviewError>)
        ensures
            len <= MAX_TEXT_PREVIEW_BYTES ==> r is Ok,
            len > MAX_TEXT_PREVIEW_BYTES ==> (r matches Err(PreviewError::TooLarge { size }) && size
                == len),
    {
        if len > MAX_TEXT_PREVIEW_BYTES {
            Err(PreviewError::TooLarge { size: len })
        } else {
            Ok(())
        }
    }

    /// The preview of a text file of `size` bytes holding `text`, whose
    /// extension is `ext`, in a pane `height` rows high.
    pub fn text_preview(&self, size: u64, text: &str, ext: Option<&str>, height: u16) -> (r: Result<
        Vec<StyledLine>,
        PreviewError,
    >)
        ensures
            match spec_text_preview(size, text@, opt_str_view(ext), self.theme@, height as nat) {
                Err(n) => r matches Err(PreviewError::TooLarge { size: m }) && m == n,
                Ok(lines) => r matches Ok(v) && lines_view(v@) == lines,
            },
    {
        if size > MAX_TEXT_PREVIEW_BYTES {
            return Err(PreviewError::TooLarge { size });
        }
        let e = match ext {
            Some(x) => x,
            None => "txt",
        };
        let head = first_lines_text(text, height);
        let hl = highlight_text(head.as_str(), e, self.theme.as_str());
        let ghost want = styled_view(highlighted_view(hl@));
        let count = if hl.len() <= height as usize {
            hl.len()
        } else {
            height as usize
        };
        let mut lines: Vec<StyledLine> = Vec::new();
        let mut k: usize = 0;
        while k < count
            invariant
                k <= count <= hl@.len(),
                want == styled_view(highlighted_view(hl@)),
                lines_view(lines@) == want.take(k as int),
            decreases count - k,
        {
            let src = &hl[k];
            assert(want[k as int].len() == src@.len());
            assert(forall|jj: int|
                0 <= jj < src@.len() ==> #[trigger] want[k as int][jj] == (
                    src@[jj].3@,
                    Tone::Rgb(src@[jj].0, src@[jj].1, src@[jj].2),
                ));
            let mut spans: Vec<StyledSpan> = Vec::new();
            let mut j: usize = 0;
            while j < src.len()
                invariant
                    j <= src@.len(),
                    want[k as int].len() == src@.len(),
                    forall|jj: int|
                        0 <= jj < src@.len() ==> #[trigger] want[k as int][jj] == (
                            src@[jj].3@,
                            Tone::Rgb(src@[jj].0, src@[jj].1, src@[jj].2),
                        ),
                    spans@.map_values(|s: StyledSpan| (s.text@, s.tone)) == want[k as int].take(
                        j as int,
                    ),
                decreases src.len() - j,
            {
                let sp = &src[j];
                let ghost before = spans@.map_values(|s: StyledSpan| (s.text@, s.tone));
                spans.push(StyledSpan { text: sp.3.clone(), tone: Tone::Rgb(sp.0, sp.1, sp.2) });
                assert(spans@.map_values(|s: StyledSpan| (s.text@, s.tone)) =~= before.push(
                    want[k as int][j as int],
                ));
                assert(want[k as int].take(j + 1) =~= want[k as int].take(j as int).push(
                    want[k as int][j as int],
                ));
                j = j + 1;
            }
            assert(want[k as int].take(src@.len() as int) =~= want[k as int]);
            let l = StyledLine { spans };
            let ghost before = lines_view(lines@);
            lines.push(l);
            assert(lines_view(lines@) =~= before.push(want[k as int]));
            assert(want.take(k + 1) =~= want.take(k as int).push(want[k as int]));
            k = k + 1;
        }
        Ok(lines)
    }
}

// ---------------------------------------------------------------------------
// Images in the Kitty graphics protocol
// ---------------------------------------------------------------------------

/// The extensions (lowercase) shown as images.
pub open spec fn is_image_preview_extension(e: Seq<char>) -> bool {
    e == "png"@
        || e == "jpg"@
        || e == "jpeg"@
        || e == "gif"@
        || e == "bmp"@
        || e == "webp"@
        || e == "tiff"@
        || e == "ico"@
}

fn image_preview_extension(e: &str) -> (r: bool)
    ensures
        r == is_image_preview_extension(e@),
{
    str_eq(e, "png")
        || str_eq(e, "jpg")
        || str_eq(e, "jpeg")
        || str_eq(e, "gif")
        || str_eq(e, "bmp")
        || str_eq(e, "webp")
        || str_eq(e, "tiff")
        || str_eq(e, "ico")
}

pub open spec fn opt_str_view(o: Option<&str>) -> Option<Seq<char>> {
    match o {
        Some(s) => Some(s@),
        None => None,
    }
}

/// Whether the terminal shows Kitty images, from `TERM_PROGRAM`, `TERM` and
/// whether `KITTY_WINDOW_ID` is set.
pub open spec fn spec_kitty_support(
    term_program: Option<Seq<char>>,
    term: Option<Seq<char>>,
    kitty_window_id: bool,
) -> bool {
    ||| match term_program {
        Some(t) => is_substring("kitty"@, spec_lowercase(t)) || is_substring(
            "wezterm"@,
            spec_lowercase(t),
        ),
        None => false,
    }
    ||| match term {
        Some(t) => is_substring("kitty"@, t),
        None => false,
    }
    ||| kitty_window_id
}

pub struct KittyImageProvider {
    pub supported: bool,
}

impl KittyImageProvider {
    /// A provider for the terminal described by the environment variables
    /// `TERM_PROGRAM` and `TERM` (when set) and by whether `KITTY_WINDOW_ID` is set.
    pub fn new(term_program: Option<&str>, term: Option<&str>, kitty_window_id: bool) -> (r: Self)
        ensures
            r.supported == spec_kitty_support(
                opt_str_view(term_program),
                opt_str_view(term),
                kitty_window_id,
            ),
    {
        let by_program = match term_program {
            Some(t) => {
                let lower = to_lowercase(t);
                str_contains(lower.as_str(), "kitty") || str_contains(lower.as_str(), "wezterm")
            },
            None => false,
        };
        let by_term = match term {
            Some(t) => str_contains(t, "kitty"),
            None => false,
        };
        KittyImageProvider { supported: by_program || by_term || kitty_window_id }
    }

    pub fn force_enabled() -> (r: Self)
        ensures
            r.supported,
    {
        KittyImageProvider { supported: true }
    }

    pub fn priority(&self) -> (r: u8)
        ensures
            r == 70,
    {
        70
    }

    /// Whether a path is shown as an image: the terminal can, it is a regular
    /// file, and its extension, ignoring case, is a known image one.
    pub fn can_preview(&self, is_file: bool, extension: &str) -> (r: bool)
        ensures
            r == (self.supported && is_file && is_image_preview_extension(
                spec_lowercase(extension@),
            )),
    {
        if !self.supported || !is_file {
            return false;
        }
        let e = to_lowercase(extension);
        image_preview_extension(e.as_str())
    }

    /// The size in pixels an image is scaled to for a pane of `width` by
    /// `height` cells (8 by 16 pixels a cell).
    pub fn target_size(&self, width: u16, height: u16) -> (r: (u32, u32))
        ensures
            r == ((width as u32 * 8) as u32, (height as u32 * 16) as u32),
    {
        (width as u32 * 8, height as u32 * 16)
    }
}

/// What the `image` crate makes of the file bytes `bytes` whose extension is
/// `ext`: decoded in the format the extension names, resized to fit `w` by `h`
/// pixels (aspect ratio kept, triangle filter), as RGBA bytes with the final
/// width and height; or the text of the error when decoding fails.
pub uninterp spec fn spec_decode_resize_rgba(bytes: Seq<u8>, ext: Seq<char>, w: nat, h: nat) -> Result<
    (Seq<u8>, nat, nat),
    Seq<char>,
>;

/// Calls `image::ImageReader::decode` on the bytes, in the format
/// `ImageFormat::from_extension` gives for `ext` (as `image::open` does for a
/// path), then `DynamicImage::resize` with `FilterType::Triangle`, `dimensions`
/// and `to_rgba8`; an error is converted to its text. The contract names the
/// result.
#[verifier::external_body]
fn decode_resize_rgba(bytes: &[u8], ext: &str, w: u32, h: u32) -> (r: Result<(Vec<u8>, u32, u32), String>)
    ensures
        match spec_decode_resize_rgba(bytes@, ext@, w as nat, h as nat) {
            Ok(t) => r matches Ok(v) && v.0@ == t.0 && v.1 as nat == t.1 && v.2 as nat == t.2,
            Err(m) => r matches Err(e) && e@ == m,
        },
{
    let mut reader = image::ImageReader::new(std::io::Cursor::new(bytes));
    if let Some(f) = image::ImageFormat::from_extension(ext) {
        reader.set_format(f);
    }
    match reader.decode() {
        Ok(img) => {
            let small = img.resize(w, h, image::imageops::FilterType::Triangle);
            let (fw, fh) = image::GenericImageView::dimensions(&small);
            Ok((small.to_rgba8().into_raw(), fw, fh))
        },
        Err(e) => Err(e.to_string()),
    }
}

impl KittyImageProvider {
    /// The preview of an image file holding `bytes`, with extension `ext`, in a
    /// pane of `width` by `height` cells: the image scaled to the pane's pixel
    /// size as RGBA, or the error of decoding it.
    pub fn image_preview(&self, bytes: &[u8], ext: &str, width: u16, height: u16) -> (r: Result<
        PreviewContent,
        PreviewError,
    >)
        ensures
            match spec_decode_resize_rgba(
                bytes@,
                ext@,
                (width as u32 * 8) as nat,
                (height as u32 * 16) as nat,
            ) {
                Ok(t) => r matches Ok(PreviewContent::KittyImage { data, width: w, height: h, format })
                    && data@ == t.0 && w as nat == t.1 && h as nat == t.2 && format
                    == ImageFormat::Rgba32,
                Err(m) => r matches Err(PreviewError::Other(e)) && e@ == "Failed to open image: "@
                    + m,
            },
    {
        let (tw, th) = self.target_size(width, height);
        match decode_resize_rgba(bytes, ext, tw, th) {
            Ok((data, w, h)) => Ok(
                PreviewContent::KittyImage { data, width: w, height: h, format: ImageFormat::Rgba32 },
            ),
            Err(m) => Err(PreviewError::Other(joined("Failed to open image: ", m.as_str()))),
        }
    }
}

/// The character of a 6-bit value in the standard base64 alphabet
/// (`A`-`Z`, `a`-`z`, `0`-`9`, `+`, `/`).
pub open spec fn base64_char(v: nat) -> char {
    if v < 26 {
        (65 + v) as char
    } else if v < 52 {
        (97 + (v - 26)) as char
    } else if v < 62 {
        (48 + (v - 52)) as char
    } else if v == 62 {
        '+'
    } else {
        '/'
    }
}

/// Standard base64 with padding (RFC 4648): each group of three bytes becomes
/// four characters; a last group of one or two bytes is padded with `=`.
pub open spec fn spec_base64_standard(d: Seq<u8>) -> Seq<char>
    decreases d.len(),
{
    if d.len() == 0 {
        Seq::empty()
    } else if d.len() == 1 {
        seq![base64_char(d[0] as nat / 4), base64_char((d[0] as nat % 4) * 16), '=', '=']
    } else if d.len() == 2 {
        seq![
            base64_char(d[0] as nat / 4),
            base64_char((d[0] as nat % 4) * 16 + d[1] as nat / 16),
            base64_char((d[1] as nat % 16) * 4),
            '=',
        ]
    } else {
        seq![
            base64_char(d[0] as nat / 4),
            base64_char((d[0] as nat % 4) * 16 + d[1] as nat / 16),
            base64_char((d[1] as nat % 16) * 4 + d[2] as nat / 64),
            base64_char(d[2] as nat % 64),
        ] + spec_base64_standard(d.skip(3))
    }
}

/// Base64 turns every started group of three bytes into four characters, and
/// encodes data cut after a whole number of groups piece by piece.
pub proof fn law_base64_groups(a: Seq<u8>, b: Seq<u8>)
    ensures
        spec_base64_standard(a).len() == 4 * ((a.len() + 2) / 3),
        a.len() % 3 == 0 ==> spec_base64_standard(a + b) == spec_base64_standard(a)
            + spec_base64_standard(b),
    decreases a.len(),
{
    if a.len() >= 3 {
        law_base64_groups(a.skip(3), b);
        assert((a.len() - 3 + 2) / 3 + 1 == (a.len() + 2) / 3);
        if a.len() % 3 == 0 {
            let ab = a + b;
            assert(ab.skip(3) =~= a.skip(3) + b);
            assert(ab[0] == a[0] && ab[1] == a[1] && ab[2] == a[2]);
            assert(a.skip(3).len() % 3 == 0);
        }
    } else if a.len() == 0 {
        assert(a + b =~= b);
        assert(spec_base64_standard(a) + spec_base64_standard(b) =~= spec_base64_standard(b));
    }
}

/// Calls `Engine::encode` of `base64::engine::general_purpose::STANDARD`: the
/// standard alphabet with padding. It panics only when the length of the
/// encoding overflows `usize`, which the bound on the input rules out.
#[verifier::external_body]
fn base64_standard(data: &[u8]) -> (r: String)
    requires
        data@.len() <= isize::MAX,
    ensures
        r@ == spec_base64_standard(data@),
{
    base64::Engine::encode(&base64::engine::general_purpose::STANDARD, data)
}

/// The Kitty format code of an image format.
pub open spec fn format_code(f: ImageFormat) -> nat {
    match f {
        ImageFormat::Rgba32 => 32,
        ImageFormat::Rgb24 => 24,
        ImageFormat::Png => 100,
    }
}

/// How many characters of encoded data one escape sequence carries.
pub const KITTY_CHUNK: usize = 4096;

/// The `i`-th of `n` escape sequences carrying `enc`: the first one holds the
/// image's format and size; each says whether more follow.
pub open spec fn kitty_piece(enc: Seq<char>, i: nat, n: nat, fmt: nat, w: nat, h: nat) -> Seq<char> {
    let start: int = 4096 * (i as int);
    let end: int = if start + 4096 <= enc.len() {
        start + 4096
    } else {
        enc.len() as int
    };
    let chunk = enc.subrange(start, end);
    let more = if i + 1 == n {
        '0'
    } else {
        '1'
    };
    if i == 0 {
        "\x1b_Ga=T,f="@ + decimal(fmt) + ",s="@ + decimal(w) + ",v="@ + decimal(h) + ",m="@
            + seq![more] + ";"@ + chunk + "\x1b\\"@
    } else {
        "\x1b_Gm="@ + seq![more] + ";"@ + chunk + "\x1b\\"@
    }
}

/// The first `k` of the `n` escape sequences, one after the other.
pub open spec fn kitty_pieces(enc: Seq<char>, k: nat, n: nat, fmt: nat, w: nat, h: nat) -> Seq<char>
    decreases k,
{
    if k == 0 {
        Seq::empty()
    } else {
        kitty_pieces(enc, (k - 1) as nat, n, fmt, w, h) + kitty_piece(enc, (k - 1) as nat, n, fmt, w, h)
    }
}

/// How many escape sequences carry an encoding of `len` characters: one per
/// 4096 characters, and always at least the first, which carries the header.
pub open spec fn kitty_piece_count(len: nat) -> nat {
    if len == 0 {
        1
    } else {
        (len + 4095) / 4096
    }
}

/// The escape sequences that show an image: its encoding cut into pieces of
/// 4096 characters (an empty encoding still gets the header piece).
pub open spec fn spec_kitty_escape(enc: Seq<char>, fmt: nat, w: nat, h: nat) -> Seq<char> {
    let n = kitty_piece_count(enc.len());
    kitty_pieces(enc, n, n, fmt, w, h)
}

/// An encoding of at most 4096 characters goes in one escape sequence: the
/// header with the format, width and height, `m=0` (no more pieces follow),
/// the whole encoding, and the terminator. A longer one takes one piece per
/// 4096 characters, as few as hold it.
pub proof fn law_kitty_pieces(enc: Seq<char>, fmt: nat, w: nat, h: nat)
    ensures
        enc.len() <= 4096 ==> spec_kitty_escape(enc, fmt, w, h) == "\x1b_Ga=T,f="@ + decimal(fmt)
            + ",s="@ + decimal(w) + ",v="@ + decimal(h) + ",m="@ + seq!['0'] + ";"@ + enc
            + "\x1b\\"@,
        enc.len() > 0 ==> (kitty_piece_count(enc.len()) - 1) * 4096 < enc.len()
            <= kitty_piece_count(enc.len()) * 4096,
{
    let n = kitty_piece_count(enc.len());
    if enc.len() <= 4096 {
        assert(n == 1);
        assert(enc.subrange(0, enc.len() as int) =~= enc);
        assert(kitty_pieces(enc, 0, 1, fmt, w, h) =~= Seq::<char>::empty());
        let p = kitty_piece(enc, 0, 1, fmt, w, h);
        assert(kitty_pieces(enc, 1, 1, fmt, w, h) =~= Seq::<char>::empty() + p);
        assert(Seq::<char>::empty() + p =~= p);
    }
    if enc.len() > 0 {
        let l = enc.len() as int;
        assert((((l + 4095) / 4096) - 1) * 4096 < l <= ((l + 4095) / 4096) * 4096) by (nonlinear_arith)
            requires
                l > 0,
        ;
    }
}

fn format_number(f: ImageFormat) -> (r: u64)
    ensures
        r == format_code(f),
{
    match f {
        ImageFormat::Rgba32 => 32,
        ImageFormat::Rgb24 => 24,
        ImageFormat::Png => 100,
    }
}

fn kitty_piece_text(enc: &Vec<char>, i: usize, n: usize, fmt: u64, w: u32, h: u32) -> (r: String)
    requires
        i < n,
        n == kitty_piece_count(enc@.len()),
    ensures
        r@ == kitty_piece(enc@, i as nat, n as nat, fmt as nat, w as nat, h as nat),
{
    let len = enc.len();
    assert(4096 * i <= len) by (nonlinear_arith)
        requires
            i < n,
            len > 0 ==> n == (len + 4095) / 4096,
            len == 0 ==> n == 1,
    ;
    let start = KITTY_CHUNK * i;
    let end = if len - start >= KITTY_CHUNK {
        start + KITTY_CHUNK
    } else {
        enc.len()
    };
    let mut s = if i == 0 {
        let mut s = "\x1b_Ga=T,f=".to_owned();
        push_decimal(&mut s, fmt);
        s.append(",s=");
        push_decimal(&mut s, w as u64);
        s.append(",v=");
        push_decimal(&mut s, h as u64);
        s.append(",m=");
        s
    } else {
        "\x1b_Gm=".to_owned()
    };
    string_push(&mut s, if i + 1 == n { '0' } else { '1' });
    s.append(";");
    let ghost head = s@;
    let mut k = start;
    while k < end
        invariant
            start <= k <= end <= enc@.len(),
            s@ == head + enc@.subrange(start as int, k as int),
        decreases end - k,
    {
        string_push(&mut s, enc[k]);
        k = k + 1;
        assert(s@ =~= head + enc@.subrange(start as int, k as int));
    }
    s.append("\x1b\\");
    s
}

/// The Kitty graphics escape sequences that show an image of `width` by
/// `height` pixels whose pixels are `data` in `format`.
pub fn encode_kitty_image(data: &[u8], width: u32, height: u32, format: ImageFormat) -> (r: String)
    requires
        data@.len() <= isize::MAX,
    ensures
        r@ == spec_kitty_escape(
            spec_base64_standard(data@),
            format_code(format),
            width as nat,
            height as nat,
        ),
{
    let fmt = format_number(format);
    let encoded = base64_standard(data);
    let enc = crate::text::chars_of(encoded.as_str());
    let len = enc.len();
    let n = if len == 0 {
        1
    } else {
        len / KITTY_CHUNK + if len % KITTY_CHUNK == 0 {
            0
        } else {
            1
        }
    };
    assert(n == kitty_piece_count(enc@.len()));
    let mut out = String::new();
    let mut i: usize = 0;
    while i < n
        invariant
            i <= n,
            n == kitty_piece_count(enc@.len()),
            out@ == kitty_pieces(enc@, i as nat, n as nat, fmt as nat, width as nat, height as nat),
        decreases n - i,
    {
        let piece = kitty_piece_text(&enc, i, n, fmt, width, height);
        out.append(piece.as_str());
        i = i + 1;
    }
    out
}

/// The escape sequence that removes the images shown.
pub fn clear_kitty_image() -> (r: &'static str)
    ensures
        r@ == "\x1b_Ga=d;\x1b\\"@,
{
    "\x1b_Ga=d;\x1b\\"
}

/// What the preview manager does next when choosing a provider.
#[derive(Debug, Clone, Copy, PartialEq, Eq, Structural)]
pub enum ProviderStep {
    /// Ask provider `i` whether it can preview the path.
    Ask(usize),
    /// Let provider `i` build the preview.
    Use(usize),
    /// No provider can: show the placeholder.
    NoPreview,
}

/// The next step in choosing among `count` providers, asked in order, after
/// the first `answers.len()` of them answered `answers` (whether each can
/// preview the path): the first that said yes is used, and no provider after
/// it is asked.
pub fn next_provider_step(answers: &Vec<bool>, count: usize) -> (r: ProviderStep)
    ensures
        match r {
            ProviderStep::Use(i) => i < answers@.len() && answers@[i as int] && forall|j: int|
                0 <= j < i ==> !answers@[j],
            ProviderStep::Ask(i) => i == answers@.len() && i < count && forall|j: int|
                0 <= j < answers@.len() ==> !answers@[j],
            ProviderStep::NoPreview => answers@.len() >= count && forall|j: int|
                0 <= j < answers@.len() ==> !answers@[j],
        },
{
    let mut i: usize = 0;
    while i < answers.len()
        invariant
            i <= answers@.len(),
            forall|j: int| 0 <= j < i ==> !answers@[j],
        decreases answers@.len() - i,
    {
        if answers[i] {
            return ProviderStep::Use(i);
        }
        i = i + 1;
    }
    if answers.len() < count {
        ProviderStep::Ask(answers.len())
    } else {
        ProviderStep::NoPreview
    }
}

/// Whether `order` lists the providers highest priority first, those of equal
/// priority in the order they were added.
pub open spec fn priority_ordered(prios: Seq<u8>, order: Seq<usize>) -> bool {
    forall|a: int, b: int|
        0 <= a < b < order.len() ==> prios[order[a] as int] > prios[order[b] as int] || (
        prios[order[a] as int] == prios[order[b] as int] && order[a] < order[b])
}

/// Whether `order` lists each of the `n` providers exactly once.
pub open spec fn lists_each_once(order: Seq<usize>, n: nat) -> bool {
    &&& order.len() == n
    &&& forall|a: int| 0 <= a < n ==> order[a] < n
    &&& forall|a: int, b: int| 0 <= a < b < n ==> order[a] != order[b]
}

/// The order in which providers of the given priorities are asked: a stable
/// sort by priority, highest first.
pub fn priority_order(prios: &Vec<u8>) -> (r: Vec<usize>)
    ensures
        lists_each_once(r@, prios@.len()),
        priority_ordered(prios@, r@),
{
    let n = prios.len();
    let mut order: Vec<usize> = Vec::new();
    let mut k: usize = 0;
    while k < n
        invariant
            k <= n,
            n == prios@.len(),
            order@.len() == k,
            forall|a: int| 0 <= a < k ==> order@[a] < k,
            forall|a: int, b: int| 0 <= a < b < k ==> order@[a] != order@[b],
            priority_ordered(prios@, order@),
        decreases n - k,
    {
        // place k after every provider of priority at least its own
        let p = prios[k];
        let mut pos: usize = 0;
        while pos < order.len() && prios[order[pos]] >= p
            invariant
                pos <= order@.len(),
                order@.len() == k,
                k < n,
                n == prios@.len(),
                forall|a: int| 0 <= a < k ==> order@[a] < k,
                p == prios@[k as int],
                forall|a: int| 0 <= a < pos ==> prios@[order@[a] as int] >= p,
            decreases order@.len() - pos,
        {
            pos = pos + 1;
        }
        proof {
            // every later entry has a lower priority: the list is ordered
            assert forall|a: int| pos <= a < k implies prios@[order@[a] as int] < p by {
                if pos < k {
                    assert(prios@[order@[pos as int] as int] < p);
                    if a > pos {
                        assert(prios@[order@[pos as int] as int] >= prios@[order@[a] as int]);
                    }
                }
            }
        }
        let ghost old_order = order@;
        order.insert(pos, k);
        proof {
            assert forall|a: int, b: int| 0 <= a < b < order@.len() implies prios@[order@[a] as int]
                > prios@[order@[b] as int] || (prios@[order@[a] as int] == prios@[order@[b] as int]
                && order@[a] < order@[b]) by {
                if b < pos {
                    assert(order@[a] == old_order[a] && order@[b] == old_order[b]);
                } else if b == pos {
                    assert(order@[a] == old_order[a]);
                } else if a == pos {
                    assert(order@[b] == old_order[b - 1]);
                } else if a < pos {
                    assert(order@[a] == old_order[a] && order@[b] == old_order[b - 1]);
                } else {
                    assert(order@[a] == old_order[a - 1] && order@[b] == old_order[b - 1]);
                }
            }
            assert forall|a: int, b: int| 0 <= a < b < k + 1 implies order@[a] != order@[b] by {
                if b < pos {
                    assert(order@[a] == old_order[a] && order@[b] == old_order[b]);
                } else if b == pos {
                    assert(order@[a] == old_order[a]);
                } else if a == pos {
                    assert(order@[b] == old_order[b - 1]);
                } else if a < pos {
                    assert(order@[a] == old_order[a] && order@[b] == old_order[b - 1]);
                } else {
                    assert(order@[a] == old_order[a - 1] && order@[b] == old_order[b - 1]);
                }
            }
            assert forall|a: int| 0 <= a < k + 1 implies order@[a] < k + 1 by {
                if a < pos {
                    assert(order@[a] == old_order[a]);
                } else if a > pos {
                    assert(order@[a] == old_order[a - 1]);
                }
            }
        }
        k = k + 1;
    }
    order
}

} // verus!
