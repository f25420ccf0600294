//! The composer's display text: each file reference of a message shown as a
//! chip (a space, an icon gap, the basename, a space), and the mapping of
//! cursor offsets between the message and what is displayed.
use vstd::prelude::*;
use vstd::utf8::*;
use crate::text::{
    utf8, substr, push_char, lemma_utf8_concat, lemma_boundary_at_ascii, lemma_boundary_after_ascii,
};
use crate::inline_file::{
    basename_of, names_directory, references_of, parse_inline_file_references, lemma_scan_bounds,
    models_all, InlineFileReference,
};
use core::ops::Range;

verus! {

broadcast use vstd::utf8::encode_utf8_valid_utf8, vstd::utf8::encode_utf8_decode_utf8;

/// Bytes the icon gap takes: an em space and a thin space.
pub open spec fn icon_gap_len() -> int {
    6
}

/// What a chip displays for a file with this basename.
pub open spec fn chip_text(basename: Seq<char>) -> Seq<char> {
    seq![' ', '\u{2003}', '\u{2009}'] + basename + seq![' ']
}

/// Where the message text before reference `k` resumes.
pub open spec fn prev_end(ms: Seq<(int, int, Seq<char>)>, k: int) -> int {
    if k <= 0 {
        0
    } else {
        ms[k - 1].1
    }
}

/// The display bytes for everything before the plain text that precedes reference `k`.
pub open spec fn display_upto(b: Seq<u8>, ms: Seq<(int, int, Seq<char>)>, k: int) -> Seq<u8>
    decreases k,
{
    if k <= 0 {
        seq![]
    } else {
        display_upto(b, ms, k - 1) + b.subrange(prev_end(ms, k - 1), ms[k - 1].0) + utf8(
            chip_text(basename_of(ms[k - 1].2)),
        )
    }
}

/// The display bytes of a whole message.
pub open spec fn display_bytes(b: Seq<u8>, ms: Seq<(int, int, Seq<char>)>) -> Seq<u8> {
    display_upto(b, ms, ms.len() as int) + b.subrange(prev_end(ms, ms.len() as int), b.len() as int)
}

/// Display offset at which reference `k`'s chip (with its outer spaces) starts.
pub open spec fn display_start_of(b: Seq<u8>, ms: Seq<(int, int, Seq<char>)>, k: int) -> int {
    display_upto(b, ms, k).len() + ms[k].0 - prev_end(ms, k)
}

/// Bytes reference `k` takes in the display, outer spaces included.
pub open spec fn chip_len(ms: Seq<(int, int, Seq<char>)>, k: int) -> int {
    utf8(basename_of(ms[k].2)).len() + 2 + icon_gap_len()
}

/// The layout of projected files: references in order and apart, each chip
/// a space, the icon gap and its label, then a space, and the plain text
/// between chips displayed unchanged.
pub open spec fn layout_ok(f: Seq<ProjectedInlineFile>, source_len: int, display_len: int) -> bool {
    let n = f.len();
    &&& 0 <= source_len
    &&& forall|k: int|
        #![trigger f[k]]
        0 <= k < n ==> {
            &&& f[k].source_range.start < f[k].source_range.end
            &&& f[k].chip_range.start == f[k].display_range.start + 1
            &&& f[k].chip_range.end + 1 == f[k].display_range.end
            &&& f[k].label_range.start == f[k].chip_range.start + icon_gap_len()
            &&& f[k].label_range.end == f[k].chip_range.end
            &&& f[k].label_range.start <= f[k].label_range.end
        }
    &&& forall|k: int, l: int|
        #![trigger f[k], f[l]]
        0 <= k < l < n ==> f[k].source_range.end <= f[l].source_range.start
            && f[k].display_range.end <= f[l].display_range.start
    &&& forall|k: int|
        #![trigger f[k]]
        0 < k < n ==> f[k].display_range.start - f[k - 1].display_range.end
            == f[k].source_range.start - f[k - 1].source_range.end
    &&& n > 0 ==> f[0].display_range.start == f[0].source_range.start
    &&& n > 0 ==> f[n - 1].source_range.end <= source_len && display_len
        - f[n - 1].display_range.end == source_len - f[n - 1].source_range.end
    &&& n == 0 ==> display_len == source_len
}

/// `a - b`, or zero when `b` is larger.
pub open spec fn sat_sub(a: int, b: int) -> int {
    if a >= b {
        a - b
    } else {
        0
    }
}

/// Length of a range, zero when it is empty or reversed.
pub open spec fn range_len(start: int, end: int) -> int {
    if start < end {
        end - start
    } else {
        0
    }
}

/// Walks the files from `i` with the message offset `sc` matched to the
/// display offset `dc`: offsets in plain text keep their distance from the
/// last chip, offsets strictly inside a reference snap to the nearer end of
/// its chip (the start up to the middle).
pub open spec fn source_walk(f: Seq<ProjectedInlineFile>, i: int, offset: int, sc: int, dc: int) -> int
    decreases f.len() - i,
{
    if i < 0 || i >= f.len() {
        dc + sat_sub(offset, sc)
    } else if offset <= f[i].source_range.start {
        dc + sat_sub(offset, sc)
    } else if offset < f[i].source_range.end {
        let mid = f[i].source_range.start + range_len(
            f[i].source_range.start as int,
            f[i].source_range.end as int,
        ) / 2;
        if offset <= mid {
            f[i].display_range.start as int
        } else {
            f[i].display_range.end as int
        }
    } else if offset == f[i].source_range.end {
        f[i].display_range.end as int
    } else {
        source_walk(f, i + 1, offset, f[i].source_range.end as int, f[i].display_range.end as int)
    }
}

/// The same walk from display offsets back to message offsets.
pub open spec fn display_walk(f: Seq<ProjectedInlineFile>, i: int, offset: int, sc: int, dc: int) -> int
    decreases f.len() - i,
{
    if i < 0 || i >= f.len() {
        sc + sat_sub(offset, dc)
    } else if offset <= f[i].display_range.start {
        sc + sat_sub(offset, dc)
    } else if offset < f[i].display_range.end {
        let mid = f[i].display_range.start + range_len(
            f[i].display_range.start as int,
            f[i].display_range.end as int,
        ) / 2;
        if offset <= mid {
            f[i].source_range.start as int
        } else {
            f[i].source_range.end as int
        }
    } else if offset == f[i].display_range.end {
        f[i].source_range.end as int
    } else {
        display_walk(f, i + 1, offset, f[i].source_range.end as int, f[i].display_range.end as int)
    }
}

/// A file reference together with where it sits in the message and in the display.
#[derive(Debug, Eq, PartialEq)]
pub struct ProjectedInlineFile {
    pub source_range: Range<usize>,
    pub display_range: Range<usize>,
    pub chip_range: Range<usize>,
    pub label_range: Range<usize>,
    pub target: String,
    pub basename: String,
    pub is_dir: bool,
}

impl Clone for ProjectedInlineFile {
    fn clone(&self) -> (r: Self)
        ensures
            r == *self,
    {
        ProjectedInlineFile {
            source_range: Range { start: self.source_range.start, end: self.source_range.end },
            display_range: Range { start: self.display_range.start, end: self.display_range.end },
            chip_range: Range { start: self.chip_range.start, end: self.chip_range.end },
            label_range: Range { start: self.label_range.start, end: self.label_range.end },
            target: self.target.clone(),
            basename: self.basename.clone(),
            is_dir: self.is_dir,
        }
    }
}

impl ProjectedInlineFile {
    /// This file is reference `k` of `ms` as projected from message bytes `b`.
    pub open spec fn projects(&self, b: Seq<u8>, ms: Seq<(int, int, Seq<char>)>, k: int) -> bool {
        let ds = display_start_of(b, ms, k);
        let len = chip_len(ms, k);
        &&& self.source_range.start == ms[k].0
        &&& self.source_range.end == ms[k].1
        &&& self.target@ == ms[k].2
        &&& self.basename@ == basename_of(ms[k].2)
        &&& self.is_dir == names_directory(ms[k].2)
        &&& self.display_range.start == ds
        &&& self.display_range.end == ds + len
        &&& self.chip_range.start == ds + 1
        &&& self.chip_range.end == ds + len - 1
        &&& self.label_range.start == ds + 1 + icon_gap_len()
        &&& self.label_range.end == ds + len - 1
    }
}

/// A message as displayed with its file references shown as chips.
#[derive(Debug, Eq, PartialEq)]
pub struct InlineFileProjection {
    pub display: String,
    pub files: Vec<ProjectedInlineFile>,
    /// Byte length of the message it was made from.
    pub source_len: usize,
}

/// Byte length of a string (`String::len`).
pub fn byte_len(s: &String) -> (n: usize)
    ensures
        n == utf8(s@).len(),
{
    s.as_str().as_bytes().len()
}

impl InlineFileProjection {
    /// Byte length of the message this projection was made from.
    pub open spec fn source_length(&self) -> int {
        self.source_len as int
    }

    /// The displayed characters.
    pub open spec fn display_view(&self) -> Seq<char> {
        self.display@
    }

    /// The projected files, in message order.
    pub open spec fn file_list(&self) -> Seq<ProjectedInlineFile> {
        self.files@
    }

    /// Byte length of the display text.
    pub open spec fn display_length(&self) -> int {
        utf8(self.display@).len() as int
    }

    /// The layout every projection keeps: references in order and apart,
    /// each chip a space, the icon gap and its label, then a space, and the
    /// plain text between chips displayed unchanged.
    pub open spec fn wf(&self) -> bool {
        &&& layout_ok(self.files@, self.source_len as int, self.display_length())
        &&& self.display_length() <= usize::MAX
    }

    /// A projection that shows `source` as it is, with no chips.
    pub fn plain(source: &str) -> (p: Self)
        ensures
            p.wf(),
            p.display_view() == source@,
            p.file_list().len() == 0,
            p.source_length() == utf8(source@).len(),
    {
        InlineFileProjection {
            display: source.to_owned(),
            files: Vec::new(),
            source_len: source.as_bytes().len(),
        }
    }

    /// The projection of `source`: each file reference replaced by its chip.
    pub fn new(source: &str) -> (p: Self)
        ensures
            p.wf(),
            p.source_length() == utf8(source@).len(),
            utf8(p.display_view()) == display_bytes(utf8(source@), references_of(source@)),
            p.file_list().len() == references_of(source@).len(),
            forall|k: int|
                0 <= k < p.file_list().len() ==> (#[trigger] p.file_list()[k]).projects(
                    utf8(source@),
                    references_of(source@),
                    k,
                ),
    {
        let references = parse_inline_file_references(source);
        let bytes = source.as_bytes();
        let ghost b = bytes@;
        let ghost ms = references_of(source@);
        let n = bytes.len();
        proof {
            lemma_scan_bounds(b, 0);
            is_char_boundary_start_end_of_seq(b);
        }
        let mut display = String::new();
        let mut files: Vec<ProjectedInlineFile> = Vec::new();
        let mut source_cursor: usize = 0;
        let mut i: usize = 0;
        while i < references.len()
            invariant
                b == bytes@,
                b == utf8(source@),
                valid_utf8(b),
                n == b.len(),
                ms == references_of(source@),
                models_all(references@, ms),
                forall|k: int|
                    0 <= k < ms.len() ==> 0 <= (#[trigger] ms[k]).0 < ms[k].1 <= b.len() && b[ms[k].0]
                        == 91 && b[ms[k].1 - 1] == 41,
                forall|k: int, l: int|
                    0 <= k < l < ms.len() ==> (#[trigger] ms[k]).1 <= (#[trigger] ms[l]).0,
                i <= references@.len(),
                files@.len() == i,
                source_cursor == prev_end(ms, i as int),
                source_cursor <= n,
                utf8(display@) == display_upto(b, ms, i as int),
                forall|k: int| 0 <= k < i ==> (#[trigger] files@[k]).projects(b, ms, k),
                forall|k: int| 0 <= k < i ==> (#[trigger] files@[k]).display_range.end <= utf8(display@).len(),
                is_char_boundary(b, source_cursor as int),
            decreases references@.len() - i,
        {
            let reference = references[i].clone();
            assert(references@[i as int].models(ms[i as int]));
            let start = reference.source_range.start;
            let end = reference.source_range.end;
            proof {
                lemma_boundary_at_ascii(b, start as int);
                lemma_boundary_after_ascii(b, end - 1);
                if i > 0 {
                    assert(ms[i - 1].1 <= ms[i as int].0);
                }
            }
            let ghost before = display@;
            let piece = substr(source, source_cursor, start);
            display.append(piece);
            proof {
                lemma_utf8_concat(before, piece@);
            }
            let display_start = byte_len(&display);
            let (chip_start, label_start, label_end, display_end) = append_chip(
                &mut display,
                reference.basename.as_str(),
            );
            let chip_end = label_end;
            proof {
                lemma_display_step(b, ms, i as int, before, piece@, display@);
            }
            let file = ProjectedInlineFile {
                source_range: Range { start, end },
                display_range: Range { start: display_start, end: display_end },
                chip_range: Range { start: chip_start, end: chip_end },
                label_range: Range { start: label_start, end: label_end },
                target: reference.target,
                basename: reference.basename,
                is_dir: reference.is_dir,
            };
            let ghost prev_files = files@;
            files.push(file);
            proof {
                assert(files@ =~= prev_files.push(file));
                assert(file.projects(b, ms, i as int));
                assert forall|k: int| 0 <= k < i + 1 implies (#[trigger] files@[k]).projects(b, ms, k) by {
                    if k < i {
                        assert(files@[k] == prev_files[k]);
                    }
                }
                assert forall|k: int| 0 <= k < i + 1 implies (#[trigger] files@[k]).display_range.end <= utf8(display@).len() by {
                    if k < i {
                        assert(files@[k] == prev_files[k]);
                    }
                }
            }
            source_cursor = end;
            i = i + 1;
        }
        let ghost before = display@;
        let tail = substr(source, source_cursor, n);
        display.append(tail);
        proof {
            lemma_utf8_concat(before, tail@);
            assert(utf8(display@) =~= display_bytes(b, ms));
        }
        let display_len = byte_len(&display);
        proof {
            lemma_layout(b, ms, files@, utf8(display@).len() as int);
        }
        let p = InlineFileProjection { display, files, source_len: n };
        p
    }
}

/// Appends the chip for a file named `basename`, returning where the chip,
/// its label and its label's end fall, and where the chip with its spaces ends.
fn append_chip(display: &mut String, basename: &str) -> (r: (usize, usize, usize, usize))
    ensures
        final(display)@ == old(display)@ + chip_text(basename@),
        r.0 == utf8(old(display)@).len() + 1,
        r.1 == r.0 + icon_gap_len(),
        r.2 == r.1 + utf8(basename@).len(),
        r.3 == r.2 + 1,
        r.3 == utf8(final(display)@).len(),
{
    let ghost start = display@;
    push_char(display, ' ');
    let ghost with_space = display@;
    proof {
        assert(with_space =~= start + seq![' ']);
        lemma_utf8_concat(start, seq![' ']);
        lemma_utf8_space();
    }
    let chip_start = byte_len(display);
    push_char(display, '\u{2003}');
    push_char(display, '\u{2009}');
    let ghost with_gap = display@;
    proof {
        assert(with_space =~= start + seq![' ']);
        lemma_utf8_concat(start, seq![' ']);
        lemma_utf8_space();
        assert(display@ =~= (start + seq![' ']) + seq!['\u{2003}', '\u{2009}']);
        lemma_utf8_concat(start + seq![' '], seq!['\u{2003}', '\u{2009}']);
        lemma_utf8_icon_gap();
    }
    let label_start = byte_len(display);
    display.append(basename);
    proof {
        lemma_utf8_concat(with_gap, basename@);
    }
    let label_end = byte_len(display);
    let ghost with_label = display@;
    push_char(display, ' ');
    proof {
        lemma_utf8_concat(with_label, seq![' ']);
        lemma_utf8_space();
        assert(display@ =~= with_label + seq![' ']);
        assert(display@ =~= start + chip_text(basename@));
    }
    let display_end = byte_len(display);
    (chip_start, label_start, label_end, display_end)
}

/// The display after reference `k` is the display before it, the plain text
/// before it, and its chip.
proof fn lemma_display_step(
    b: Seq<u8>,
    ms: Seq<(int, int, Seq<char>)>,
    k: int,
    before: Seq<char>,
    piece: Seq<char>,
    after: Seq<char>,
)
    requires
        0 <= k < ms.len(),
        utf8(before) == display_upto(b, ms, k),
        utf8(piece) == b.subrange(prev_end(ms, k), ms[k].0),
        after == before + piece + chip_text(basename_of(ms[k].2)),
    ensures
        utf8(after) == display_upto(b, ms, k + 1),
{
    lemma_utf8_concat(before + piece, chip_text(basename_of(ms[k].2)));
    lemma_utf8_concat(before, piece);
}

/// Files projected from references `ms` of message bytes `b` are laid out
/// as [`layout_ok`] says.
proof fn lemma_layout(
    b: Seq<u8>,
    ms: Seq<(int, int, Seq<char>)>,
    f: Seq<ProjectedInlineFile>,
    display_len: int,
)
    requires
        f.len() == ms.len(),
        forall|k: int| 0 <= k < f.len() ==> (#[trigger] f[k]).projects(b, ms, k),
        forall|j: int| 0 <= j < ms.len() ==> 0 <= (#[trigger] ms[j]).0 < ms[j].1 <= b.len(),
        forall|j: int, l: int| 0 <= j < l < ms.len() ==> (#[trigger] ms[j]).1 <= (#[trigger] ms[l]).0,
        display_len == display_bytes(b, ms).len(),
    ensures
        layout_ok(f, b.len() as int, display_len),
{
    let count = f.len() as int;
    assert forall|k: int| #![trigger f[k]] 0 <= k < count implies {
        &&& f[k].source_range.start < f[k].source_range.end
        &&& f[k].chip_range.start == f[k].display_range.start + 1
        &&& f[k].chip_range.end + 1 == f[k].display_range.end
        &&& f[k].label_range.start == f[k].chip_range.start + icon_gap_len()
        &&& f[k].label_range.end == f[k].chip_range.end
        &&& f[k].label_range.start <= f[k].label_range.end
    } by {
        assert(f[k].projects(b, ms, k));
    }
    assert forall|k: int, l: int|
        #![trigger f[k], f[l]]
        0 <= k < l < count implies f[k].source_range.end <= f[l].source_range.start
            && f[k].display_range.end <= f[l].display_range.start by {
        lemma_display_start_monotone(b, ms, k + 1, l);
        assert(f[k].projects(b, ms, k));
        assert(f[l].projects(b, ms, l));
        lemma_display_upto_step(b, ms, k + 1);
    }
    assert forall|k: int| #![trigger f[k]] 0 < k < count implies f[k].display_range.start
        - f[k - 1].display_range.end == f[k].source_range.start
        - f[k - 1].source_range.end by {
        assert(f[k].projects(b, ms, k));
        assert(f[k - 1].projects(b, ms, k - 1));
        lemma_display_upto_step(b, ms, k);
    }
    if count > 0 {
        assert(f[0].projects(b, ms, 0));
        assert(f[count - 1].projects(b, ms, count - 1));
        lemma_display_upto_step(b, ms, count);
    }
}

proof fn lemma_utf8_space()
    ensures
        utf8(seq![' ']).len() == 1,
{
    assert(seq![' '].drop_first() =~= Seq::<char>::empty());
    assert(utf8(Seq::<char>::empty()) =~= Seq::<u8>::empty());
}

proof fn lemma_utf8_icon_gap()
    ensures
        utf8(seq!['\u{2003}', '\u{2009}']).len() == 6,
{
    let g = seq!['\u{2003}', '\u{2009}'];
    assert(g.drop_first() =~= seq!['\u{2009}']);
    assert(seq!['\u{2009}'].drop_first() =~= Seq::<char>::empty());
    assert(utf8(Seq::<char>::empty()) =~= Seq::<u8>::empty());
    let h = seq!['\u{2009}'];
    assert(g[0] == '\u{2003}');
    assert(h[0] == '\u{2009}');
    assert(utf8(g) == encode_scalar(g[0] as u32) + utf8(g.drop_first()));
    assert(utf8(h) == encode_scalar(h[0] as u32) + utf8(h.drop_first()));
    assert(('\u{2003}' as u32) == 0x2003);
    assert(('\u{2009}' as u32) == 0x2009);
    assert(encode_scalar(0x2003).len() == 3);
    assert(encode_scalar(0x2009).len() == 3);
}

/// Growing the display by one chip adds the plain text before it and the chip.
proof fn lemma_display_upto_step(b: Seq<u8>, ms: Seq<(int, int, Seq<char>)>, k: int)
    requires
        0 < k <= ms.len(),
        forall|j: int| 0 <= j < ms.len() ==> 0 <= (#[trigger] ms[j]).0 < ms[j].1 <= b.len(),
        forall|j: int, l: int| 0 <= j < l < ms.len() ==> (#[trigger] ms[j]).1 <= (#[trigger] ms[l]).0,
    ensures
        display_upto(b, ms, k).len() == display_start_of(b, ms, k - 1) + chip_len(ms, k - 1),
{
    if k > 1 {
        assert(ms[k - 2].1 <= ms[k - 1].0);
    }
    lemma_chip_len(basename_of(ms[k - 1].2));
}

proof fn lemma_chip_len(basename: Seq<char>)
    ensures
        utf8(chip_text(basename)).len() == utf8(basename).len() + 2 + icon_gap_len(),
{
    let g = seq![' ', '\u{2003}', '\u{2009}'];
    assert(g =~= seq![' '] + seq!['\u{2003}', '\u{2009}']);
    lemma_utf8_concat(seq![' '], seq!['\u{2003}', '\u{2009}']);
    lemma_utf8_space();
    lemma_utf8_icon_gap();
    lemma_utf8_concat(g, basename);
    lemma_utf8_concat(g + basename, seq![' ']);
}

/// Chips start no earlier than the end of the chips before them.
proof fn lemma_display_start_monotone(b: Seq<u8>, ms: Seq<(int, int, Seq<char>)>, j: int, l: int)
    requires
        0 < j <= l < ms.len(),
        forall|x: int| 0 <= x < ms.len() ==> 0 <= (#[trigger] ms[x]).0 < ms[x].1 <= b.len(),
        forall|x: int, y: int| 0 <= x < y < ms.len() ==> (#[trigger] ms[x]).1 <= (#[trigger] ms[y]).0,
    ensures
        display_upto(b, ms, j).len() <= display_start_of(b, ms, l),
    decreases l - j,
{
    if j < l {
        lemma_display_start_monotone(b, ms, j + 1, l);
        lemma_display_upto_step(b, ms, j + 1);
        assert(ms[j - 1].1 <= ms[j].0);
    } else {
        assert(ms[l - 1].1 <= ms[l].0);
    }
}


impl InlineFileProjection {
    /// Where a message offset shows in the display (see [`source_walk`]);
    /// offsets past the end are clamped to it.
    pub open spec fn to_display(&self, offset: int) -> int {
        source_walk(
            self.file_list(),
            0,
            if offset < self.source_length() {
                offset
            } else {
                self.source_length()
            },
            0,
            0,
        )
    }

    /// Which message offset a display offset stands for (see [`display_walk`]).
    pub open spec fn to_source(&self, offset: int) -> int {
        display_walk(
            self.file_list(),
            0,
            if offset < self.display_length() {
                offset
            } else {
                self.display_length()
            },
            0,
            0,
        )
    }

    /// Maps a message offset to the display.
    pub fn source_to_display(&self, offset: usize) -> (r: usize)
        requires
            self.wf(),
        ensures
            r == self.to_display(offset as int),
    {
        let clamped = if offset < self.source_len {
            offset
        } else {
            self.source_len
        };
        let ghost f = self.files@;
        let mut source_cursor: usize = 0;
        let mut display_cursor: usize = 0;
        let mut i: usize = 0;
        while i < self.files.len()
            invariant
                self.wf(),
                f == self.files@,
                clamped <= self.source_len,
                i <= f.len(),
                i == 0 ==> source_cursor == 0 && display_cursor == 0,
                i > 0 ==> source_cursor == f[i - 1].source_range.end && display_cursor
                    == f[i - 1].display_range.end && clamped > source_cursor,
                self.to_display(offset as int) == source_walk(
                    f,
                    i as int,
                    clamped as int,
                    source_cursor as int,
                    display_cursor as int,
                ),
            decreases f.len() - i,
        {
            let file = &self.files[i];
            assert(f[i as int] == *file);
            if i > 0 {
                assert(f[i - 1].source_range.end <= f[i as int].source_range.start);
            }
            if clamped <= file.source_range.start {
                return display_cursor + (clamped - source_cursor);
            }
            if clamped < file.source_range.end {
                let source_mid = file.source_range.start + (file.source_range.end
                    - file.source_range.start) / 2;
                return if clamped <= source_mid {
                    file.display_range.start
                } else {
                    file.display_range.end
                };
            }
            display_cursor = file.display_range.end;
            source_cursor = file.source_range.end;
            if clamped == source_cursor {
                return display_cursor;
            }
            i = i + 1;
        }
        proof {
            if f.len() > 0 {
                assert(f[f.len() - 1].source_range.end <= self.source_len);
            }
        }
        display_cursor + (clamped - source_cursor)
    }

    /// Maps a display offset back to the message.
    pub fn display_to_source(&self, offset: usize) -> (r: usize)
        requires
            self.wf(),
        ensures
            r == self.to_source(offset as int),
    {
        let display_len = byte_len(&self.display);
        let clamped = if offset < display_len {
            offset
        } else {
            display_len
        };
        let ghost f = self.files@;
        let mut source_cursor: usize = 0;
        let mut display_cursor: usize = 0;
        let mut i: usize = 0;
        while i < self.files.len()
            invariant
                self.wf(),
                f == self.files@,
                clamped <= self.display_length(),
                i <= f.len(),
                i == 0 ==> source_cursor == 0 && display_cursor == 0,
                i > 0 ==> source_cursor == f[i - 1].source_range.end && display_cursor
                    == f[i - 1].display_range.end && clamped > display_cursor,
                self.to_source(offset as int) == display_walk(
                    f,
                    i as int,
                    clamped as int,
                    source_cursor as int,
                    display_cursor as int,
                ),
            decreases f.len() - i,
        {
            let file = &self.files[i];
            assert(f[i as int] == *file);
            if i > 0 {
                assert(f[i - 1].display_range.end <= f[i as int].display_range.start);
            }
            if clamped <= file.display_range.start {
                return source_cursor + (clamped - display_cursor);
            }
            if clamped < file.display_range.end {
                let display_mid = file.display_range.start + (file.display_range.end
                    - file.display_range.start) / 2;
                return if clamped <= display_mid {
                    file.source_range.start
                } else {
                    file.source_range.end
                };
            }
            source_cursor = file.source_range.end;
            display_cursor = file.display_range.end;
            if clamped == display_cursor {
                return source_cursor;
            }
            i = i + 1;
        }
        proof {
            if f.len() > 0 {
                assert(f[f.len() - 1].source_range.end <= self.source_len);
            }
        }
        source_cursor + (clamped - display_cursor)
    }

    /// A message range mapped to the display.
    pub fn source_range_to_display(&self, range: &Range<usize>) -> (r: Range<usize>)
        requires
            self.wf(),
        ensures
            r.start == self.to_display(range.start as int),
            r.end == self.to_display(range.end as int),
    {
        Range { start: self.source_to_display(range.start), end: self.source_to_display(range.end) }
    }

    /// The file whose chip (label and icon gap, not its outer spaces) covers
    /// the display offset, if any; the first such file.
    pub fn file_at_display_offset(&self, offset: usize) -> (r: Option<&ProjectedInlineFile>)
        ensures
            r is Some <==> exists|k: int|
                0 <= k < self.file_list().len() && #[trigger] self.file_list()[k].chip_range.start
                    <= offset < self.file_list()[k].chip_range.end,
            r matches Some(file) ==> exists|k: int|
                0 <= k < self.file_list().len() && *file == #[trigger] self.file_list()[k]
                    && file.chip_range.start <= offset < file.chip_range.end && forall|j: int|
                    0 <= j < k ==> !((#[trigger] self.file_list()[j]).chip_range.start <= offset
                        < self.file_list()[j].chip_range.end),
    {
        let mut i: usize = 0;
        while i < self.files.len()
            invariant
                i <= self.files@.len(),
                forall|j: int|
                    0 <= j < i ==> !((#[trigger] self.files@[j]).chip_range.start <= offset
                        < self.files@[j].chip_range.end),
            decreases self.files@.len() - i,
        {
            let file = &self.files[i];
            if file.chip_range.start <= offset && offset < file.chip_range.end {
                assert(self.file_list()[i as int] == *file);
                assert(self.file_list()[i as int].chip_range.start <= offset);
                return Some(file);
            }
            i = i + 1;
        }
        assert forall|k: int| 0 <= k < self.file_list().len() implies !(
        #[trigger] self.file_list()[k].chip_range.start <= offset < self.file_list()[k].chip_range.end) by {
            assert(self.file_list()[k] == self.files@[k]);
        }
        None
    }
}


// ---------------------------------------------------------------------------
// Laws of the offset mapping
// ---------------------------------------------------------------------------
/// Lowest message offset of the plain text before file `k` (or after the last file).
pub open spec fn gap_lo(f: Seq<ProjectedInlineFile>, k: int) -> int {
    if k <= 0 {
        0
    } else {
        f[k - 1].source_range.end as int
    }
}

/// Highest message offset of the plain text before file `k`.
pub open spec fn gap_hi(f: Seq<ProjectedInlineFile>, k: int, source_len: int) -> int {
    if k < f.len() {
        f[k].source_range.start as int
    } else {
        source_len
    }
}

/// Lowest display offset of the plain text before file `k`.
pub open spec fn display_gap_lo(f: Seq<ProjectedInlineFile>, k: int) -> int {
    if k <= 0 {
        0
    } else {
        f[k - 1].display_range.end as int
    }
}

/// Highest display offset of the plain text before file `k`.
pub open spec fn display_gap_hi(f: Seq<ProjectedInlineFile>, k: int, display_len: int) -> int {
    if k < f.len() {
        f[k].display_range.start as int
    } else {
        display_len
    }
}

/// How far plain text before file `k` moves between message and display.
pub open spec fn gap_shift(f: Seq<ProjectedInlineFile>, k: int, source_len: int, display_len: int) -> int {
    if k < f.len() {
        f[k].display_range.start - f[k].source_range.start
    } else {
        display_len - source_len
    }
}

proof fn lemma_source_walk_skip(f: Seq<ProjectedInlineFile>, i: int, j: int, o: int)
    requires
        0 <= i <= j <= f.len(),
        forall|l: int| 0 <= l < f.len() ==> (#[trigger] f[l]).source_range.start < f[l].source_range.end,
        forall|l: int| i <= l < j ==> (#[trigger] f[l]).source_range.end < o,
    ensures
        source_walk(f, i, o, gap_lo(f, i), display_gap_lo(f, i)) == source_walk(
            f,
            j,
            o,
            gap_lo(f, j),
            display_gap_lo(f, j),
        ),
    decreases j - i,
{
    if i < j {
        assert(f[i].source_range.end < o);
        lemma_source_walk_skip(f, i + 1, j, o);
    }
}

proof fn lemma_display_walk_skip(f: Seq<ProjectedInlineFile>, i: int, j: int, o: int)
    requires
        0 <= i <= j <= f.len(),
        forall|l: int| 0 <= l < f.len() ==> (#[trigger] f[l]).display_range.start < f[l].display_range.end,
        forall|l: int| i <= l < j ==> (#[trigger] f[l]).display_range.end < o,
    ensures
        display_walk(f, i, o, gap_lo(f, i), display_gap_lo(f, i)) == display_walk(
            f,
            j,
            o,
            gap_lo(f, j),
            display_gap_lo(f, j),
        ),
    decreases j - i,
{
    if i < j {
        assert(f[i].display_range.end < o);
        lemma_display_walk_skip(f, i + 1, j, o);
    }
}

/// Plain text before file `k` moves by that gap's shift.
proof fn lemma_source_walk_gap(
    f: Seq<ProjectedInlineFile>,
    source_len: int,
    display_len: int,
    k: int,
    o: int,
)
    requires
        layout_ok(f, source_len, display_len),
        0 <= k <= f.len(),
        gap_lo(f, k) <= o <= gap_hi(f, k, source_len),
    ensures
        source_walk(f, 0, o, 0, 0) == o + gap_shift(f, k, source_len, display_len),
{
    let n = f.len() as int;
    assert forall|l: int| 0 <= l < n implies (#[trigger] f[l]).source_range.start
        < f[l].source_range.end by {}
    if k == 0 {
    } else {
        assert forall|l: int| 0 <= l < k - 1 implies (#[trigger] f[l]).source_range.end < o by {
            assert(f[l].source_range.end <= f[l + 1].source_range.start);
            assert(f[l + 1].source_range.start < f[l + 1].source_range.end);
            if l + 1 < k - 1 {
                assert(f[l + 1].source_range.end <= f[k - 1].source_range.start);
                assert(f[k - 1].source_range.start < f[k - 1].source_range.end);
            }
        }
        if f[k - 1].source_range.end < o {
            lemma_source_walk_skip(f, 0, k, o);
            if k < n {
                assert(f[k].display_range.start - f[k - 1].display_range.end
                    == f[k].source_range.start - f[k - 1].source_range.end);
            }
        } else {
            lemma_source_walk_skip(f, 0, k - 1, o);
            if k < n {
                assert(f[k].display_range.start - f[k - 1].display_range.end
                    == f[k].source_range.start - f[k - 1].source_range.end);
            }
        }
    }
}

/// Displayed plain text before file `k` maps back by that gap's shift.
proof fn lemma_display_walk_gap(
    f: Seq<ProjectedInlineFile>,
    source_len: int,
    display_len: int,
    k: int,
    d: int,
)
    requires
        layout_ok(f, source_len, display_len),
        0 <= k <= f.len(),
        display_gap_lo(f, k) <= d <= display_gap_hi(f, k, display_len),
    ensures
        display_walk(f, 0, d, 0, 0) == d - gap_shift(f, k, source_len, display_len),
{
    let n = f.len() as int;
    assert forall|l: int| 0 <= l < n implies (#[trigger] f[l]).display_range.start
        < f[l].display_range.end by {
        assert(f[l].source_range.start < f[l].source_range.end);
    }
    if k == 0 {
    } else {
        assert forall|l: int| 0 <= l < k - 1 implies (#[trigger] f[l]).display_range.end < d by {
            assert(f[l].display_range.end <= f[l + 1].display_range.start);
            assert(f[l + 1].display_range.start < f[l + 1].display_range.end);
            if l + 1 < k - 1 {
                assert(f[l + 1].display_range.end <= f[k - 1].display_range.start);
                assert(f[k - 1].display_range.start < f[k - 1].display_range.end);
            }
        }
        if f[k - 1].display_range.end < d {
            lemma_display_walk_skip(f, 0, k, d);
            if k < n {
                assert(f[k].display_range.start - f[k - 1].display_range.end
                    == f[k].source_range.start - f[k - 1].source_range.end);
            }
        } else {
            lemma_display_walk_skip(f, 0, k - 1, d);
            if k < n {
                assert(f[k].display_range.start - f[k - 1].display_range.end
                    == f[k].source_range.start - f[k - 1].source_range.end);
            }
        }
    }
}

/// The shift after file `k` is its display end minus its message end.
proof fn lemma_shift_after(f: Seq<ProjectedInlineFile>, source_len: int, display_len: int, k: int)
    requires
        layout_ok(f, source_len, display_len),
        0 <= k < f.len(),
    ensures
        gap_shift(f, k + 1, source_len, display_len) == f[k].display_range.end
            - f[k].source_range.end,
        gap_lo(f, k + 1) <= gap_hi(f, k + 1, source_len),
        display_gap_lo(f, k + 1) <= display_gap_hi(f, k + 1, display_len),
{
    if k + 1 < f.len() {
        assert(f[k + 1].display_range.start - f[k].display_range.end
            == f[k + 1].source_range.start - f[k].source_range.end);
        assert(f[k].source_range.end <= f[k + 1].source_range.start);
        assert(f[k].display_range.end <= f[k + 1].display_range.start);
    }
}

/// The gap before file `k` is well formed.
proof fn lemma_gap_ordered(f: Seq<ProjectedInlineFile>, source_len: int, display_len: int, k: int)
    requires
        layout_ok(f, source_len, display_len),
        0 <= k <= f.len(),
    ensures
        gap_lo(f, k) <= gap_hi(f, k, source_len),
        display_gap_lo(f, k) <= display_gap_hi(f, k, display_len),
        gap_lo(f, k) + gap_shift(f, k, source_len, display_len) == display_gap_lo(f, k),
        gap_hi(f, k, source_len) + gap_shift(f, k, source_len, display_len) == display_gap_hi(
            f,
            k,
            display_len,
        ),
        0 <= gap_lo(f, k),
{
    let n = f.len() as int;
    if k > 0 {
        lemma_shift_after(f, source_len, display_len, k - 1);
        assert(f[k - 1].source_range.start < f[k - 1].source_range.end);
        if k - 1 > 0 {
            assert(f[0].source_range.end <= f[k - 1].source_range.start);
        }
        if k < n {
            assert(f[k].display_range.start - f[k - 1].display_range.end
                == f[k].source_range.start - f[k - 1].source_range.end);
        }
    } else if n > 0 {
        assert(f[0].source_range.start < f[0].source_range.end);
    }
}

/// Plain text round-trips: a message offset outside every reference (its
/// ends included) comes back unchanged from the display, and moves by the
/// shift of the gap it lies in.
#[verifier::spinoff_prover]
#[verifier::rlimit(40)]
pub proof fn law_plain_text_round_trips(p: &InlineFileProjection, k: int, o: int)
    requires
        p.wf(),
        0 <= k <= p.file_list().len(),
        gap_lo(p.file_list(), k) <= o <= gap_hi(p.file_list(), k, p.source_length()),
    ensures
        p.to_display(o) == o + gap_shift(p.file_list(), k, p.source_length(), p.display_length()),
        p.to_source(p.to_display(o)) == o,
{
    let f = p.file_list();
    let s = p.source_length();
    let d = p.display_length();
    lemma_gap_ordered(f, s, d, k);
    if k < f.len() {
        assert(f[k].source_range.end <= s) by {
            if k < f.len() - 1 {
                assert(f[k].source_range.end <= f[f.len() - 1].source_range.start);
                assert(f[f.len() - 1].source_range.start < f[f.len() - 1].source_range.end);
            }
        }
    }
    lemma_source_walk_gap(f, s, d, k, o);
    let t = o + gap_shift(f, k, s, d);
    if k < f.len() {
        assert(f[k].display_range.end <= d) by {
            if k < f.len() - 1 {
                assert(f[k].display_range.end <= f[f.len() - 1].display_range.start);
                assert(f[f.len() - 1].source_range.start < f[f.len() - 1].source_range.end);
            }
        }
    }
    lemma_display_walk_gap(f, s, d, k, t);
}

/// Each chip moves as one unit: a reference's ends map to its chip's ends
/// and back, and every offset inside the reference or the chip maps to one
/// of the two ends.
pub proof fn law_chip_maps_atomically(p: &InlineFileProjection, k: int)
    requires
        p.wf(),
        0 <= k < p.file_list().len(),
    ensures
        p.to_display(p.file_list()[k].source_range.start as int)
            == p.file_list()[k].display_range.start,
        p.to_display(p.file_list()[k].source_range.end as int)
            == p.file_list()[k].display_range.end,
        p.to_source(p.file_list()[k].display_range.start as int)
            == p.file_list()[k].source_range.start,
        p.to_source(p.file_list()[k].display_range.end as int) == p.file_list()[k].source_range.end,
        forall|o: int|
            p.file_list()[k].chip_range.start <= o < p.file_list()[k].chip_range.end ==> {
                let r = #[trigger] p.to_source(o);
                r == p.file_list()[k].source_range.start || r == p.file_list()[k].source_range.end
            },
        forall|o: int|
            p.file_list()[k].source_range.start < o < p.file_list()[k].source_range.end ==> {
                let r = #[trigger] p.to_display(o);
                r == p.file_list()[k].display_range.start || r == p.file_list()[k].display_range.end
            },
{
    let f = p.file_list();
    let s = p.source_length();
    let d = p.display_length();
    let n = f.len() as int;
    lemma_gap_ordered(f, s, d, k);
    lemma_gap_ordered(f, s, d, k + 1);
    lemma_shift_after(f, s, d, k);
    law_plain_text_round_trips(p, k, f[k].source_range.start as int);
    law_plain_text_round_trips(p, k + 1, f[k].source_range.end as int);
    assert forall|l: int| 0 <= l < n implies (#[trigger] f[l]).source_range.start
        < f[l].source_range.end by {}
    assert forall|l: int| 0 <= l < n implies (#[trigger] f[l]).display_range.start
        < f[l].display_range.end by {
        assert(f[l].source_range.start < f[l].source_range.end);
    }
    assert(f[k].source_range.end <= s) by {
        if k < n - 1 {
            assert(f[k].source_range.end <= f[n - 1].source_range.start);
            assert(f[n - 1].source_range.start < f[n - 1].source_range.end);
        }
    }
    assert(f[k].display_range.end <= d) by {
        if k < n - 1 {
            assert(f[k].display_range.end <= f[n - 1].display_range.start);
            assert(f[n - 1].source_range.start < f[n - 1].source_range.end);
        }
    }
    assert forall|o: int| f[k].chip_range.start <= o < f[k].chip_range.end implies {
        let r = #[trigger] p.to_source(o);
        r == f[k].source_range.start || r == f[k].source_range.end
    } by {
        assert forall|l: int| 0 <= l < k implies (#[trigger] f[l]).display_range.end < o by {
            assert(f[l].display_range.end <= f[k].display_range.start);
        }
        lemma_display_walk_skip(f, 0, k, o);
    }
    assert forall|o: int| f[k].source_range.start < o < f[k].source_range.end implies {
        let r = #[trigger] p.to_display(o);
        r == f[k].display_range.start || r == f[k].display_range.end
    } by {
        assert forall|l: int| 0 <= l < k implies (#[trigger] f[l]).source_range.end < o by {
            assert(f[l].source_range.end <= f[k].source_range.start);
        }
        lemma_source_walk_skip(f, 0, k, o);
    }
}

/// The end of the message and the end of the display map to each other.
pub proof fn law_ends_correspond(p: &InlineFileProjection)
    requires
        p.wf(),
    ensures
        p.to_display(p.source_length()) == p.display_length(),
        p.to_source(p.display_length()) == p.source_length(),
{
    let f = p.file_list();
    let n = f.len() as int;
    lemma_gap_ordered(p.file_list(), p.source_length(), p.display_length(), n);
    law_plain_text_round_trips(p, n, p.source_length());
}

/// Where a message offset `o` lies, scanning from file `k`: `(k, false)`
/// for the plain text before file `k`, `(k, true)` for strictly inside
/// reference `k`; every earlier reference ends at or before `o`.
proof fn lemma_locate(f: Seq<ProjectedInlineFile>, source_len: int, display_len: int, o: int, k: int) -> (r: (int, bool))
    requires
        layout_ok(f, source_len, display_len),
        0 <= o <= source_len,
        0 <= k <= f.len(),
        gap_lo(f, k) <= o,
        forall|l: int| 0 <= l < k ==> (#[trigger] f[l]).source_range.end <= o,
    ensures
        0 <= r.0 <= f.len(),
        forall|l: int| 0 <= l < r.0 ==> (#[trigger] f[l]).source_range.end <= o,
        !r.1 ==> gap_lo(f, r.0) <= o <= gap_hi(f, r.0, source_len),
        r.1 ==> r.0 < f.len() && f[r.0].source_range.start < o < f[r.0].source_range.end,
    decreases f.len() - k,
{
    if k == f.len() {
        (k, false)
    } else if o <= f[k].source_range.start {
        (k, false)
    } else if o < f[k].source_range.end {
        (k, true)
    } else {
        lemma_locate(f, source_len, display_len, o, k + 1)
    }
}

/// Display ranges of files are ordered: a chip is not empty, and an earlier
/// file's chip ends before a later file's starts.
proof fn lemma_display_ordered(f: Seq<ProjectedInlineFile>, source_len: int, display_len: int)
    requires
        layout_ok(f, source_len, display_len),
    ensures
        forall|l: int| 0 <= l < f.len() ==> (#[trigger] f[l]).display_range.start < f[l].display_range.end,
        forall|a: int, b: int|
            0 <= a < b < f.len() ==> (#[trigger] f[a]).display_range.end <= (#[trigger] f[b]).display_range.start,
        forall|l: int| 0 <= l < f.len() ==> (#[trigger] f[l]).display_range.end <= display_len,
{
    let n = f.len() as int;
    assert forall|l: int| 0 <= l < n implies (#[trigger] f[l]).display_range.start < f[l].display_range.end by {
        assert(f[l].source_range.start < f[l].source_range.end);
    }
    assert forall|l: int| 0 <= l < n implies (#[trigger] f[l]).display_range.end <= display_len by {
        if l < n - 1 {
            assert(f[l].display_range.end <= f[n - 1].display_range.start);
        }
        assert(f[n - 1].source_range.start < f[n - 1].source_range.end);
        assert(f[n - 1].source_range.end <= source_len);
    }
}

/// What a message offset maps to, by where it lies: plain text moves by its
/// gap's shift and stays within that gap of the display; an offset inside a
/// reference goes to its chip's start up to the reference's middle, to the
/// chip's end after it.
proof fn lemma_display_at(p: &InlineFileProjection, o: int, k: int, inside: bool)
    requires
        p.wf(),
        0 <= o <= p.source_length(),
        0 <= k <= p.file_list().len(),
        forall|l: int| 0 <= l < k ==> (#[trigger] p.file_list()[l]).source_range.end <= o,
        !inside ==> gap_lo(p.file_list(), k) <= o <= gap_hi(p.file_list(), k, p.source_length()),
        inside ==> k < p.file_list().len() && p.file_list()[k].source_range.start < o
            < p.file_list()[k].source_range.end,
    ensures
        !inside ==> display_gap_lo(p.file_list(), k) <= p.to_display(o) <= display_gap_hi(
            p.file_list(),
            k,
            p.display_length(),
        ),
        inside ==> p.to_display(o) == if o <= p.file_list()[k].source_range.start + range_len(
            p.file_list()[k].source_range.start as int,
            p.file_list()[k].source_range.end as int,
        ) / 2 {
            p.file_list()[k].display_range.start as int
        } else {
            p.file_list()[k].display_range.end as int
        },
{
    let f = p.file_list();
    let s = p.source_length();
    let d = p.display_length();
    if !inside {
        lemma_gap_ordered(f, s, d, k);
        law_plain_text_round_trips(p, k, o);
    } else {
        assert forall|l: int| 0 <= l < f.len() implies (#[trigger] f[l]).source_range.start
            < f[l].source_range.end by {}
        assert forall|l: int| 0 <= l < k implies (#[trigger] f[l]).source_range.end < o by {
            assert(f[l].source_range.end <= f[k].source_range.start);
        }
        lemma_source_walk_skip(f, 0, k, o);
    }
}

/// Moving forward in the message never moves backward in the display.
pub proof fn law_source_to_display_monotone(p: &InlineFileProjection, o1: int, o2: int)
    requires
        p.wf(),
        0 <= o1 <= o2,
    ensures
        p.to_display(o1) <= p.to_display(o2),
{
    let f = p.file_list();
    let s = p.source_length();
    let d = p.display_length();
    let c1 = if o1 < s { o1 } else { s };
    let c2 = if o2 < s { o2 } else { s };
    assert(p.to_display(o1) == p.to_display(c1));
    assert(p.to_display(o2) == p.to_display(c2));
    let (k1, in1) = lemma_locate(f, s, d, c1, 0);
    let (k2, in2) = lemma_locate(f, s, d, c2, 0);
    lemma_display_at(p, c1, k1, in1);
    lemma_display_at(p, c2, k2, in2);
    lemma_display_ordered(f, s, d);
    lemma_gap_ordered(f, s, d, k1);
    lemma_gap_ordered(f, s, d, k2);
    let v1 = p.to_display(c1);
    let v2 = p.to_display(c2);
    if k1 < k2 {
        // v1 is at most the end of file k1's chip; v2 at least that.
        assert(v1 <= f[k1].display_range.end);
        if in2 {
            if k1 < k2 {
                assert(f[k1].display_range.end <= f[k2].display_range.start);
            }
        } else {
            if k1 < k2 - 1 {
                assert(f[k1].display_range.end <= f[k2 - 1].display_range.start);
                assert(f[k2 - 1].display_range.start < f[k2 - 1].display_range.end);
            }
            assert(display_gap_lo(f, k2) == f[k2 - 1].display_range.end);
        }
    } else if k1 > k2 {
        assert(f[k2].source_range.end <= c1);
        assert(f[k2].source_range.start < f[k2].source_range.end);
        assert(false);
    } else {
        if in1 && !in2 {
            assert(false);
        }
        if !in1 && !in2 {
            law_plain_text_round_trips(p, k1, c1);
            law_plain_text_round_trips(p, k2, c2);
        }
    }
}

/// A chip is never split: no message offset maps strictly inside a chip.
pub proof fn law_chips_never_split(p: &InlineFileProjection, o: int, j: int)
    requires
        p.wf(),
        0 <= o,
        0 <= j < p.file_list().len(),
    ensures
        !(p.file_list()[j].display_range.start < p.to_display(o) < p.file_list()[j].display_range.end),
{
    let f = p.file_list();
    let s = p.source_length();
    let d = p.display_length();
    let c = if o < s { o } else { s };
    assert(p.to_display(o) == p.to_display(c));
    let (k, inside) = lemma_locate(f, s, d, c, 0);
    lemma_display_at(p, c, k, inside);
    lemma_display_ordered(f, s, d);
    lemma_gap_ordered(f, s, d, k);
    if !inside {
        if j < k {
            if j < k - 1 {
                assert(f[j].display_range.end <= f[k - 1].display_range.start);
            }
        } else if k < f.len() && j > k {
            assert(f[k].display_range.end <= f[j].display_range.start);
        }
    } else {
        if j < k {
            assert(f[j].display_range.end <= f[k].display_range.start);
        } else if j > k {
            assert(f[k].display_range.end <= f[j].display_range.start);
        }
    }
}

/// Every message offset outside the references (their ends included)
/// comes back unchanged from the display.
pub proof fn law_round_trip_outside_references(p: &InlineFileProjection, o: int)
    requires
        p.wf(),
        0 <= o <= p.source_length(),
        forall|k: int|
            0 <= k < p.file_list().len() ==> !((#[trigger] p.file_list()[k]).source_range.start < o
                < p.file_list()[k].source_range.end),
    ensures
        p.to_source(p.to_display(o)) == o,
{
    let f = p.file_list();
    let (k, inside) = lemma_locate(f, p.source_length(), p.display_length(), o, 0);
    law_plain_text_round_trips(p, k, o);
}

} // verus!
