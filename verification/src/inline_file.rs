//! Inline file references in a composer message: Markdown links such as
//! `[main.rs](src/main.rs)` that the composer shows as atomic file chips.
use vstd::prelude::*;
use vstd::utf8::*;
use crate::text::{
    all_digits, chars_of, find_char, is_ascii_alpha, is_ascii_digit, is_whitespace,
    is_whitespace_char, push_char, rfind_char, string_from_char_range, string_from_utf8, trim,
    trim_bounds, trim_end_slashes, trailing_slashes_start, utf8, substr,
    lemma_boundary_at_ascii, lemma_boundary_after_ascii, lemma_utf8_concat,
};
use core::ops::Range;

verus! {

broadcast use vstd::utf8::encode_utf8_valid_utf8, vstd::utf8::encode_utf8_decode_utf8;

// ---------------------------------------------------------------------------
// Character-level transforms
// ---------------------------------------------------------------------------
/// How one character of a link label is written.
pub open spec fn label_piece(c: char) -> Seq<char> {
    if c == '\\' || c == '[' || c == ']' {
        seq!['\\', c]
    } else {
        seq![c]
    }
}

/// A label with `\`, `[` and `]` escaped by a backslash.
pub open spec fn escape_label(cs: Seq<char>) -> Seq<char>
    decreases cs.len(),
{
    if cs.len() == 0 {
        seq![]
    } else {
        escape_label(cs.drop_last()) + label_piece(cs.last())
    }
}

/// How one character of a link destination is written.
pub open spec fn destination_piece(c: char) -> Seq<char> {
    if c == '\\' || c == '(' || c == ')' {
        seq!['\\', c]
    } else if c == ' ' {
        seq!['%', '2', '0']
    } else {
        seq![c]
    }
}

/// A destination with `\`, `(` and `)` escaped and spaces written `%20`.
pub open spec fn escape_destination(cs: Seq<char>) -> Seq<char>
    decreases cs.len(),
{
    if cs.len() == 0 {
        seq![]
    } else {
        escape_destination(cs.drop_last()) + destination_piece(cs.last())
    }
}

/// Every `\` replaced by `/`.
pub open spec fn forward_slashes(cs: Seq<char>) -> Seq<char> {
    Seq::new(
        cs.len(),
        |i: int|
            if cs[i] == '\\' {
                '/'
            } else {
                cs[i]
            },
    )
}

/// Markdown backslash escapes removed: a `\` stands for the character after it,
/// and a lone trailing `\` disappears.
pub open spec fn unescape(cs: Seq<char>) -> Seq<char>
    decreases cs.len(),
{
    if cs.len() == 0 {
        seq![]
    } else if cs[0] == '\\' {
        if cs.len() == 1 {
            seq![]
        } else {
            seq![cs[1]] + unescape(cs.skip(2))
        }
    } else {
        seq![cs[0]] + unescape(cs.skip(1))
    }
}

/// The value of a hexadecimal digit byte.
pub open spec fn hex_val(b: u8) -> Option<u8> {
    if 48 <= b <= 57 {
        Some((b - 48) as u8)
    } else if 97 <= b <= 102 {
        Some((b - 97 + 10) as u8)
    } else if 65 <= b <= 70 {
        Some((b - 65 + 10) as u8)
    } else {
        None
    }
}

/// Bytes with every `%XY` (two hex digits) replaced by the byte `0xXY`.
pub open spec fn percent_decoded(bs: Seq<u8>) -> Seq<u8>
    decreases bs.len(),
{
    if bs.len() == 0 {
        seq![]
    } else if bs[0] == 37 && bs.len() >= 3 && hex_val(bs[1]) is Some && hex_val(bs[2]) is Some {
        seq![(hex_val(bs[1])->0 * 16 + hex_val(bs[2])->0) as u8] + percent_decoded(bs.skip(3))
    } else {
        seq![bs[0]] + percent_decoded(bs.skip(1))
    }
}

/// Percent-decoding of a string: the decoded text when it is valid UTF-8,
/// otherwise the string unchanged.
pub open spec fn decode_percent(cs: Seq<char>) -> Seq<char> {
    let b = percent_decoded(utf8(cs));
    if valid_utf8(b) {
        decode_utf8(b)
    } else {
        cs
    }
}

/// The path a link destination names: escapes removed, then percent-decoded.
pub open spec fn display_target_of(cs: Seq<char>) -> Seq<char> {
    decode_percent(unescape(cs))
}

/// Position of the last `c` in `cs`.
pub open spec fn last_pos(cs: Seq<char>, c: char) -> Option<int>
    decreases cs.len(),
{
    if cs.len() == 0 {
        None
    } else if cs.last() == c {
        Some(cs.len() - 1)
    } else {
        last_pos(cs.drop_last(), c)
    }
}

/// Position of the last `/` or `\` in `cs`.
pub open spec fn last_separator(cs: Seq<char>) -> Option<int>
    decreases cs.len(),
{
    if cs.len() == 0 {
        None
    } else if cs.last() == '/' || cs.last() == '\\' {
        Some(cs.len() - 1)
    } else {
        last_separator(cs.drop_last())
    }
}

/// Number of leading ASCII digits.
pub open spec fn digit_run(cs: Seq<char>) -> nat
    decreases cs.len(),
{
    if cs.len() > 0 && is_ascii_digit(cs[0]) {
        1 + digit_run(cs.drop_first())
    } else {
        0
    }
}

/// `12`, `12-L20`, `3-L4-L9`: digit runs joined by `-L`.
pub open spec fn line_span(cs: Seq<char>) -> bool
    decreases cs.len(),
{
    let k = digit_run(cs) as int;
    &&& k >= 1
    &&& (k == cs.len() || (k + 1 < cs.len() && cs[k] == '-' && cs[k + 1] == 'L'
        && line_span(cs.skip(k + 2))))
}

/// Whether every character is an ASCII digit, and there is at least one.
pub open spec fn is_number(cs: Seq<char>) -> bool {
    cs.len() > 0 && forall|i: int| 0 <= i < cs.len() ==> is_ascii_digit(#[trigger] cs[i])
}

/// A path with a trailing `#L12`, `#12-L20` or `:12` line location removed.
pub open spec fn strip_line_location_of(cs: Seq<char>) -> Seq<char> {
    let hash = last_pos(cs, '#');
    let colon = last_pos(cs, ':');
    if hash is Some && ({
        let frag = cs.skip(hash->0 + 1);
        line_span(
            if frag.len() > 0 && frag[0] == 'L' {
                frag.skip(1)
            } else {
                frag
            },
        )
    }) {
        cs.take(hash->0)
    } else if colon is Some && is_number(cs.skip(colon->0 + 1)) {
        cs.take(colon->0)
    } else {
        cs
    }
}

/// The last path segment of `cs`, or `cs` itself when that segment is empty.
pub open spec fn last_segment(cs: Seq<char>) -> Seq<char> {
    let name = match last_separator(cs) {
        Some(k) => cs.skip(k + 1),
        None => cs,
    };
    if name.len() > 0 {
        name
    } else {
        cs
    }
}

/// The name a reference is shown with: its target decoded, trimmed of
/// whitespace, trailing separators and any line location, then its last
/// path segment.
pub open spec fn basename_of(target: Seq<char>) -> Seq<char> {
    last_segment(strip_line_location_of(trim_end_slashes(trim(display_target_of(target)))))
}

/// Whether `c` may appear after the first character of a URI scheme.
pub open spec fn is_scheme_char(c: char) -> bool {
    is_ascii_alpha(c) || is_ascii_digit(c) || c == '+' || c == '-' || c == '.'
}

/// Whether `cs` starts with `scheme:` where the scheme is a letter followed
/// by letters, digits, `+`, `-` or `.`.
pub open spec fn has_uri_scheme(cs: Seq<char>) -> bool {
    match first_pos(cs, ':') {
        Some(k) => k > 0 && is_ascii_alpha(cs[0]) && forall|i: int|
            1 <= i < k ==> is_scheme_char(#[trigger] cs[i]),
        None => false,
    }
}

/// Position of the first `c` in `cs`.
pub open spec fn first_pos(cs: Seq<char>, c: char) -> Option<int>
    decreases cs.len(),
{
    if cs.len() == 0 {
        None
    } else if cs[0] == c {
        Some(0)
    } else {
        match first_pos(cs.drop_first(), c) {
            Some(k) => Some(k + 1),
            None => None,
        }
    }
}

/// Whether `cs` starts like `C:/` or `C:\` (compared byte by byte).
pub open spec fn is_windows_drive_path(cs: Seq<char>) -> bool {
    let b = utf8(cs);
    b.len() > 2 && b[1] == 58 && (b[2] == 47 || b[2] == 92)
}

/// Whether a link target names a local file: non-empty, not a bare fragment,
/// and without a URI scheme unless it is a Windows drive path.
pub open spec fn is_local_target(target: Seq<char>) -> bool {
    let t = trim(target);
    t.len() > 0 && t[0] != '#' && (!has_uri_scheme(t) || is_windows_drive_path(t))
}

/// The Markdown link the composer inserts for a file.
pub open spec fn markdown_reference_of(target: Seq<char>) -> Seq<char> {
    let normalized = forward_slashes(target);
    seq!['['] + escape_label(basename_of(normalized)) + seq![']', '('] + escape_destination(
        normalized,
    ) + seq![')']
}

// ---------------------------------------------------------------------------
// Lemmas about the specifications above
// ---------------------------------------------------------------------------
proof fn lemma_last_pos(cs: Seq<char>, c: char, r: Option<int>)
    requires
        r matches Some(k) ==> 0 <= k < cs.len() && cs[k] == c && forall|j: int|
            k < j < cs.len() ==> cs[j] != c,
        r is None ==> forall|j: int| 0 <= j < cs.len() ==> cs[j] != c,
    ensures
        last_pos(cs, c) == r,
    decreases cs.len(),
{
    if cs.len() > 0 && cs.last() != c {
        lemma_last_pos(cs.drop_last(), c, r);
    }
}

proof fn lemma_first_pos(cs: Seq<char>, c: char, r: Option<int>)
    requires
        r matches Some(k) ==> 0 <= k < cs.len() && cs[k] == c && forall|j: int|
            0 <= j < k ==> cs[j] != c,
        r is None ==> forall|j: int| 0 <= j < cs.len() ==> cs[j] != c,
    ensures
        first_pos(cs, c) == r,
    decreases cs.len(),
{
    if cs.len() > 0 && cs[0] != c {
        let r2 = match r {
            Some(k) => Some(k - 1),
            None => None,
        };
        lemma_first_pos(cs.drop_first(), c, r2);
    }
}

proof fn lemma_last_separator(cs: Seq<char>, r: Option<int>)
    requires
        r matches Some(k) ==> 0 <= k < cs.len() && (cs[k] == '/' || cs[k] == '\\') && forall|
            j: int,
        | k < j < cs.len() ==> cs[j] != '/' && cs[j] != '\\',
        r is None ==> forall|j: int| 0 <= j < cs.len() ==> cs[j] != '/' && cs[j] != '\\',
    ensures
        last_separator(cs) == r,
    decreases cs.len(),
{
    if cs.len() > 0 && cs.last() != '/' && cs.last() != '\\' {
        lemma_last_separator(cs.drop_last(), r);
    }
}

proof fn lemma_digit_run(cs: Seq<char>, k: int)
    requires
        0 <= k <= cs.len(),
        forall|i: int| 0 <= i < k ==> is_ascii_digit(#[trigger] cs[i]),
        k == cs.len() || !is_ascii_digit(cs[k]),
    ensures
        digit_run(cs) == k,
    decreases cs.len(),
{
    if k > 0 {
        lemma_digit_run(cs.drop_first(), k - 1);
    }
}

// ---------------------------------------------------------------------------
// Executable transforms
// ---------------------------------------------------------------------------
/// The value of a hexadecimal digit byte, if it is one.
pub fn hex_value(byte: u8) -> (r: Option<u8>)
    ensures
        r == hex_val(byte),
{
    if 48 <= byte && byte <= 57 {
        Some(byte - 48)
    } else if 97 <= byte && byte <= 102 {
        Some(byte - 97 + 10)
    } else if 65 <= byte && byte <= 70 {
        Some(byte - 65 + 10)
    } else {
        None
    }
}

/// `%XY` sequences decoded; the input unchanged when the result is not UTF-8.
pub fn percent_decode(value: &str) -> (r: String)
    ensures
        r@ == decode_percent(value@),
{
    let bytes = value.as_bytes();
    let ghost bs = bytes@;
    let mut decoded: Vec<u8> = Vec::new();
    let mut index: usize = 0;
    assert(bs.skip(0) =~= bs);
    assert(decoded@ + bs =~= bs);
    while index < bytes.len()
        invariant
            bs == bytes@,
            index <= bs.len(),
            percent_decoded(bs) == decoded@ + percent_decoded(bs.skip(index as int)),
        decreases bs.len() - index,
    {
        let ghost rest = bs.skip(index as int);
        let mut done = false;
        if bytes[index] == 37 && bytes.len() - index > 2 {
            let high = hex_value(bytes[index + 1]);
            let low = hex_value(bytes[index + 2]);
            if let (Some(h), Some(l)) = (high, low) {
                assert(h < 16 && l < 16 ==> (h << 4u8) | l == h * 16 + l) by (bit_vector);
                decoded.push((h << 4u8) | l);
                proof {
                    assert(rest[0] == 37 && rest.len() >= 3 && rest[1] == bs[index + 1] && rest[2]
                        == bs[index + 2]);
                    assert(rest.skip(3) =~= bs.skip(index + 3));
                }
                index = index + 3;
                done = true;
            }
        }
        if !done {
            decoded.push(bytes[index]);
            proof {
                assert(rest.skip(1) =~= bs.skip(index + 1));
                if rest[0] == 37 && rest.len() >= 3 {
                    assert(rest[1] == bs[index + 1] && rest[2] == bs[index + 2]);
                }
            }
            index = index + 1;
        }
    }
    proof {
        assert(bs.skip(index as int) =~= Seq::<u8>::empty());
        assert(decoded@ + Seq::<u8>::empty() =~= decoded@);
    }
    match string_from_utf8(decoded) {
        Some(s) => s,
        None => value.to_owned(),
    }
}

/// Markdown backslash escapes removed.
pub fn unescape_markdown(value: &str) -> (r: String)
    ensures
        r@ == unescape(value@),
{
    let cs = chars_of(value);
    let mut out = String::new();
    let mut i: usize = 0;
    assert(cs@.skip(0) =~= cs@);
    assert(out@ + unescape(cs@) =~= unescape(cs@));
    while i < cs.len()
        invariant
            i <= cs@.len(),
            cs@ == value@,
            unescape(cs@) == out@ + unescape(cs@.skip(i as int)),
        decreases cs@.len() - i,
    {
        let ghost rest = cs@.skip(i as int);
        if cs[i] == '\\' {
            if i + 1 < cs.len() {
                push_char(&mut out, cs[i + 1]);
                assert(rest.skip(2) =~= cs@.skip(i + 2));
                i = i + 2;
            } else {
                assert(unescape(rest) =~= Seq::<char>::empty());
                i = i + 1;
            }
        } else {
            push_char(&mut out, cs[i]);
            assert(rest.skip(1) =~= cs@.skip(i + 1));
            i = i + 1;
        }
    }
    assert(cs@.skip(i as int) =~= Seq::<char>::empty());
    assert(out@ + Seq::<char>::empty() =~= out@);
    out
}

/// The path a link destination names: escapes removed, then percent-decoded.
pub fn display_target(target: &str) -> (r: String)
    ensures
        r@ == display_target_of(target@),
{
    let unescaped = unescape_markdown(target);
    percent_decode(unescaped.as_str())
}


/// End of `cs[from..to]` once a trailing line location is removed.
fn strip_line_location(cs: &[char], from: usize, to: usize) -> (e: usize)
    requires
        from <= to <= cs@.len(),
    ensures
        from <= e <= to,
        cs@.subrange(from as int, e as int) == strip_line_location_of(
            cs@.subrange(from as int, to as int),
        ),
{
    let ghost sub = cs@.subrange(from as int, to as int);
    let hash = rfind_char(cs, from, to, '#');
    proof {
        lemma_last_pos(
            sub,
            '#',
            match hash {
                Some(k) => Some(k - from),
                None => None,
            },
        );
    }
    if let Some(k) = hash {
        let mut f = k + 1;
        if f < to && cs[f] == 'L' {
            f = f + 1;
        }
        proof {
            let frag = sub.skip(k - from + 1);
            assert(frag =~= cs@.subrange(k + 1, to as int));
            if frag.len() > 0 && frag[0] == 'L' {
                assert(frag.skip(1) =~= cs@.subrange(f as int, to as int));
            } else {
                assert(frag =~= cs@.subrange(f as int, to as int));
            }
        }
        if line_span_exec(cs, f, to) {
            assert(sub.take(k - from) =~= cs@.subrange(from as int, k as int));
            return k;
        }
    }
    let colon = rfind_char(cs, from, to, ':');
    proof {
        lemma_last_pos(
            sub,
            ':',
            match colon {
                Some(k) => Some(k - from),
                None => None,
            },
        );
    }
    if let Some(k) = colon {
        if k + 1 < to && all_digits(cs, k + 1, to) {
            assert(sub.skip(k - from + 1) =~= cs@.subrange(k + 1, to as int));
            assert(sub.take(k - from) =~= cs@.subrange(from as int, k as int));
            return k;
        }
        proof {
            let line = sub.skip(k - from + 1);
            assert(line =~= cs@.subrange(k + 1, to as int));
            if line.len() > 0 {
                assert(!(forall|i: int| 0 <= i < line.len() ==> is_ascii_digit(#[trigger] line[i]))) by {
                    if forall|i: int| 0 <= i < line.len() ==> is_ascii_digit(#[trigger] line[i]) {
                        assert forall|j: int| k + 1 <= j < to implies is_ascii_digit(#[trigger] cs@[j]) by {
                            assert(line[j - k - 1] == cs@[j]);
                        }
                    }
                }
            }
        }
    }
    to
}

/// Whether `cs[from..to]` is a line span such as `12-L20`.
fn line_span_exec(cs: &[char], from: usize, to: usize) -> (b: bool)
    requires
        from <= to <= cs@.len(),
    ensures
        b == line_span(cs@.subrange(from as int, to as int)),
{
    let mut i = from;
    loop
        invariant
            from <= i <= to <= cs@.len(),
            line_span(cs@.subrange(from as int, to as int)) == line_span(
                cs@.subrange(i as int, to as int),
            ),
        decreases to - i,
    {
        let ghost sub = cs@.subrange(i as int, to as int);
        let mut j = i;
        while j < to && '0' <= cs[j] && cs[j] <= '9'
            invariant
                i <= j <= to <= cs@.len(),
                forall|k: int| i <= k < j ==> is_ascii_digit(#[trigger] cs@[k]),
            decreases to - j,
        {
            j = j + 1;
        }
        proof {
            assert forall|k: int| 0 <= k < j - i implies is_ascii_digit(#[trigger] sub[k]) by {
                assert(sub[k] == cs@[i + k]);
            }
            lemma_digit_run(sub, j - i);
        }
        if j == i {
            return false;
        }
        if j == to {
            return true;
        }
        if j + 1 < to && cs[j] == '-' && cs[j + 1] == 'L' {
            assert(sub.skip(j - i + 2) =~= cs@.subrange(j + 2, to as int));
            i = j + 2;
        } else {
            return false;
        }
    }
}

/// Position of the last `/` or `\` in `cs[from..to]`.
fn rfind_separator(cs: &[char], from: usize, to: usize) -> (r: Option<usize>)
    requires
        from <= to <= cs@.len(),
    ensures
        last_separator(cs@.subrange(from as int, to as int)) == match r {
            Some(k) => Some(k - from),
            None => None::<int>,
        },
        r matches Some(k) ==> from <= k < to,
{
    let mut j = to;
    while j > from
        invariant
            from <= j <= to <= cs@.len(),
            forall|k: int| j <= k < to ==> cs@[k] != '/' && cs@[k] != '\\',
        decreases j,
    {
        if cs[j - 1] == '/' || cs[j - 1] == '\\' {
            proof {
                lemma_last_separator(cs@.subrange(from as int, to as int), Some(j - 1 - from));
            }
            return Some(j - 1);
        }
        j = j - 1;
    }
    proof {
        lemma_last_separator(cs@.subrange(from as int, to as int), None);
    }
    None
}

/// The name a reference is shown with (see [`basename_of`]).
pub fn target_basename(target: &str) -> (r: String)
    ensures
        r@ == basename_of(target@),
{
    let decoded = display_target(target);
    let cs = chars_of(decoded.as_str());
    let n = cs.len();
    let (i, j) = trim_bounds(&cs, 0, n);
    let j2 = trailing_slashes_start(&cs, i, j);
    let e = strip_line_location(&cs, i, j2);
    let sep = rfind_separator(&cs, i, e);
    let start = match sep {
        Some(k) => k + 1,
        None => i,
    };
    proof {
        assert(cs@.subrange(0, n as int) =~= cs@);
        let t = cs@.subrange(i as int, e as int);
        match sep {
            Some(k) => {
                assert(t.skip(k - i + 1) =~= cs@.subrange(start as int, e as int));
            },
            None => {},
        }
    }
    if start < e {
        string_from_char_range(&cs, start, e)
    } else {
        string_from_char_range(&cs, i, e)
    }
}

fn is_scheme_char_exec(c: char) -> (b: bool)
    ensures
        b == is_scheme_char(c),
{
    ('a' <= c && c <= 'z') || ('A' <= c && c <= 'Z') || ('0' <= c && c <= '9') || c == '+' || c
        == '-' || c == '.'
}

/// Whether a link target names a local file (see [`is_local_target`]).
pub fn is_local_file_target(target: &str) -> (b: bool)
    ensures
        b == is_local_target(target@),
{
    let cs = chars_of(target);
    let n = cs.len();
    let (i, j) = trim_bounds(&cs, 0, n);
    let ghost t = cs@.subrange(i as int, j as int);
    assert(cs@.subrange(0, n as int) =~= cs@);
    if i == j || cs[i] == '#' {
        return false;
    }
    let colon = find_char(&cs, i, j, ':');
    proof {
        lemma_first_pos(
            t,
            ':',
            match colon {
                Some(k) => Some(k - i),
                None => None,
            },
        );
    }
    let mut has_scheme = false;
    if let Some(k) = colon {
        let first = cs[i];
        if k > i && (('a' <= first && first <= 'z') || ('A' <= first && first <= 'Z')) {
            let mut m = i + 1;
            while m < k && is_scheme_char_exec(cs[m])
                invariant
                    i < m <= k,
                    k < j <= cs@.len(),
                    forall|q: int| i + 1 <= q < m ==> is_scheme_char(#[trigger] cs@[q]),
                decreases k - m,
            {
                m = m + 1;
            }
            let ok = m == k;
            proof {
                if ok {
                    assert forall|q: int| 1 <= q < k - i implies is_scheme_char(#[trigger] t[q]) by {
                        assert(t[q] == cs@[i + q]);
                        assert(is_scheme_char(cs@[i + q]));
                    }
                } else {
                    assert(t[m - i] == cs@[m as int]);
                    assert(!is_scheme_char(t[m - i]));
                }
            }
            has_scheme = ok;
        }
    }
    if !has_scheme {
        return true;
    }
    let trimmed = string_from_char_range(&cs, i, j);
    let bytes = trimmed.as_str().as_bytes();
    bytes.len() > 2 && bytes[1] == 58 && (bytes[2] == 47 || bytes[2] == 92)
}

/// Every `\` replaced by `/`.
pub fn forward_slash_path(target: &str) -> (r: String)
    ensures
        r@ == forward_slashes(target@),
{
    let cs = chars_of(target);
    let mut out = String::new();
    let mut i: usize = 0;
    while i < cs.len()
        invariant
            i <= cs@.len(),
            out@ =~= forward_slashes(cs@).take(i as int),
        decreases cs@.len() - i,
    {
        if cs[i] == '\\' {
            push_char(&mut out, '/');
        } else {
            push_char(&mut out, cs[i]);
        }
        i = i + 1;
    }
    assert(forward_slashes(cs@).take(cs@.len() as int) =~= forward_slashes(cs@));
    out
}

/// A link label with `\`, `[` and `]` escaped.
pub fn escape_markdown_label(label: &str) -> (r: String)
    ensures
        r@ == escape_label(label@),
{
    let cs = chars_of(label);
    let mut out = String::new();
    let mut i: usize = 0;
    while i < cs.len()
        invariant
            i <= cs@.len(),
            out@ == escape_label(cs@.take(i as int)),
        decreases cs@.len() - i,
    {
        let c = cs[i];
        if c == '\\' || c == '[' || c == ']' {
            push_char(&mut out, '\\');
        }
        push_char(&mut out, c);
        proof {
            assert(cs@.take(i + 1).drop_last() =~= cs@.take(i as int));
            assert(out@ =~= escape_label(cs@.take(i as int)) + label_piece(c));
        }
        i = i + 1;
    }
    assert(cs@.take(cs@.len() as int) =~= cs@);
    out
}

/// A link destination with `\`, `(` and `)` escaped and spaces as `%20`.
pub fn escape_markdown_destination(target: &str) -> (r: String)
    ensures
        r@ == escape_destination(target@),
{
    let cs = chars_of(target);
    let mut out = String::new();
    let mut i: usize = 0;
    while i < cs.len()
        invariant
            i <= cs@.len(),
            out@ == escape_destination(cs@.take(i as int)),
        decreases cs@.len() - i,
    {
        let c = cs[i];
        if c == '\\' || c == '(' || c == ')' {
            push_char(&mut out, '\\');
            push_char(&mut out, c);
        } else if c == ' ' {
            push_char(&mut out, '%');
            push_char(&mut out, '2');
            push_char(&mut out, '0');
        } else {
            push_char(&mut out, c);
        }
        proof {
            assert(cs@.take(i + 1).drop_last() =~= cs@.take(i as int));
            assert(out@ =~= escape_destination(cs@.take(i as int)) + destination_piece(c));
        }
        i = i + 1;
    }
    assert(cs@.take(cs@.len() as int) =~= cs@);
    out
}

/// The Markdown link the composer inserts for a file: the basename as its
/// label and the whole (slash-normalized) path as its destination.
pub fn markdown_file_reference(target: &str) -> (r: String)
    ensures
        r@ == markdown_reference_of(target@),
{
    let normalized = forward_slash_path(target);
    let basename = target_basename(normalized.as_str());
    let label = escape_markdown_label(basename.as_str());
    let destination = escape_markdown_destination(normalized.as_str());
    let mut out = String::new();
    push_char(&mut out, '[');
    out.append(label.as_str());
    push_char(&mut out, ']');
    push_char(&mut out, '(');
    out.append(destination.as_str());
    push_char(&mut out, ')');
    assert(out@ =~= markdown_reference_of(target@));
    out
}


// ---------------------------------------------------------------------------
// Parsing references out of a message
// ---------------------------------------------------------------------------
/// First position at or after `from` holding `needle`.
pub open spec fn find_from(b: Seq<u8>, from: int, needle: u8) -> Option<int>
    decreases b.len() - from,
{
    if from < 0 || from >= b.len() {
        None
    } else if b[from] == needle {
        Some(from)
    } else {
        find_from(b, from + 1, needle)
    }
}

/// First position at or after `from` holding `needle`, where a backslash
/// hides the byte after it.
pub open spec fn find_unescaped_from(b: Seq<u8>, from: int, needle: u8) -> Option<int>
    decreases b.len() - from,
{
    if from < 0 || from >= b.len() {
        None
    } else if b[from] == 92 {
        if from + 2 > b.len() {
            None
        } else {
            find_unescaped_from(b, from + 2, needle)
        }
    } else if b[from] == needle {
        Some(from)
    } else {
        find_unescaped_from(b, from + 1, needle)
    }
}

/// Scans a link destination from `cursor`: in `<...>` form up to `>)`,
/// otherwise up to the `)` that balances the parentheses seen so far.
/// Gives the end of the destination text and the end of the whole link.
pub open spec fn destination_scan(b: Seq<u8>, cursor: int, depth: int, angle: bool) -> Option<
    (int, int),
>
    decreases b.len() - cursor,
{
    if cursor < 0 || cursor >= b.len() {
        None
    } else if b[cursor] == 92 {
        if cursor + 2 > b.len() {
            None
        } else {
            destination_scan(b, cursor + 2, depth, angle)
        }
    } else if angle && b[cursor] == 62 && cursor + 1 < b.len() && b[cursor + 1] == 41 {
        Some((cursor + 1, cursor + 2))
    } else if !angle && b[cursor] == 40 {
        destination_scan(b, cursor + 1, depth + 1, angle)
    } else if !angle && b[cursor] == 41 && depth == 0 {
        Some((cursor, cursor + 1))
    } else if !angle && b[cursor] == 41 {
        destination_scan(b, cursor + 1, depth - 1, angle)
    } else {
        destination_scan(b, cursor + 1, depth, angle)
    }
}

/// End of the destination that starts at `start`, and end of the link.
pub open spec fn destination_end(b: Seq<u8>, start: int) -> Option<(int, int)> {
    destination_scan(b, start, 0, 0 <= start < b.len() && b[start] == 60)
}

/// Destination bytes without the `<` `>` of the angle form.
pub open spec fn strip_angle(rb: Seq<u8>) -> Seq<u8> {
    if rb.len() >= 2 && rb[0] == 60 && rb.last() == 62 {
        rb.subrange(1, rb.len() - 1)
    } else {
        rb
    }
}

/// The decoded target of the destination `b[from..to]`.
pub open spec fn reference_target(b: Seq<u8>, from: int, to: int) -> Seq<char> {
    display_target_of(decode_utf8(strip_angle(b.subrange(from, to))))
}

pub proof fn lemma_find_from_bounds(b: Seq<u8>, from: int, needle: u8)
    ensures
        find_from(b, from, needle) matches Some(k) ==> from <= k < b.len() && b[k] == needle,
    decreases b.len() - from,
{
    if 0 <= from < b.len() && b[from] != needle {
        lemma_find_from_bounds(b, from + 1, needle);
    }
}

pub proof fn lemma_find_unescaped_bounds(b: Seq<u8>, from: int, needle: u8)
    ensures
        find_unescaped_from(b, from, needle) matches Some(k) ==> from <= k < b.len() && b[k]
            == needle,
    decreases b.len() - from,
{
    if 0 <= from < b.len() {
        if b[from] == 92 {
            if from + 2 <= b.len() {
                lemma_find_unescaped_bounds(b, from + 2, needle);
            }
        } else if b[from] != needle {
            lemma_find_unescaped_bounds(b, from + 1, needle);
        }
    }
}

pub proof fn lemma_destination_scan_bounds(b: Seq<u8>, cursor: int, depth: int, angle: bool)
    ensures
        destination_scan(b, cursor, depth, angle) matches Some((te, end)) ==> cursor <= te < end
            <= b.len() && end == te + 1 && b[te] == 41 && (angle ==> te >= 1 && b[te - 1] == 62),
    decreases b.len() - cursor,
{
    if 0 <= cursor < b.len() {
        if b[cursor] == 92 {
            if cursor + 2 <= b.len() {
                lemma_destination_scan_bounds(b, cursor + 2, depth, angle);
            }
        } else if angle && b[cursor] == 62 && cursor + 1 < b.len() && b[cursor + 1] == 41 {
        } else if !angle && b[cursor] == 40 {
            lemma_destination_scan_bounds(b, cursor + 1, depth + 1, angle);
        } else if !angle && b[cursor] == 41 && depth == 0 {
        } else if !angle && b[cursor] == 41 {
            lemma_destination_scan_bounds(b, cursor + 1, depth - 1, angle);
        } else {
            lemma_destination_scan_bounds(b, cursor + 1, depth, angle);
        }
    }
}

/// The references found from `cursor` on, each as (start, end, target).
pub open spec fn scan_references(b: Seq<u8>, cursor: int) -> Seq<(int, int, Seq<char>)>
    decreases b.len() - cursor,
{
    if cursor < 0 || cursor >= b.len() {
        seq![]
    } else {
        match find_from(b, cursor, 91) {
            None => seq![],
            Some(start) => {
                proof {
                    lemma_find_from_bounds(b, cursor, 91);
                }
                if start > 0 && b[start - 1] == 33 {
                    scan_references(b, start + 1)
                } else {
                    match find_unescaped_from(b, start + 1, 93) {
                        None => seq![],
                        Some(label_end) => {
                            if !(label_end + 1 < b.len() && b[label_end + 1] == 40) {
                                scan_references(b, start + 1)
                            } else {
                                match destination_end(b, label_end + 2) {
                                    None => scan_references(b, start + 1),
                                    Some((target_end, end)) => {
                                        proof {
                                            lemma_find_unescaped_bounds(b, start + 1, 93);
                                            lemma_destination_scan_bounds(
                                                b,
                                                label_end + 2,
                                                0,
                                                0 <= label_end + 2 < b.len() && b[label_end + 2]
                                                    == 60,
                                            );
                                        }
                                        let target = reference_target(
                                            b,
                                            label_end + 2,
                                            target_end,
                                        );
                                        if is_local_target(target) {
                                            seq![(start, end, target)] + scan_references(b, end)
                                        } else {
                                            scan_references(b, start + 1)
                                        }
                                    },
                                }
                            }
                        },
                    }
                }
            },
        }
    }
}

/// Whether a target names a directory: it ends in a separator.
pub open spec fn names_directory(target: Seq<char>) -> bool {
    target.len() > 0 && (target.last() == '/' || target.last() == '\\')
}

/// A Markdown link to a local file, found in a message.
#[derive(Debug, Eq, PartialEq)]
pub struct InlineFileReference {
    pub source_range: Range<usize>,
    pub target: String,
    pub basename: String,
    pub is_dir: bool,
}

impl Clone for InlineFileReference {
    fn clone(&self) -> (r: Self)
        ensures
            r == *self,
    {
        InlineFileReference {
            source_range: Range { start: self.source_range.start, end: self.source_range.end },
            target: self.target.clone(),
            basename: self.basename.clone(),
            is_dir: self.is_dir,
        }
    }
}

impl InlineFileReference {
    /// This reference matches the scanned triple `m`.
    pub open spec fn models(&self, m: (int, int, Seq<char>)) -> bool {
        &&& self.source_range.start == m.0
        &&& self.source_range.end == m.1
        &&& self.target@ == m.2
        &&& self.basename@ == basename_of(m.2)
        &&& self.is_dir == names_directory(m.2)
    }
}

/// The references in `refs` match the scanned triples `ms`, one for one.
pub open spec fn models_all(refs: Seq<InlineFileReference>, ms: Seq<(int, int, Seq<char>)>) -> bool {
    refs.len() == ms.len() && forall|k: int| 0 <= k < refs.len() ==> #[trigger] refs[k].models(ms[k])
}

/// The references of `source`, in order.
pub open spec fn references_of(source: Seq<char>) -> Seq<(int, int, Seq<char>)> {
    scan_references(utf8(source), 0)
}

fn find_byte(b: &[u8], from: usize, needle: u8) -> (r: Option<usize>)
    ensures
        r matches Some(k) ==> find_from(b@, from as int, needle) == Some(k as int),
        r is None ==> find_from(b@, from as int, needle) is None,
        r matches Some(k) ==> from <= k < b@.len(),
{
    let mut i = from;
    while i < b.len()
        invariant
            from <= i,
            find_from(b@, from as int, needle) == find_from(b@, i as int, needle),
        decreases b@.len() - i,
    {
        if b[i] == needle {
            return Some(i);
        }
        i = i + 1;
    }
    None
}

fn find_unescaped_byte(b: &[u8], from: usize, needle: u8) -> (r: Option<usize>)
    requires
        needle != 92,
    ensures
        r matches Some(k) ==> find_unescaped_from(b@, from as int, needle) == Some(k as int),
        r is None ==> find_unescaped_from(b@, from as int, needle) is None,
        r matches Some(k) ==> from <= k < b@.len(),
{
    let mut i = from;
    while i < b.len()
        invariant
            from <= i,
            find_unescaped_from(b@, from as int, needle) == find_unescaped_from(
                b@,
                i as int,
                needle,
            ),
        decreases b@.len() - i,
    {
        if b[i] == 92 {
            if b.len() - i < 2 {
                return None;
            }
            i = i + 2;
        } else if b[i] == needle {
            return Some(i);
        } else {
            i = i + 1;
        }
    }
    None
}

fn markdown_destination_end(b: &[u8], start: usize) -> (r: Option<(usize, usize)>)
    ensures
        r matches Some((x, y)) ==> destination_end(b@, start as int) == Some((x as int, y as int)),
        r is None ==> destination_end(b@, start as int) is None,
{
    let angle = start < b.len() && b[start] == 60;
    let mut cursor = start;
    let mut depth: usize = 0;
    while cursor < b.len()
        invariant
            start <= cursor,
            depth <= cursor,
            destination_end(b@, start as int) == destination_scan(
                b@,
                cursor as int,
                depth as int,
                angle,
            ),
        decreases b@.len() - cursor,
    {
        if b[cursor] == 92 {
            if b.len() - cursor < 2 {
                return None;
            }
            cursor = cursor + 2;
        } else if angle && b[cursor] == 62 && b.len() - cursor > 1 && b[cursor + 1] == 41 {
            return Some((cursor + 1, cursor + 2));
        } else if !angle && b[cursor] == 40 {
            depth = depth + 1;
            cursor = cursor + 1;
        } else if !angle && b[cursor] == 41 && depth == 0 {
            return Some((cursor, cursor + 1));
        } else if !angle && b[cursor] == 41 {
            depth = depth - 1;
            cursor = cursor + 1;
        } else {
            cursor = cursor + 1;
        }
    }
    None
}

/// Every Markdown link in `source` whose destination is a local file
/// (images and links with a URI scheme excluded), in order.
pub fn parse_inline_file_references(source: &str) -> (refs: Vec<InlineFileReference>)
    ensures
        models_all(refs@, references_of(source@)),
{
    let bytes = source.as_bytes();
    let ghost b = bytes@;
    let n = bytes.len();
    let mut refs: Vec<InlineFileReference> = Vec::new();
    let mut cursor: usize = 0;
    let ghost mut ms: Seq<(int, int, Seq<char>)> = Seq::empty();
    proof {
        assert(valid_utf8(b));
        assert(ms + scan_references(b, 0) =~= scan_references(b, 0));
    }
    while cursor < n
        invariant
            b == bytes@,
            b == utf8(source@),
            valid_utf8(b),
            n == b.len(),
            models_all(refs@, ms),
            scan_references(b, 0) == ms + scan_references(b, cursor as int),
        ensures
            cursor >= n,
        decreases n - cursor,
    {
        let start = match find_byte(bytes, cursor, 91) {
            Some(start) => start,
            None => {
                assert(find_from(b, cursor as int, 91) is None);
                assert(scan_references(b, cursor as int) =~= Seq::empty());
                assert(ms + Seq::<(int, int, Seq<char>)>::empty() =~= ms);
                cursor = n;
                break;
            },
        };
        assert(find_from(b, cursor as int, 91) == Some(start as int));
        if start > 0 && bytes[start - 1] == 33 {
            assert(scan_references(b, cursor as int) == scan_references(b, start + 1));
            cursor = start + 1;
            continue;
        }
        let label_end = match find_unescaped_byte(bytes, start + 1, 93) {
            Some(label_end) => label_end,
            None => {
                assert(scan_references(b, cursor as int) =~= Seq::empty());
                assert(ms + Seq::<(int, int, Seq<char>)>::empty() =~= ms);
                cursor = n;
                break;
            },
        };
        if !(n - label_end > 1 && bytes[label_end + 1] == 40) {
            cursor = start + 1;
            continue;
        }
        let target_start = label_end + 2;
        let (target_end, end) = match markdown_destination_end(bytes, target_start) {
            Some(p) => p,
            None => {
                cursor = start + 1;
                continue;
            },
        };
        proof {
            lemma_destination_scan_bounds(
                b,
                target_start as int,
                0,
                0 <= target_start < b.len() && b[target_start as int] == 60,
            );
            lemma_boundary_after_ascii(b, label_end + 1);
            lemma_boundary_at_ascii(b, target_end as int);
        }
        let raw = if target_end - target_start >= 2 && bytes[target_start] == 60 && bytes[target_end
            - 1] == 62 {
            proof {
                lemma_boundary_after_ascii(b, target_start as int);
                lemma_boundary_at_ascii(b, target_end - 1);
                assert(strip_angle(b.subrange(target_start as int, target_end as int))
                    =~= b.subrange(target_start + 1, target_end - 1));
            }
            substr(source, target_start + 1, target_end - 1)
        } else {
            substr(source, target_start, target_end)
        };
        let target = display_target(raw);
        if is_local_file_target(target.as_str()) {
            let basename = target_basename(target.as_str());
            let tcs = chars_of(target.as_str());
            let is_dir = tcs.len() > 0 && (tcs[tcs.len() - 1] == '/' || tcs[tcs.len() - 1]
                == '\\');
            let reference = InlineFileReference {
                source_range: Range { start, end },
                target,
                basename,
                is_dir,
            };
            let ghost m = (start as int, end as int, reference.target@);
            let ghost prev = refs@;
            refs.push(reference);
            proof {
                assert(refs@ =~= prev.push(reference));
                let ms2 = ms.push(m);
                assert(refs@[refs@.len() - 1].models(m));
                assert forall|k: int| 0 <= k < refs@.len() implies #[trigger] refs@[k].models(ms2[k]) by {
                    if k < prev.len() {
                        assert(refs@[k] == prev[k]);
                        assert(ms2[k] == ms[k]);
                    }
                }
                assert(scan_references(b, cursor as int) =~= seq![m] + scan_references(b, end as int));
                assert(ms + (seq![m] + scan_references(b, end as int)) =~= ms2 + scan_references(b, end as int));
                ms = ms2;
            }
            cursor = end;
        } else {
            cursor = start + 1;
        }
    }
    proof {
        assert(scan_references(b, cursor as int) =~= Seq::empty());
        assert(ms + Seq::<(int, int, Seq<char>)>::empty() =~= ms);
    }
    refs
}


// ---------------------------------------------------------------------------
// Editing around references
// ---------------------------------------------------------------------------
/// Whether the last character is whitespace (`ends_with(char::is_whitespace)`).
pub open spec fn ends_with_whitespace(cs: Seq<char>) -> bool {
    cs.len() > 0 && is_whitespace(cs.last())
}

/// Whether the first character is whitespace (`starts_with(char::is_whitespace)`).
pub open spec fn starts_with_whitespace(cs: Seq<char>) -> bool {
    cs.len() > 0 && is_whitespace(cs[0])
}

/// The text inserted for `target` at byte offset `cursor` of `content`: the
/// reference, with a space before it unless the text before is empty or ends
/// in whitespace, and a space after it unless the text after is empty or
/// starts with whitespace.
pub open spec fn insertion_of(content: Seq<char>, cursor: int, target: Seq<char>) -> Seq<char> {
    let b = utf8(content);
    let c = if cursor < b.len() {
        cursor
    } else {
        b.len() as int
    };
    let before = decode_utf8(b.subrange(0, c));
    let after = decode_utf8(b.subrange(c, b.len() as int));
    (if c > 0 && !ends_with_whitespace(before) {
        seq![' ']
    } else {
        seq![]
    }) + markdown_reference_of(target) + (if c < b.len() && !starts_with_whitespace(after) {
        seq![' ']
    } else {
        seq![]
    })
}

/// The text to insert for a file reference at `cursor` (a byte offset,
/// clamped to the end of `content`).
pub fn inline_reference_insertion(content: &str, cursor: usize, target: &str) -> (r: String)
    requires
        is_char_boundary(
            utf8(content@),
            if cursor < utf8(content@).len() {
                cursor as int
            } else {
                utf8(content@).len() as int
            },
        ),
    ensures
        r@ == insertion_of(content@, cursor as int, target@),
{
    let len = content.as_bytes().len();
    let cursor = if cursor < len {
        cursor
    } else {
        len
    };
    proof {
        is_char_boundary_start_end_of_seq(utf8(content@));
    }
    let before = substr(content, 0, cursor);
    let after = substr(content, cursor, len);
    let before_chars = chars_of(before);
    let after_chars = chars_of(after);
    let mut insertion = String::new();
    if cursor > 0 {
        let ends_ws = before_chars.len() > 0 && is_whitespace_char(
            before_chars[before_chars.len() - 1],
        );
        if !ends_ws {
            push_char(&mut insertion, ' ');
        }
    }
    let reference = markdown_file_reference(target);
    insertion.append(reference.as_str());
    if cursor < len {
        let starts_ws = after_chars.len() > 0 && is_whitespace_char(after_chars[0]);
        if !starts_ws {
            push_char(&mut insertion, ' ');
        }
    }
    assert(insertion@ =~= insertion_of(content@, cursor as int, target@));
    insertion
}

/// What backspace at `cursor` removes, checking references from index `i`:
/// the whole reference when the cursor is at its end or inside it, or the
/// reference and the space after it when the cursor follows that space.
pub open spec fn backspace_from(
    b: Seq<u8>,
    ms: Seq<(int, int, Seq<char>)>,
    cursor: int,
    i: int,
) -> Option<(int, int)>
    decreases ms.len() - i,
{
    if i < 0 || i >= ms.len() {
        None
    } else {
        let (start, end) = (ms[i].0, ms[i].1);
        if cursor == end {
            Some((start, end))
        } else if cursor == end + 1 && 0 <= end < b.len() && b[end] == 32 {
            Some((start, cursor))
        } else if start < cursor < end {
            Some((start, end))
        } else {
            backspace_from(b, ms, cursor, i + 1)
        }
    }
}

/// What delete at `cursor` removes: the reference starting there, with the
/// space that follows it.
pub open spec fn delete_from(b: Seq<u8>, ms: Seq<(int, int, Seq<char>)>, cursor: int, i: int) -> Option<
    (int, int),
>
    decreases ms.len() - i,
{
    if i < 0 || i >= ms.len() {
        None
    } else if cursor == ms[i].0 {
        let end = ms[i].1;
        Some(
            (
                ms[i].0,
                if 0 <= end < b.len() && b[end] == 32 {
                    end + 1
                } else {
                    end
                },
            ),
        )
    } else {
        delete_from(b, ms, cursor, i + 1)
    }
}

/// Scanned references end inside the text they were scanned from.
pub proof fn lemma_scan_bounds(b: Seq<u8>, cursor: int)
    ensures
        forall|k: int|
            0 <= k < scan_references(b, cursor).len() ==> cursor <= (#[trigger] scan_references(
                b,
                cursor,
            )[k]).0 < scan_references(b, cursor)[k].1 <= b.len() && b[scan_references(
                b,
                cursor,
            )[k].0] == 91 && b[scan_references(b, cursor)[k].1 - 1] == 41,
        forall|k: int, l: int|
            0 <= k < l < scan_references(b, cursor).len() ==> (#[trigger] scan_references(
                b,
                cursor,
            )[k]).1 <= (#[trigger] scan_references(b, cursor)[l]).0,
    decreases b.len() - cursor,
{
    if 0 <= cursor < b.len() {
        lemma_find_from_bounds(b, cursor, 91);
        match find_from(b, cursor, 91) {
            None => {
                assert(scan_references(b, cursor).len() == 0);
            },
            Some(start) => {
                lemma_scan_bounds(b, start + 1);
                let skip = scan_references(b, start + 1);
                if start > 0 && b[start - 1] == 33 {
                    assert(scan_references(b, cursor) == skip);
                } else {
                    lemma_find_unescaped_bounds(b, start + 1, 93);
                    match find_unescaped_from(b, start + 1, 93) {
                        None => {
                            assert(scan_references(b, cursor).len() == 0);
                        },
                        Some(label_end) => {
                            if !(label_end + 1 < b.len() && b[label_end + 1] == 40) {
                                assert(scan_references(b, cursor) == skip);
                            } else {
                                lemma_destination_scan_bounds(
                                    b,
                                    label_end + 2,
                                    0,
                                    0 <= label_end + 2 < b.len() && b[label_end + 2] == 60,
                                );
                                match destination_end(b, label_end + 2) {
                                    None => {
                                        assert(scan_references(b, cursor) == skip);
                                    },
                                    Some((target_end, end)) => {
                                        lemma_scan_bounds(b, end);
                                        let rest = scan_references(b, end);
                                        let target = reference_target(b, label_end + 2, target_end);
                                        if is_local_target(target) {
                                            let all = seq![(start, end, target)] + rest;
                                            assert(scan_references(b, cursor) == all);
                                            assert forall|k: int, l: int|
                                                0 <= k < l < all.len() implies (#[trigger] all[k]).1
                                                <= (#[trigger] all[l]).0 by {
                                                if k > 0 {
                                                    assert(all[k] == rest[k - 1]);
                                                }
                                                assert(all[l] == rest[l - 1]);
                                            }
                                            assert forall|k: int| 0 <= k < all.len() implies cursor
                                                <= (#[trigger] all[k]).0 < all[k].1 <= b.len() && b[all[k].0] == 91 && b[all[k].1 - 1] == 41 by {
                                                if k > 0 {
                                                    assert(all[k] == rest[k - 1]);
                                                }
                                            }
                                        } else {
                                            assert(scan_references(b, cursor) == skip);
                                        }
                                    },
                                }
                            }
                        },
                    }
                }
            },
        }
    } else {
        assert(scan_references(b, cursor).len() == 0);
    }
}

/// The source range backspace at `cursor` deletes, when it touches a reference.
pub fn file_backspace_range(source: &str, cursor: usize) -> (r: Option<Range<usize>>)
    ensures
        r matches Some(rg) ==> backspace_from(utf8(source@), references_of(source@), cursor as int, 0)
            == Some((rg.start as int, rg.end as int)),
        r is None ==> backspace_from(utf8(source@), references_of(source@), cursor as int, 0) is None,
{
    let refs = parse_inline_file_references(source);
    let bytes = source.as_bytes();
    let ghost b = bytes@;
    let ghost ms = references_of(source@);
    proof {
        lemma_scan_bounds(b, 0);
    }
    let mut i: usize = 0;
    while i < refs.len()
        invariant
            b == bytes@,
            b == utf8(source@),
            ms == references_of(source@),
            models_all(refs@, ms),
            i <= refs@.len(),
            forall|k: int| 0 <= k < ms.len() ==> 0 <= (#[trigger] ms[k]).0 < ms[k].1 <= b.len(),
            backspace_from(b, ms, cursor as int, 0) == backspace_from(b, ms, cursor as int, i as int),
        decreases refs@.len() - i,
    {
        let start = refs[i].source_range.start;
        let end = refs[i].source_range.end;
        assert(refs@[i as int].models(ms[i as int]));
        if cursor == end {
            return Some(Range { start, end });
        } else if end < bytes.len() && cursor > 0 && cursor - 1 == end && bytes[end] == 32 {
            return Some(Range { start, end: cursor });
        } else if start < cursor && cursor < end {
            return Some(Range { start, end });
        }
        i = i + 1;
    }
    None
}

/// The source range delete at `cursor` removes, when a reference starts there.
pub fn file_delete_range(source: &str, cursor: usize) -> (r: Option<Range<usize>>)
    ensures
        r matches Some(rg) ==> delete_from(utf8(source@), references_of(source@), cursor as int, 0)
            == Some((rg.start as int, rg.end as int)),
        r is None ==> delete_from(utf8(source@), references_of(source@), cursor as int, 0) is None,
{
    let refs = parse_inline_file_references(source);
    let bytes = source.as_bytes();
    let ghost b = bytes@;
    let ghost ms = references_of(source@);
    proof {
        lemma_scan_bounds(b, 0);
    }
    let mut i: usize = 0;
    while i < refs.len()
        invariant
            b == bytes@,
            b == utf8(source@),
            ms == references_of(source@),
            models_all(refs@, ms),
            i <= refs@.len(),
            forall|k: int| 0 <= k < ms.len() ==> 0 <= (#[trigger] ms[k]).0 < ms[k].1 <= b.len(),
            delete_from(b, ms, cursor as int, 0) == delete_from(b, ms, cursor as int, i as int),
        decreases refs@.len() - i,
    {
        let start = refs[i].source_range.start;
        let end = refs[i].source_range.end;
        assert(refs@[i as int].models(ms[i as int]));
        if cursor == start {
            let end = if end < bytes.len() && bytes[end] == 32 {
                end + 1
            } else {
                end
            };
            return Some(Range { start, end });
        }
        i = i + 1;
    }
    None
}


// ---------------------------------------------------------------------------
// A written reference parses back
// ---------------------------------------------------------------------------
/// The bytes of one character: the character's own code for ASCII, bytes of
/// 128 and above otherwise.
pub(crate) proof fn lemma_char_bytes(c: char)
    ensures
        (c as u32) < 128 ==> utf8(seq![c]) == seq![(c as u32) as u8] && ((c as u32) as u8) as u32 == c
            as u32,
        (c as u32) >= 128 ==> utf8(seq![c]).len() >= 2 && forall|i: int|
            0 <= i < utf8(seq![c]).len() ==> #[trigger] utf8(seq![c])[i] >= 128,
{
    let s = c as u32;
    assert(seq![c].drop_first() =~= Seq::<char>::empty());
    assert(utf8(seq![c]) == encode_scalar(s) + encode_utf8(Seq::<char>::empty()));
    assert(utf8(seq![c]) =~= encode_scalar(s));
    if s < 128 {
        assert((s & 0x7F) as u8 == s as u8 && (s as u8) as u32 == s) by (bit_vector)
            requires
                s < 128,
        ;
    } else {
        assert(0xC0u8 | ((s >> 6) & 0x1F) as u8 >= 128) by (bit_vector);
        assert(0xE0u8 | ((s >> 12) & 0x0F) as u8 >= 128) by (bit_vector);
        assert(0xF0u8 | ((s >> 18) & 0x7) as u8 >= 128) by (bit_vector);
        assert(0x80u8 | (s & 0x3F) as u8 >= 128) by (bit_vector);
        assert(0x80u8 | ((s >> 6) & 0x3F) as u8 >= 128) by (bit_vector);
        assert(0x80u8 | ((s >> 12) & 0x3F) as u8 >= 128) by (bit_vector);
    }
}

/// Bytes of 128 and above hide no needle from the unescaped search.
proof fn lemma_unescaped_skips_high(b: Seq<u8>, p: int, k: int, needle: u8)
    requires
        0 <= p,
        0 <= k,
        p + k <= b.len(),
        needle < 128,
        forall|i: int| p <= i < p + k ==> #[trigger] b[i] >= 128,
    ensures
        find_unescaped_from(b, p, needle) == find_unescaped_from(b, p + k, needle),
    decreases k,
{
    if k > 0 {
        assert(b[p] >= 128);
        lemma_unescaped_skips_high(b, p + 1, k - 1, needle);
    }
}

/// The unescaped search for `]` steps over one escaped label character.
proof fn lemma_label_piece_skipped(b: Seq<u8>, p: int, c: char)
    requires
        0 <= p,
        p + utf8(label_piece(c)).len() <= b.len(),
        b.subrange(p, p + utf8(label_piece(c)).len()) == utf8(label_piece(c)),
    ensures
        find_unescaped_from(b, p, 93) == find_unescaped_from(b, p + utf8(label_piece(c)).len(), 93),
{
    let e = utf8(label_piece(c));
    lemma_char_bytes(c);
    assert(b[p] == e[0]);
    if c == '\\' || c == '[' || c == ']' {
        lemma_char_bytes('\\');
        assert(label_piece(c) =~= seq!['\\'] + seq![c]);
        lemma_utf8_concat(seq!['\\'], seq![c]);
        assert(e[0] == 92);
    } else if (c as u32) < 128 {
        assert(e[0] != 92 && e[0] != 93);
    } else {
        assert forall|i: int| p <= i < p + e.len() implies #[trigger] b[i] >= 128 by {
            assert(b[i] == e[i - p]);
        }
        lemma_unescaped_skips_high(b, p, e.len() as int, 93);
    }
}

/// The unescaped search for `]` steps over a whole escaped label.
proof fn lemma_label_skipped(b: Seq<u8>, p: int, label: Seq<char>)
    requires
        0 <= p,
        p + utf8(escape_label(label)).len() <= b.len(),
        b.subrange(p, p + utf8(escape_label(label)).len()) == utf8(escape_label(label)),
    ensures
        find_unescaped_from(b, p, 93) == find_unescaped_from(b, p + utf8(escape_label(label)).len(), 93),
    decreases label.len(),
{
    if label.len() > 0 {
        let front = label.drop_last();
        let c = label.last();
        let ef = utf8(escape_label(front));
        let ec = utf8(label_piece(c));
        lemma_utf8_concat(escape_label(front), label_piece(c));
        let whole = utf8(escape_label(label));
        assert(whole == ef + ec);
        assert forall|i: int| 0 <= i < whole.len() implies #[trigger] b[p + i] == whole[i] by {
            assert(b.subrange(p, p + whole.len())[i] == whole[i]);
        }
        assert(b.subrange(p, p + ef.len()) =~= ef) by {
            assert forall|i: int| 0 <= i < ef.len() implies b.subrange(p, p + ef.len())[i] == ef[i] by {
                assert(b[p + i] == whole[i]);
            }
        }
        lemma_label_skipped(b, p, front);
        assert(b.subrange(p + ef.len(), p + ef.len() + ec.len()) =~= ec) by {
            assert forall|i: int| 0 <= i < ec.len() implies b.subrange(p + ef.len(), p + ef.len() + ec.len())[i] == ec[i] by {
                assert(b[p + (ef.len() + i)] == whole[ef.len() + i]);
            }
        }
        lemma_label_piece_skipped(b, p + ef.len(), c);
    } else {
        assert(utf8(escape_label(label)) =~= Seq::<u8>::empty());
    }
}

/// Bytes other than `\`, `(` and `)` leave a plain destination scan where
/// it was.
proof fn lemma_destination_skips(b: Seq<u8>, p: int, k: int)
    requires
        0 <= p,
        0 <= k,
        p + k <= b.len(),
        forall|i: int| p <= i < p + k ==> #[trigger] b[i] != 92 && b[i] != 40 && b[i] != 41,
    ensures
        destination_scan(b, p, 0, false) == destination_scan(b, p + k, 0, false),
    decreases k,
{
    if k > 0 {
        assert(b[p] != 92 && b[p] != 40 && b[p] != 41);
        lemma_destination_skips(b, p + 1, k - 1);
    }
}

/// A plain destination scan steps over one escaped destination character.
proof fn lemma_destination_piece_skipped(b: Seq<u8>, p: int, c: char)
    requires
        0 <= p,
        p + utf8(destination_piece(c)).len() <= b.len(),
        b.subrange(p, p + utf8(destination_piece(c)).len()) == utf8(destination_piece(c)),
    ensures
        destination_scan(b, p, 0, false) == destination_scan(
            b,
            p + utf8(destination_piece(c)).len(),
            0,
            false,
        ),
{
    let e = utf8(destination_piece(c));
    lemma_char_bytes(c);
    assert forall|i: int| 0 <= i < e.len() implies #[trigger] b[p + i] == e[i] by {
        assert(b.subrange(p, p + e.len())[i] == e[i]);
    }
    if c == '\\' || c == '(' || c == ')' {
        lemma_char_bytes('\\');
        assert(destination_piece(c) =~= seq!['\\'] + seq![c]);
        lemma_utf8_concat(seq!['\\'], seq![c]);
        assert(b[p] == 92);
    } else if c == ' ' {
        lemma_char_bytes('%');
        lemma_char_bytes('2');
        lemma_char_bytes('0');
        assert(destination_piece(c) =~= seq!['%'] + (seq!['2'] + seq!['0']));
        lemma_utf8_concat(seq!['2'], seq!['0']);
        lemma_utf8_concat(seq!['%'], seq!['2'] + seq!['0']);
        assert(e =~= seq![37u8, 50u8, 48u8]);
        assert(b[p] == 37 && b[p + 1] == 50 && b[p + 2] == 48);
        lemma_destination_skips(b, p, 3);
    } else if (c as u32) < 128 {
        assert(b[p] == e[0]);
        lemma_destination_skips(b, p, 1);
    } else {
        assert forall|i: int| p <= i < p + e.len() implies #[trigger] b[i] != 92 && b[i] != 40 && b[i]
            != 41 by {
            assert(b[p + (i - p)] == e[i - p]);
        }
        lemma_destination_skips(b, p, e.len() as int);
    }
}

/// A plain destination scan steps over a whole escaped destination.
proof fn lemma_destination_skipped(b: Seq<u8>, p: int, target: Seq<char>)
    requires
        0 <= p,
        p + utf8(escape_destination(target)).len() <= b.len(),
        b.subrange(p, p + utf8(escape_destination(target)).len()) == utf8(escape_destination(target)),
    ensures
        destination_scan(b, p, 0, false) == destination_scan(
            b,
            p + utf8(escape_destination(target)).len(),
            0,
            false,
        ),
    decreases target.len(),
{
    if target.len() > 0 {
        let front = target.drop_last();
        let c = target.last();
        let ef = utf8(escape_destination(front));
        let ec = utf8(destination_piece(c));
        lemma_utf8_concat(escape_destination(front), destination_piece(c));
        let whole = utf8(escape_destination(target));
        assert(whole == ef + ec);
        assert forall|i: int| 0 <= i < whole.len() implies #[trigger] b[p + i] == whole[i] by {
            assert(b.subrange(p, p + whole.len())[i] == whole[i]);
        }
        assert(b.subrange(p, p + ef.len()) =~= ef) by {
            assert forall|i: int| 0 <= i < ef.len() implies b.subrange(p, p + ef.len())[i] == ef[i] by {
                assert(b[p + i] == whole[i]);
            }
        }
        lemma_destination_skipped(b, p, front);
        assert(b.subrange(p + ef.len(), p + ef.len() + ec.len()) =~= ec) by {
            assert forall|i: int| 0 <= i < ec.len() implies b.subrange(p + ef.len(), p + ef.len() + ec.len())[i] == ec[i] by {
                assert(b[p + (ef.len() + i)] == whole[ef.len() + i]);
            }
        }
        lemma_destination_piece_skipped(b, p + ef.len(), c);
    } else {
        assert(utf8(escape_destination(target)) =~= Seq::<u8>::empty());
    }
}

/// A destination with its escapes removed but its spaces still `%20`.
pub open spec fn spaces_encoded(cs: Seq<char>) -> Seq<char>
    decreases cs.len(),
{
    if cs.len() == 0 {
        seq![]
    } else {
        (if cs[0] == ' ' {
            seq!['%', '2', '0']
        } else {
            seq![cs[0]]
        }) + spaces_encoded(cs.drop_first())
    }
}

/// An escaped destination, read from its first character.
proof fn lemma_escape_destination_front(cs: Seq<char>)
    requires
        cs.len() > 0,
    ensures
        escape_destination(cs) == destination_piece(cs[0]) + escape_destination(cs.drop_first()),
    decreases cs.len(),
{
    if cs.len() == 1 {
        assert(cs.drop_first() =~= Seq::<char>::empty());
        assert(cs.drop_last() =~= Seq::<char>::empty());
        assert(escape_destination(cs.drop_last()) =~= Seq::<char>::empty());
        assert(escape_destination(cs.drop_first()) =~= Seq::<char>::empty());
        assert(cs.last() == cs[0]);
        assert(escape_destination(cs) =~= destination_piece(cs[0]));
    } else {
        lemma_escape_destination_front(cs.drop_last());
        assert(cs.drop_last().drop_first() =~= cs.drop_first().drop_last());
        assert(cs.drop_first().last() == cs.last());
        assert(escape_destination(cs) =~= destination_piece(cs[0]) + escape_destination(cs.drop_first()));
    }
}

/// Removing the escapes of an escaped destination leaves it with spaces
/// written `%20`.
proof fn lemma_unescape_destination(cs: Seq<char>)
    ensures
        unescape(escape_destination(cs)) == spaces_encoded(cs),
    decreases cs.len(),
{
    if cs.len() == 0 {
        assert(escape_destination(cs) =~= Seq::<char>::empty());
    } else {
        let c = cs[0];
        let rest = escape_destination(cs.drop_first());
        lemma_escape_destination_front(cs);
        lemma_unescape_destination(cs.drop_first());
        let w = destination_piece(c) + rest;
        if c == '\\' || c == '(' || c == ')' {
            assert(w[0] == '\\' && w[1] == c);
            assert(w.skip(2) =~= rest);
            assert(unescape(w) =~= seq![c] + spaces_encoded(cs.drop_first()));
        } else if c == ' ' {
            let w1 = w.skip(1);
            let w2 = w1.skip(1);
            assert(w2.skip(1) =~= rest);
            assert(w[0] == '%' && w1[0] == '2' && w2[0] == '0');
            assert(unescape(w2) =~= seq!['0'] + unescape(rest));
            assert(unescape(w1) =~= seq!['2'] + unescape(w2));
            assert(unescape(w) =~= seq!['%'] + unescape(w1));
            assert(unescape(w) =~= seq!['%', '2', '0'] + spaces_encoded(cs.drop_first()));
        } else {
            assert(w[0] == c);
            assert(w.skip(1) =~= rest);
            assert(unescape(w) =~= seq![c] + spaces_encoded(cs.drop_first()));
        }
    }
}

/// Bytes without `%` pass through percent-decoding unchanged.
proof fn lemma_percent_plain(x: Seq<u8>, r: Seq<u8>)
    requires
        forall|i: int| 0 <= i < x.len() ==> #[trigger] x[i] != 37,
    ensures
        percent_decoded(x + r) == x + percent_decoded(r),
    decreases x.len(),
{
    if x.len() > 0 {
        assert((x + r)[0] == x[0]);
        assert((x + r).skip(1) =~= x.skip(1) + r);
        lemma_percent_plain(x.skip(1), r);
        assert(x =~= seq![x[0]] + x.skip(1));
    } else {
        assert(x + r =~= r);
    }
}

/// Percent-decoding a destination whose only `%` are the encoded spaces
/// gives the destination back.
proof fn lemma_spaces_decoded(cs: Seq<char>)
    requires
        !cs.contains('%'),
    ensures
        percent_decoded(utf8(spaces_encoded(cs))) == utf8(cs),
    decreases cs.len(),
{
    if cs.len() == 0 {
        assert(utf8(spaces_encoded(cs)) =~= Seq::<u8>::empty());
        assert(utf8(cs) =~= Seq::<u8>::empty());
    } else {
        let c = cs[0];
        let tail = cs.drop_first();
        assert(!tail.contains('%')) by {
            if tail.contains('%') {
                let j = choose|j: int| 0 <= j < tail.len() && tail[j] == '%';
                assert(cs[j + 1] == '%');
            }
        }
        lemma_spaces_decoded(tail);
        let head = if c == ' ' {
            seq!['%', '2', '0']
        } else {
            seq![c]
        };
        assert(spaces_encoded(cs) == head + spaces_encoded(tail));
        lemma_utf8_concat(head, spaces_encoded(tail));
        assert(cs =~= seq![c] + tail);
        lemma_utf8_concat(seq![c], tail);
        lemma_char_bytes(c);
        let rest = utf8(spaces_encoded(tail));
        if c == ' ' {
            lemma_char_bytes('%');
            lemma_char_bytes('2');
            lemma_char_bytes('0');
            assert(head =~= seq!['%'] + (seq!['2'] + seq!['0']));
            lemma_utf8_concat(seq!['2'], seq!['0']);
            lemma_utf8_concat(seq!['%'], seq!['2'] + seq!['0']);
            let x = seq![37u8, 50u8, 48u8] + rest;
            assert(utf8(head) + rest =~= x);
            assert(x.skip(3) =~= rest);
            assert(percent_decoded(x) =~= seq![32u8] + percent_decoded(rest));
        } else {
            assert(c != '%');
            let e = utf8(seq![c]);
            assert forall|i: int| 0 <= i < e.len() implies #[trigger] e[i] != 37 by {
                if (c as u32) < 128 {
                    let x = (c as u32) as u8;
                    assert(e == seq![x]);
                    assert(e[i] == x);
                    assert(x as u32 == c as u32);
                    char_u32_cast(c, c as u32);
                    char_u32_cast('%', '%' as u32);
                    assert(c as u32 != 37);
                }
            }
            lemma_percent_plain(e, rest);
        }
    }
}

/// The path an escaped destination names is the path it was written from,
/// when that path holds no `%`.
proof fn lemma_destination_reads_back(cs: Seq<char>)
    requires
        !cs.contains('%'),
    ensures
        display_target_of(escape_destination(cs)) == cs,
{
    lemma_unescape_destination(cs);
    lemma_spaces_decoded(cs);
}

/// The first byte of an escaped destination that starts with neither `<`
/// nor `\` is no `<`.
proof fn lemma_destination_first_byte(cs: Seq<char>)
    requires
        cs.len() > 0,
        cs[0] != '<',
        cs[0] != '\\',
    ensures
        utf8(escape_destination(cs)).len() > 0,
        utf8(escape_destination(cs))[0] != 60,
{
    let c = cs[0];
    lemma_escape_destination_front(cs);
    lemma_utf8_concat(destination_piece(c), escape_destination(cs.drop_first()));
    let e = utf8(destination_piece(c));
    lemma_char_bytes(c);
    if c == '(' || c == ')' {
        lemma_char_bytes('\\');
        assert(destination_piece(c) =~= seq!['\\'] + seq![c]);
        lemma_utf8_concat(seq!['\\'], seq![c]);
        assert(e[0] == 92);
    } else if c == ' ' {
        lemma_char_bytes('%');
        assert(destination_piece(c) =~= seq!['%'] + seq!['2', '0']);
        lemma_utf8_concat(seq!['%'], seq!['2', '0']);
        assert(e[0] == 37);
    } else if (c as u32) < 128 {
        assert(destination_piece(c) == seq![c]);
        char_u32_cast(c, c as u32);
        char_u32_cast('<', '<' as u32);
        assert(e[0] as u32 == c as u32);
    } else {
        assert(destination_piece(c) == seq![c]);
        assert(e[0] >= 128);
    }
}

/// A reference written for a local file is found again in what was written,
/// as one reference over the whole text that names the same file: the
/// composer's inserted links parse back. This holds for targets without
/// `%` (the parser decodes percent escapes), without `\` (the writer turns
/// it into `/`) and not starting with `<` (the parser's angle-bracket form).
pub proof fn law_reference_parses_back(target: Seq<char>)
    requires
        is_local_target(target),
        !target.contains('%'),
        !target.contains('\\'),
        !(target.len() > 0 && target[0] == '<'),
    ensures
        references_of(markdown_reference_of(target)) == seq![
            (0int, utf8(markdown_reference_of(target)).len() as int, target),
        ],
{
    let t = target;
    assert(t.len() > 0) by {
        if t.len() == 0 {
            assert(trim(t).len() == 0);
        }
    }
    assert(forward_slashes(t) =~= t) by {
        assert forall|i: int| 0 <= i < t.len() implies t[i] != '\\' by {
            if t[i] == '\\' {
                assert(t.contains('\\'));
            }
        }
    }
    let label = basename_of(t);
    let el = escape_label(label);
    let ed = escape_destination(t);
    let m1 = seq!['['] + el;
    let m2 = m1 + seq![']', '('];
    let m3 = m2 + ed;
    let m = m3 + seq![')'];
    assert(markdown_reference_of(t) == m);
    lemma_char_bytes('[');
    lemma_char_bytes(']');
    lemma_char_bytes('(');
    lemma_char_bytes(')');
    lemma_utf8_concat(seq!['['], el);
    lemma_utf8_concat(seq![']'], seq!['(']);
    assert(seq![']', '('] =~= seq![']'] + seq!['(']);
    lemma_utf8_concat(m1, seq![']', '(']);
    lemma_utf8_concat(m2, ed);
    lemma_utf8_concat(m3, seq![')']);
    let lb = utf8(el);
    let db = utf8(ed);
    let b = utf8(m);
    let ls = 1int;
    let le = ls + lb.len();
    let ds = le + 2;
    let de = ds + db.len();
    assert(b =~= seq![91u8] + lb + seq![93u8, 40u8] + db + seq![41u8]);
    assert(b.len() == de + 1);
    assert(b[0] == 91);
    assert(b[le] == 93);
    assert(b[le + 1] == 40);
    assert(b[de] == 41);
    assert(b.subrange(ls, le) =~= lb);
    assert(b.subrange(ds, de) =~= db);
    // The label is stepped over up to its closing `]`.
    lemma_label_skipped(b, ls, label);
    assert(find_unescaped_from(b, le, 93) == Some(le));
    assert(find_from(b, 0, 91) == Some(0int));
    // The destination is stepped over up to its closing `)`.
    lemma_destination_first_byte(t);
    assert(b[ds] == db[0]);
    lemma_destination_skipped(b, ds, t);
    assert(destination_scan(b, de, 0, false) == Some((de, de + 1)));
    assert(destination_end(b, ds) == Some((de, de + 1)));
    // The destination reads back as the target.
    assert(strip_angle(db) == db);
    assert(decode_utf8(db) == ed);
    lemma_destination_reads_back(t);
    assert(reference_target(b, ds, de) == t);
    assert(scan_references(b, de + 1) =~= Seq::<(int, int, Seq<char>)>::empty());
    assert(scan_references(b, 0) =~= seq![(0int, b.len() as int, t)]);
}

/// Every reference scanned names a local file.
proof fn lemma_scan_local(b: Seq<u8>, cursor: int)
    ensures
        forall|k: int|
            0 <= k < scan_references(b, cursor).len() ==> is_local_target(
                (#[trigger] scan_references(b, cursor)[k]).2,
            ),
    decreases b.len() - cursor,
{
    if 0 <= cursor < b.len() {
        lemma_find_from_bounds(b, cursor, 91);
        match find_from(b, cursor, 91) {
            None => {},
            Some(start) => {
                lemma_scan_local(b, start + 1);
                let skip = scan_references(b, start + 1);
                if start > 0 && b[start - 1] == 33 {
                    assert(scan_references(b, cursor) == skip);
                } else {
                    lemma_find_unescaped_bounds(b, start + 1, 93);
                    match find_unescaped_from(b, start + 1, 93) {
                        None => {},
                        Some(label_end) => {
                            if !(label_end + 1 < b.len() && b[label_end + 1] == 40) {
                                assert(scan_references(b, cursor) == skip);
                            } else {
                                lemma_destination_scan_bounds(
                                    b,
                                    label_end + 2,
                                    0,
                                    0 <= label_end + 2 < b.len() && b[label_end + 2] == 60,
                                );
                                match destination_end(b, label_end + 2) {
                                    None => {
                                        assert(scan_references(b, cursor) == skip);
                                    },
                                    Some((target_end, end)) => {
                                        lemma_scan_local(b, end);
                                        let rest = scan_references(b, end);
                                        let target = reference_target(b, label_end + 2, target_end);
                                        if is_local_target(target) {
                                            let all = seq![(start, end, target)] + rest;
                                            assert(scan_references(b, cursor) == all);
                                            assert forall|k: int| 0 <= k < all.len() implies is_local_target(
                                                (#[trigger] all[k]).2,
                                            ) by {
                                                if k > 0 {
                                                    assert(all[k] == rest[k - 1]);
                                                }
                                            }
                                        } else {
                                            assert(scan_references(b, cursor) == skip);
                                        }
                                    },
                                }
                            }
                        },
                    }
                }
            },
        }
    }
}

/// A link to a fragment of the same message (its trimmed target starts with
/// `#`) never names a local file.
pub proof fn law_fragment_links_are_not_files(target: Seq<char>)
    ensures
        trim(target).len() > 0 && trim(target)[0] == '#' ==> !is_local_target(target),
{
}

/// Every reference found in a message names a local file; in particular
/// none is a link to a fragment (a target whose trimmed text starts with
/// `#`), so `[usage](#usage)` gives no reference.
pub proof fn law_found_references_are_files(source: Seq<char>)
    ensures
        forall|k: int|
            0 <= k < references_of(source).len() ==> is_local_target(
                (#[trigger] references_of(source)[k]).2,
            ) && !(trim(references_of(source)[k].2).len() > 0 && trim(references_of(source)[k].2)[0]
                == '#'),
{
    lemma_scan_local(utf8(source), 0);
    assert forall|k: int| 0 <= k < references_of(source).len() implies !(trim(
        (#[trigger] references_of(source)[k]).2,
    ).len() > 0 && trim(references_of(source)[k].2)[0] == '#') by {
        law_fragment_links_are_not_files(references_of(source)[k].2);
    }
}

} // verus!
