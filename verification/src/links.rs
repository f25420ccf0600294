//! Routing of links clicked in a transcript: a file inside the active
//! workspace opens in the file viewer, another local path goes to the file
//! manager, and anything else is left to the browser.
//!
//! Paths are daemon-host paths and are handled lexically, as `/`-separated
//! Unix paths: nothing here looks at a filesystem.
use vstd::prelude::*;
use vstd::utf8::*;
use crate::text::{
    utf8, chars_of, all_digits, trim, trim_bounds, string_from_char_range, push_char, bytes_contain,
    contains_bytes, lower_byte, is_ascii_digit,
};
use crate::inline_file::{last_pos, first_pos, is_number, decode_percent, percent_decode};

verus! {

broadcast use vstd::utf8::encode_utf8_valid_utf8, vstd::utf8::encode_utf8_decode_utf8;

// ---------------------------------------------------------------------------
// Line locations
// ---------------------------------------------------------------------------
/// The number written by a run of ASCII digits.
pub open spec fn digits_value(cs: Seq<char>) -> nat
    decreases cs.len(),
{
    if cs.len() == 0 {
        0
    } else {
        digits_value(cs.drop_last()) * 10 + ((cs.last() as int - 48) as nat)
    }
}

/// A non-empty run of digits naming a number from 1 to `usize::MAX`.
pub open spec fn is_positive_number(cs: Seq<char>) -> bool {
    is_number(cs) && 0 < digits_value(cs) <= usize::MAX
}

/// `L12` or `L12C4`: a line, optionally with a column.
pub open spec fn is_line_fragment(cs: Seq<char>) -> bool {
    cs.len() > 0 && cs[0] == 'L' && ({
        let location = cs.skip(1);
        match first_pos(location, 'C') {
            Some(k) => is_positive_number(location.take(k)) && is_positive_number(
                location.skip(k + 1),
            ),
            None => is_positive_number(location),
        }
    })
}

/// A target without its `#L12C4`, `:12` or `:12:4` location suffix.
pub open spec fn strip_file_location_of(t: Seq<char>) -> Seq<char> {
    let h = last_pos(t, '#');
    if h is Some && is_line_fragment(t.skip(h->0 + 1)) {
        t.take(h->0)
    } else {
        match last_pos(t, ':') {
            None => t,
            Some(k) => if !is_positive_number(t.skip(k + 1)) {
                t
            } else {
                let before = t.take(k);
                match last_pos(before, ':') {
                    Some(j) => if is_positive_number(before.skip(j + 1)) {
                        before.take(j)
                    } else {
                        before
                    },
                    None => before,
                }
            },
        }
    }
}

/// A run of digits is worth at least any of its prefixes.
pub proof fn lemma_digits_value_grows(cs: Seq<char>, i: int)
    requires
        0 <= i <= cs.len(),
        forall|k: int| 0 <= k < cs.len() ==> is_ascii_digit(#[trigger] cs[k]),
    ensures
        digits_value(cs.take(i)) <= digits_value(cs),
    decreases cs.len() - i,
{
    if i < cs.len() {
        lemma_digits_value_grows(cs, i + 1);
        assert(cs.take(i + 1).drop_last() =~= cs.take(i));
    } else {
        assert(cs.take(i) =~= cs);
    }
}

/// `r` is where the last `c` of `cs` is.
pub proof fn lemma_last_pos_here(cs: Seq<char>, c: char, r: Option<int>)
    requires
        r matches Some(k) ==> 0 <= k < cs.len() && cs[k] == c && forall|j: int|
            k < j < cs.len() ==> cs[j] != c,
        r is None ==> forall|j: int| 0 <= j < cs.len() ==> cs[j] != c,
    ensures
        last_pos(cs, c) == r,
    decreases cs.len(),
{
    if cs.len() > 0 && cs.last() != c {
        lemma_last_pos_here(cs.drop_last(), c, r);
    }
}

proof fn lemma_first_pos_here(cs: Seq<char>, c: char, r: Option<int>)
    requires
        r matches Some(k) ==> 0 <= k < cs.len() && cs[k] == c && forall|j: int|
            0 <= j < k ==> cs[j] != c,
        r is None ==> forall|j: int| 0 <= j < cs.len() ==> cs[j] != c,
    ensures
        first_pos(cs, c) == r,
    decreases cs.len(),
{
    if cs.len() > 0 && cs[0] != c {
        let r2 = match r {
            Some(k) => Some(k - 1),
            None => None,
        };
        lemma_first_pos_here(cs.drop_first(), c, r2);
    }
}

/// Whether `cs[from..to]` is a positive number that fits in `usize`.
pub fn positive_number(cs: &[char], from: usize, to: usize) -> (b: bool)
    requires
        from <= to <= cs@.len(),
    ensures
        b == is_positive_number(cs@.subrange(from as int, to as int)),
{
    let ghost s = cs@.subrange(from as int, to as int);
    if from == to {
        return false;
    }
    if !all_digits(cs, from, to) {
        proof {
            if is_number(s) {
                assert forall|k: int| from <= k < to implies is_ascii_digit(#[trigger] cs@[k]) by {
                    assert(s[k - from] == cs@[k]);
                }
            }
        }
        return false;
    }
    proof {
        assert forall|k: int| 0 <= k < s.len() implies is_ascii_digit(#[trigger] s[k]) by {
            assert(s[k] == cs@[from + k]);
        }
    }
    let mut value: usize = 0;
    let mut i = from;
    while i < to
        invariant
            from <= i <= to <= cs@.len(),
            s == cs@.subrange(from as int, to as int),
            forall|k: int| 0 <= k < s.len() ==> is_ascii_digit(#[trigger] s[k]),
            value == digits_value(s.take(i - from)),
        decreases to - i,
    {
        assert(s[i - from] == cs@[i as int]);
        assert(is_ascii_digit(cs@[i as int]));
        let digit = (cs[i] as u32 - 48) as usize;
        assert(s.take(i + 1 - from).drop_last() =~= s.take(i - from));
        assert(s.take(i + 1 - from).last() == cs@[i as int]);
        let next = match value.checked_mul(10) {
            Some(v) => v.checked_add(digit),
            None => None,
        };
        match next {
            Some(v) => {
                value = v;
            },
            None => {
                proof {
                    lemma_digits_value_grows(s, i + 1 - from);
                }
                return false;
            },
        }
        i = i + 1;
    }
    assert(s.take(to - from) =~= s);
    value > 0
}

/// Whether `cs[from..to]` is a line fragment such as `L12C4`.
pub fn line_fragment(cs: &[char], from: usize, to: usize) -> (b: bool)
    requires
        from <= to <= cs@.len(),
    ensures
        b == is_line_fragment(cs@.subrange(from as int, to as int)),
{
    let ghost s = cs@.subrange(from as int, to as int);
    if from == to || cs[from] != 'L' {
        return false;
    }
    let ghost location = s.skip(1);
    assert(location =~= cs@.subrange(from + 1, to as int));
    let mut k = from + 1;
    while k < to && cs[k] != 'C'
        invariant
            from + 1 <= k <= to <= cs@.len(),
            forall|j: int| from + 1 <= j < k ==> cs@[j] != 'C',
        decreases to - k,
    {
        k = k + 1;
    }
    if k < to {
        proof {
            lemma_first_pos_here(location, 'C', Some(k - from - 1));
            assert(location.take(k - from - 1) =~= cs@.subrange(from + 1, k as int));
            assert(location.skip(k - from) =~= cs@.subrange(k + 1, to as int));
        }
        positive_number(cs, from + 1, k) && positive_number(cs, k + 1, to)
    } else {
        proof {
            lemma_first_pos_here(location, 'C', None);
        }
        positive_number(cs, from + 1, to)
    }
}

fn rfind(cs: &[char], from: usize, to: usize, c: char) -> (r: Option<usize>)
    requires
        from <= to <= cs@.len(),
    ensures
        last_pos(cs@.subrange(from as int, to as int), c) == match r {
            Some(k) => Some(k - from),
            None => None::<int>,
        },
        r matches Some(k) ==> from <= k < to,
{
    let mut j = to;
    while j > from
        invariant
            from <= j <= to <= cs@.len(),
            forall|k: int| j <= k < to ==> cs@[k] != c,
        decreases j,
    {
        if cs[j - 1] == c {
            proof {
                lemma_last_pos_here(cs@.subrange(from as int, to as int), c, Some(j - 1 - from));
            }
            return Some(j - 1);
        }
        j = j - 1;
    }
    proof {
        lemma_last_pos_here(cs@.subrange(from as int, to as int), c, None);
    }
    None
}

/// End of `cs[from..to]` once its location suffix is removed.
fn strip_file_location_end(cs: &[char], from: usize, to: usize) -> (e: usize)
    requires
        from <= to <= cs@.len(),
    ensures
        from <= e <= to,
        cs@.subrange(from as int, e as int) == strip_file_location_of(
            cs@.subrange(from as int, to as int),
        ),
{
    let ghost t = cs@.subrange(from as int, to as int);
    let hash = rfind(cs, from, to, '#');
    if let Some(h) = hash {
        assert(t.skip(h - from + 1) =~= cs@.subrange(h + 1, to as int));
        if line_fragment(cs, h + 1, to) {
            assert(t.take(h - from) =~= cs@.subrange(from as int, h as int));
            return h;
        }
    }
    let colon = rfind(cs, from, to, ':');
    match colon {
        None => to,
        Some(k) => {
            assert(t.skip(k - from + 1) =~= cs@.subrange(k + 1, to as int));
            if !positive_number(cs, k + 1, to) {
                return to;
            }
            let ghost before = t.take(k - from);
            assert(before =~= cs@.subrange(from as int, k as int));
            match rfind(cs, from, k, ':') {
                Some(j) => {
                    assert(before.skip(j - from + 1) =~= cs@.subrange(j + 1, k as int));
                    if positive_number(cs, j + 1, k) {
                        assert(before.take(j - from) =~= cs@.subrange(from as int, j as int));
                        j
                    } else {
                        k
                    }
                },
                None => k,
            }
        },
    }
}

/// A link target without its `#L12C4`, `:12` or `:12:4` location suffix.
pub fn strip_file_location(target: &str) -> (r: String)
    ensures
        r@ == strip_file_location_of(target@),
{
    let cs = chars_of(target);
    let n = cs.len();
    let e = strip_file_location_end(&cs, 0, n);
    assert(cs@.subrange(0, n as int) =~= cs@);
    string_from_char_range(&cs, 0, e)
}

/// `%XY` escapes in a file path decoded; the path unchanged when the result
/// is not UTF-8.
pub fn percent_decode_file_path(path: &str) -> (r: String)
    ensures
        r@ == decode_percent(path@),
{
    percent_decode(path)
}


// ---------------------------------------------------------------------------
// Paths
// ---------------------------------------------------------------------------
/// The `/`-separated segments of a path, empty ones included.
pub open spec fn path_segments(cs: Seq<char>) -> Seq<Seq<char>>
    decreases cs.len(),
{
    if cs.len() == 0 {
        seq![seq![]]
    } else {
        let sp = path_segments(cs.drop_last());
        if cs.last() == '/' {
            sp.push(seq![])
        } else {
            sp.update(sp.len() - 1, sp.last().push(cs.last()))
        }
    }
}

/// One segment applied to a normalized path: empty and `.` segments are
/// skipped, `..` removes the last name (if any), any other name is added.
pub open spec fn step_segment(stack: Seq<Seq<char>>, seg: Seq<char>) -> Seq<Seq<char>> {
    if seg.len() == 0 || seg == seq!['.'] {
        stack
    } else if seg == seq!['.', '.'] {
        if stack.len() > 0 {
            stack.drop_last()
        } else {
            stack
        }
    } else {
        stack.push(seg)
    }
}

/// The names left after applying every segment in turn.
pub open spec fn normal_segments(segs: Seq<Seq<char>>) -> Seq<Seq<char>>
    decreases segs.len(),
{
    if segs.len() == 0 {
        seq![]
    } else {
        step_segment(normal_segments(segs.drop_last()), segs.last())
    }
}

/// Names joined by `/`.
pub open spec fn join_segments(segs: Seq<Seq<char>>) -> Seq<char>
    decreases segs.len(),
{
    if segs.len() == 0 {
        seq![]
    } else if segs.len() == 1 {
        segs[0]
    } else {
        join_segments(segs.drop_last()) + seq!['/'] + segs.last()
    }
}

/// A Unix path is absolute when it starts at the root.
pub open spec fn is_absolute_path(cs: Seq<char>) -> bool {
    cs.len() > 0 && cs[0] == '/'
}

/// The names of a path after lexical normalization.
pub open spec fn path_names(cs: Seq<char>) -> Seq<Seq<char>> {
    normal_segments(path_segments(cs))
}

/// A path with `.` segments, repeated separators and `..` (against the name
/// before it) removed, without consulting the filesystem, as
/// `Path::components` reads it on Unix (`/` the only separator).
pub open spec fn normalized_path_of(cs: Seq<char>) -> Seq<char> {
    if is_absolute_path(cs) {
        seq!['/'] + join_segments(path_names(cs))
    } else {
        join_segments(path_names(cs))
    }
}

/// `target` relative to `workspace` when it lies strictly inside it, both
/// normalized first.
pub open spec fn relative_path_of(workspace: Seq<char>, target: Seq<char>) -> Option<Seq<char>> {
    let w = path_names(workspace);
    let t = path_names(target);
    if is_absolute_path(workspace) == is_absolute_path(target) && w.len() < t.len() && t.take(
        w.len() as int,
    ) == w {
        Some(join_segments(t.skip(w.len() as int)))
    } else {
        None
    }
}

/// A path has at least one segment.
pub proof fn lemma_path_segments_nonempty(cs: Seq<char>)
    ensures
        path_segments(cs).len() >= 1,
    decreases cs.len(),
{
    if cs.len() > 0 {
        lemma_path_segments_nonempty(cs.drop_last());
    }
}

fn chars_eq(a: &[char], b: &[char]) -> (r: bool)
    ensures
        r == (a@ == b@),
{
    if a.len() != b.len() {
        return false;
    }
    let mut i: usize = 0;
    while i < a.len()
        invariant
            a@.len() == b@.len(),
            i <= a@.len(),
            forall|k: int| 0 <= k < i ==> a@[k] == b@[k],
        decreases a@.len() - i,
    {
        if a[i] != b[i] {
            return false;
        }
        i = i + 1;
    }
    assert(a@ =~= b@);
    true
}

proof fn lemma_char_vec_deep(v: Vec<char>)
    ensures
        v.deep_view() == v@,
{
    assert(v.deep_view() =~= v@);
}

fn copy_chars(v: &Vec<char>) -> (r: Vec<char>)
    ensures
        r@ == v@,
{
    let mut r: Vec<char> = Vec::new();
    let mut i: usize = 0;
    while i < v.len()
        invariant
            i <= v@.len(),
            r@ == v@.take(i as int),
        decreases v@.len() - i,
    {
        r.push(v[i]);
        assert(v@.take(i + 1) =~= v@.take(i as int).push(v@[i as int]));
        i = i + 1;
    }
    assert(v@.take(v@.len() as int) =~= v@);
    r
}

fn apply_segment(stack: &mut Vec<Vec<char>>, seg: &Vec<char>)
    ensures
        final(stack).deep_view() == step_segment(old(stack).deep_view(), seg@),
{
    let dot: Vec<char> = vec!['.'];
    let dots: Vec<char> = vec!['.', '.'];
    assert(dot@ =~= seq!['.']);
    assert(dots@ =~= seq!['.', '.']);
    if seg.len() == 0 || chars_eq(seg, &dot) {
    } else if chars_eq(seg, &dots) {
        if stack.len() > 0 {
            let ghost before = stack.deep_view();
            stack.pop();
            assert(stack.deep_view() =~= before.drop_last());
        }
    } else {
        let ghost before = stack.deep_view();
        let copy = copy_chars(seg);
        proof {
            lemma_char_vec_deep(copy);
        }
        stack.push(copy);
        assert(stack.deep_view() =~= before.push(seg@));
    }
}

/// The normalized names of a path.
fn path_names_exec(cs: &[char]) -> (r: Vec<Vec<char>>)
    ensures
        r.deep_view() == path_names(cs@),
{
    let mut stack: Vec<Vec<char>> = Vec::new();
    let mut cur: Vec<char> = Vec::new();
    let ghost mut done: Seq<Seq<char>> = seq![];
    let mut i: usize = 0;
    assert(cs@.take(0) =~= Seq::<char>::empty());
    assert(stack.deep_view() =~= Seq::<Seq<char>>::empty());
    assert(done.push(cur@) =~= seq![seq![]]);
    while i < cs.len()
        invariant
            i <= cs@.len(),
            path_segments(cs@.take(i as int)) == done.push(cur@),
            stack.deep_view() == normal_segments(done),
        decreases cs@.len() - i,
    {
        let c = cs[i];
        assert(cs@.take(i + 1).drop_last() =~= cs@.take(i as int));
        if c == '/' {
            apply_segment(&mut stack, &cur);
            proof {
                assert(done.push(cur@).drop_last() =~= done);
                done = done.push(cur@);
            }
            cur = Vec::new();
            assert(path_segments(cs@.take(i + 1)) =~= done.push(cur@));
        } else {
            let ghost old_cur = cur@;
            cur.push(c);
            assert(path_segments(cs@.take(i + 1)) =~= done.push(cur@));
        }
        i = i + 1;
    }
    apply_segment(&mut stack, &cur);
    proof {
        assert(cs@.take(cs@.len() as int) =~= cs@);
        assert(done.push(cur@).drop_last() =~= done);
    }
    stack
}

/// Names joined by `/`, appended to `out`.
fn push_joined(out: &mut String, segs: &Vec<Vec<char>>)
    ensures
        final(out)@ == old(out)@ + join_segments(segs.deep_view()),
{
    let mut i: usize = 0;
    let ghost start = out@;
    assert(segs.deep_view().take(0) =~= Seq::<Seq<char>>::empty());
    assert(start + Seq::<char>::empty() =~= start);
    while i < segs.len()
        invariant
            i <= segs@.len(),
            out@ == start + join_segments(segs.deep_view().take(i as int)),
        decreases segs@.len() - i,
    {
        let ghost before = out@;
        if i > 0 {
            push_char(out, '/');
        }
        let seg = &segs[i];
        let mut j: usize = 0;
        let ghost mid = out@;
        while j < seg.len()
            invariant
                j <= seg@.len(),
                out@ == mid + seg@.take(j as int),
            decreases seg@.len() - j,
        {
            push_char(out, seg[j]);
            assert(seg@.take(j + 1) =~= seg@.take(j as int).push(seg@[j as int]));
            j = j + 1;
        }
        proof {
            let v = segs.deep_view();
            assert(seg@.take(seg@.len() as int) =~= seg@);
            assert(v.take(i + 1).drop_last() =~= v.take(i as int));
            assert(v.take(i + 1).last() == seg@);
            if i == 0 {
                assert(v.take(1) =~= seq![seg@]);
                assert(out@ =~= start + join_segments(v.take(1)));
            } else {
                assert(out@ =~= start + join_segments(v.take(i + 1)));
            }
        }
        i = i + 1;
    }
    assert(segs.deep_view().take(segs@.len() as int) =~= segs.deep_view());
}

/// A path normalized lexically (see [`normalized_path_of`]).
pub fn normalized_path(path: &str) -> (r: String)
    ensures
        r@ == normalized_path_of(path@),
{
    let cs = chars_of(path);
    let names = path_names_exec(&cs);
    let mut out = String::new();
    if cs.len() > 0 && cs[0] == '/' {
        push_char(&mut out, '/');
    }
    push_joined(&mut out, &names);
    assert(out@ =~= normalized_path_of(path@));
    out
}

/// `target` relative to `workspace`, when it lies strictly inside it.
pub fn workspace_relative_file_path(workspace: &str, target: &str) -> (r: Option<String>)
    ensures
        r matches Some(p) ==> relative_path_of(workspace@, target@) == Some(p@),
        r is None ==> relative_path_of(workspace@, target@) is None,
{
    let wcs = chars_of(workspace);
    let tcs = chars_of(target);
    let w = path_names_exec(&wcs);
    let t = path_names_exec(&tcs);
    let w_abs = wcs.len() > 0 && wcs[0] == '/';
    let t_abs = tcs.len() > 0 && tcs[0] == '/';
    if w_abs != t_abs || w.len() >= t.len() {
        return None;
    }
    let mut i: usize = 0;
    while i < w.len()
        invariant
            i <= w@.len(),
            w@.len() < t@.len(),
            w.deep_view() == path_names(workspace@),
            t.deep_view() == path_names(target@),
            w_abs == is_absolute_path(workspace@),
            t_abs == is_absolute_path(target@),
            w_abs == t_abs,
            forall|k: int| 0 <= k < i ==> w.deep_view()[k] == t.deep_view()[k],
        decreases w@.len() - i,
    {
        proof {
            lemma_char_vec_deep(w@[i as int]);
            lemma_char_vec_deep(t@[i as int]);
        }
        if !chars_eq(&w[i], &t[i]) {
            proof {
                assert(t.deep_view().take(w@.len() as int)[i as int] != w.deep_view()[i as int]);
                assert(t.deep_view().take(w@.len() as int) != w.deep_view());
                assert(w.deep_view().len() == w@.len());
                assert(path_names(workspace@) == w.deep_view());
                assert(path_names(target@) == t.deep_view());
            }
            return None;
        }
        i = i + 1;
    }
    assert(t.deep_view().take(w@.len() as int) =~= w.deep_view());
    let mut rest: Vec<Vec<char>> = Vec::new();
    let mut k = w.len();
    while k < t.len()
        invariant
            w@.len() <= k <= t@.len(),
            rest.deep_view() =~= t.deep_view().subrange(w@.len() as int, k as int),
        decreases t@.len() - k,
    {
        let copy = copy_chars(&t[k]);
        proof {
            lemma_char_vec_deep(copy);
            lemma_char_vec_deep(t@[k as int]);
        }
        let ghost before = rest.deep_view();
        rest.push(copy);
        assert(rest.deep_view() =~= before.push(copy@));
        k = k + 1;
    }
    assert(rest.deep_view() =~= t.deep_view().skip(w@.len() as int));
    let mut out = String::new();
    push_joined(&mut out, &rest);
    assert(out@ =~= join_segments(rest.deep_view()));
    Some(out)
}


// ---------------------------------------------------------------------------
// Routing
// ---------------------------------------------------------------------------
/// The path `Url::to_file_path` gives for the URL that `url::Url::parse`
/// makes of this text (`None` when either fails). `to_file_path` takes a
/// parsed `Url`, an outside value with no plain form, so its result is
/// named over the text the URL was parsed from.
pub uninterp spec fn file_url_path(url: Seq<char>) -> Option<Seq<char>>;

/// Converts a `file:` URL to a local path with the `url` crate: `Url::parse`,
/// then `Url::to_file_path`. The result is named [`file_url_path`]. Its form
/// depends on the platform (`/…` on Unix, `C:\…` or `\host\…` on
/// Windows), so nothing is stated of it; nor what the URL grammar accepts.
#[verifier::external_body]
fn file_url_to_path(url: &str) -> (r: Option<String>)
    ensures
        r matches Some(p) ==> file_url_path(url@) == Some(p@),
        r is None ==> file_url_path(url@) is None,
{
    let parsed = url::Url::parse(url).ok()?;
    parsed.to_file_path().ok().map(|path| path.to_string_lossy().into_owned())
}

/// Whether `b` starts with the ASCII text `lit`, ignoring ASCII case in `b`.
pub open spec fn starts_with_ignoring_case(b: Seq<u8>, lit: Seq<u8>) -> bool {
    lit.len() <= b.len() && forall|i: int| 0 <= i < lit.len() ==> lower_byte(b[i]) == lit[i]
}

/// `file:`
pub open spec fn file_scheme() -> Seq<u8> {
    seq![102u8, 105, 108, 101, 58]
}

/// `mailto:`
pub open spec fn mailto_scheme() -> Seq<u8> {
    seq![109u8, 97, 105, 108, 116, 111, 58]
}

/// `://`
pub open spec fn scheme_separator() -> Seq<u8> {
    seq![58u8, 47, 47]
}

/// The local path a link names directly: a `file:` URL, or an absolute
/// (percent-decoded) path.
pub open spec fn link_path_of(target: Seq<char>) -> Option<Seq<char>> {
    let t = strip_file_location_of(trim(target));
    if starts_with_ignoring_case(utf8(t), file_scheme()) {
        file_url_path(t)
    } else {
        let p = decode_percent(t);
        if is_absolute_path(p) {
            Some(p)
        } else {
            None
        }
    }
}

/// `rel` appended to the directory `dir`.
pub open spec fn join_path(dir: Seq<char>, rel: Seq<char>) -> Seq<char> {
    if dir.len() == 0 {
        rel
    } else {
        dir + seq!['/'] + rel
    }
}

/// Where a clicked link goes.
pub enum LinkRoute {
    ProjectFile(Seq<char>),
    Finder(Seq<char>),
    External,
}

/// Where a clicked transcript link goes, given the active workspace.
#[derive(Clone, Debug, Eq, PartialEq)]
pub enum TranscriptLinkRoute {
    /// A file of the workspace, by its workspace-relative path.
    ProjectFile(String),
    /// A local path outside the workspace, for the file manager.
    Finder(String),
    /// Anything else: left to the browser.
    External,
}

impl View for TranscriptLinkRoute {
    type V = LinkRoute;

    open spec fn view(&self) -> LinkRoute {
        match self {
            TranscriptLinkRoute::ProjectFile(p) => LinkRoute::ProjectFile(p@),
            TranscriptLinkRoute::Finder(p) => LinkRoute::Finder(p@),
            TranscriptLinkRoute::External => LinkRoute::External,
        }
    }
}

/// The path a link names, when it names one: directly (see [`link_path_of`]),
/// or as a relative path resolved against the workspace, provided it is not
/// empty, has no `://` and is not a `mailto:` link.
pub open spec fn link_target_path(t: Seq<char>, workspace: Option<Seq<char>>) -> Option<Seq<char>> {
    let b = utf8(t);
    if link_path_of(t) is Some {
        link_path_of(t)
    } else if workspace is Some {
        let d = decode_percent(t);
        if !is_absolute_path(d) && d.len() > 0 && !contains_bytes(b, scheme_separator())
            && !starts_with_ignoring_case(b, mailto_scheme()) {
            Some(join_path(workspace->0, d))
        } else {
            None
        }
    } else {
        None
    }
}

/// Where a link goes: inside the workspace, to the file viewer; a relative
/// link that escapes the workspace, nowhere local; another local path, to
/// the file manager; anything that names no path, outside.
pub open spec fn route_of(target: Seq<char>, workspace: Option<Seq<char>>) -> LinkRoute {
    let t = strip_file_location_of(trim(target));
    let b = utf8(t);
    match link_target_path(t, workspace) {
        None => LinkRoute::External,
        Some(raw) => {
            let p = normalized_path_of(raw);
            if workspace is Some && relative_path_of(workspace->0, p) is Some {
                LinkRoute::ProjectFile(relative_path_of(workspace->0, p)->0)
            } else if workspace is Some && !is_absolute_path(t) && !(file_scheme().len() <= b.len()
                && b.take(5) == file_scheme()) && !contains_bytes(b, scheme_separator()) {
                LinkRoute::External
            } else {
                LinkRoute::Finder(p)
            }
        },
    }
}

fn starts_with_ignoring_case_exec(b: &[u8], lit: &[u8]) -> (r: bool)
    ensures
        r == starts_with_ignoring_case(b@, lit@),
{
    if lit.len() > b.len() {
        return false;
    }
    let mut i: usize = 0;
    while i < lit.len()
        invariant
            lit@.len() <= b@.len(),
            i <= lit@.len(),
            forall|k: int| 0 <= k < i ==> lower_byte(b@[k]) == lit@[k],
        decreases lit@.len() - i,
    {
        let c = b[i];
        let lower = if 65 <= c && c <= 90 {
            c + 32
        } else {
            c
        };
        if lower != lit[i] {
            return false;
        }
        i = i + 1;
    }
    true
}

/// Trimmed target without its location suffix.
fn stripped_target(target: &str) -> (r: String)
    ensures
        r@ == strip_file_location_of(trim(target@)),
{
    let cs = chars_of(target);
    let n = cs.len();
    let (i, j) = trim_bounds(&cs, 0, n);
    assert(cs@.subrange(0, n as int) =~= cs@);
    let e = strip_file_location_end(&cs, i, j);
    string_from_char_range(&cs, i, e)
}

/// The local path a link names directly, if any (see [`link_path_of`]).
pub fn markdown_file_link_path(target: &str) -> (r: Option<String>)
    ensures
        r matches Some(p) ==> link_path_of(target@) == Some(p@),
        r is None ==> link_path_of(target@) is None,
{
    let t = stripped_target(target);
    let file: [u8; 5] = [102, 105, 108, 101, 58];
    assert(file@ =~= file_scheme());
    if starts_with_ignoring_case_exec(t.as_str().as_bytes(), &file) {
        return file_url_to_path(t.as_str());
    }
    let path = percent_decode(t.as_str());
    let pcs = chars_of(path.as_str());
    if pcs.len() > 0 && pcs[0] == '/' {
        Some(path)
    } else {
        None
    }
}

/// Where a clicked transcript link goes (see [`route_of`]).
pub fn transcript_link_route(target: &str, workspace: Option<&str>) -> (r: TranscriptLinkRoute)
    ensures
        r@ == route_of(
            target@,
            match workspace {
                Some(w) => Some(w@),
                None => None,
            },
        ),
{
    let ghost ws = match workspace {
        Some(w) => Some(w@),
        None => None::<Seq<char>>,
    };
    let t = stripped_target(target);
    let tb = t.as_str().as_bytes();
    let separator: [u8; 3] = [58, 47, 47];
    let mailto: [u8; 7] = [109, 97, 105, 108, 116, 111, 58];
    let file: [u8; 5] = [102, 105, 108, 101, 58];
    assert(separator@ =~= scheme_separator());
    assert(mailto@ =~= mailto_scheme());
    assert(file@ =~= file_scheme());
    let has_separator = bytes_contain(tb, &separator);
    let path = match markdown_file_link_path(t.as_str()) {
        Some(p) => {
            proof {
                assert(trim(t@) == trim(t@));
            }
            Some(p)
        },
        None => match workspace {
            None => None,
            Some(w) => {
                let decoded = percent_decode(t.as_str());
                let dcs = chars_of(decoded.as_str());
                let absolute = dcs.len() > 0 && dcs[0] == '/';
                if !absolute && dcs.len() > 0 && !has_separator
                    && !starts_with_ignoring_case_exec(tb, &mailto) {
                    let wcs = chars_of(w);
                    let mut joined = String::new();
                    joined.append(w);
                    if wcs.len() > 0 {
                        push_char(&mut joined, '/');
                    }
                    joined.append(decoded.as_str());
                    assert(joined@ =~= join_path(w@, decoded@));
                    Some(joined)
                } else {
                    None
                }
            },
        },
    };
    assert(path matches Some(p) ==> link_target_path(t@, ws) == Some(p@));
    assert(path is None ==> link_target_path(t@, ws) is None);
    let path = match path {
        None => {
            return TranscriptLinkRoute::External;
        },
        Some(p) => normalized_path(p.as_str()),
    };
    if let Some(w) = workspace {
        if let Some(relative) = workspace_relative_file_path(w, path.as_str()) {
            return TranscriptLinkRoute::ProjectFile(relative);
        }
        let tcs = chars_of(t.as_str());
        let rooted = tcs.len() > 0 && tcs[0] == '/';
        let file_link = tb.len() >= 5 && tb[0] == 102 && tb[1] == 105 && tb[2] == 108 && tb[3]
            == 101 && tb[4] == 58;
        assert(file_link == (file_scheme().len() <= utf8(t@).len() && utf8(t@).take(5)
            == file_scheme())) by {
            if file_link {
                assert(utf8(t@).take(5) =~= file_scheme());
            }
        }
        if !rooted && !file_link && !has_separator {
            return TranscriptLinkRoute::External;
        }
    }
    TranscriptLinkRoute::Finder(path)
}


/// The text of a link that is routed: trimmed, with a `#L…` or `:line`
/// location at its end removed.
pub open spec fn link_text(target: Seq<char>) -> Seq<char> {
    strip_file_location_of(trim(target))
}

/// A relative link is percent-decoded before it is resolved: when the link
/// names no local path by itself and its decoded text is a non-empty
/// relative path (no `://`, not `mailto:`), it opens the workspace file at
/// the workspace-relative part of the normalized `w/decoded`, and it never
/// opens a workspace file when that path lies outside `w`.
pub proof fn law_relative_links_resolve_decoded(target: Seq<char>, w: Seq<char>)
    requires
        link_path_of(link_text(target)) is None,
        decode_percent(link_text(target)).len() > 0,
        !is_absolute_path(decode_percent(link_text(target))),
        !contains_bytes(utf8(link_text(target)), scheme_separator()),
        !starts_with_ignoring_case(utf8(link_text(target)), mailto_scheme()),
    ensures
        relative_path_of(w, normalized_path_of(join_path(w, decode_percent(link_text(target)))))
            matches Some(r) ==> route_of(target, Some(w)) == LinkRoute::ProjectFile(r),
        relative_path_of(w, normalized_path_of(join_path(w, decode_percent(link_text(target)))))
            is None ==> !(route_of(target, Some(w)) is ProjectFile),
{
}
} // verus!
