//! The review's diff lines: which show when files collapse, how a list
//! update is spliced in, and the key each code row is selected by.
use std::collections::HashSet;
use core::ops::Range;
use vstd::prelude::*;
use crate::text::push_char;
use crate::links::digits_value;

verus! {

/// What a diff line is.
#[derive(Clone, Copy, Debug, PartialEq, Eq, Structural)]
pub enum LineKind {
    /// The line naming a file, which stays when the file collapses.
    FileHeader,
    /// A hunk's `@@` line.
    HunkHeader,
    Context,
    Addition,
    Deletion,
    /// Hidden unchanged lines that can be expanded.
    Gap,
}

/// One line of a review's diff.
#[derive(Debug, PartialEq, Eq)]
pub struct DiffLine {
    pub file_index: usize,
    pub old_line: Option<usize>,
    pub new_line: Option<usize>,
    pub kind: LineKind,
    pub content: String,
}

// ---------------------------------------------------------------------------
// Decimal numbers
// ---------------------------------------------------------------------------
/// The digit character for `d` (0 to 9).
pub open spec fn digit_char(d: int) -> char {
    if d == 0 {
        '0'
    } else if d == 1 {
        '1'
    } else if d == 2 {
        '2'
    } else if d == 3 {
        '3'
    } else if d == 4 {
        '4'
    } else if d == 5 {
        '5'
    } else if d == 6 {
        '6'
    } else if d == 7 {
        '7'
    } else if d == 8 {
        '8'
    } else {
        '9'
    }
}

fn digit(d: usize) -> (c: char)
    requires
        d < 10,
    ensures
        c == digit_char(d as int),
{
    if d == 0 {
        '0'
    } else if d == 1 {
        '1'
    } else if d == 2 {
        '2'
    } else if d == 3 {
        '3'
    } else if d == 4 {
        '4'
    } else if d == 5 {
        '5'
    } else if d == 6 {
        '6'
    } else if d == 7 {
        '7'
    } else if d == 8 {
        '8'
    } else {
        '9'
    }
}

/// `n` written in decimal.
pub open spec fn decimal(n: nat) -> Seq<char>
    decreases n,
{
    if n < 10 {
        seq![digit_char(n as int)]
    } else {
        decimal(n / 10).push(digit_char((n % 10) as int))
    }
}

/// A number's decimal digits are digits, at least one, and read back as it.
pub proof fn lemma_decimal(n: nat)
    ensures
        decimal(n).len() > 0,
        forall|k: int| 0 <= k < decimal(n).len() ==> '0' <= #[trigger] decimal(n)[k] <= '9',
        digits_value(decimal(n)) == n,
    decreases n,
{
    let last = digit_char((n % 10) as int);
    assert(last as int - 48 == n % 10 && '0' <= last <= '9');
    if n >= 10 {
        lemma_decimal(n / 10);
        let d = decimal(n / 10);
        assert(decimal(n).drop_last() =~= d);
        assert(decimal(n).last() == last);
        assert(digits_value(decimal(n)) == digits_value(d) * 10 + ((last as int - 48) as nat));
        assert(n == (n / 10) * 10 + n % 10) by {
            vstd::arithmetic::div_mod::lemma_fundamental_div_mod(n as int, 10);
        }
    } else {
        assert(decimal(n).drop_last() =~= Seq::<char>::empty());
        assert(digits_value(decimal(n)) == digits_value(Seq::<char>::empty()) * 10 + ((last as int - 48) as nat));
    }
}

/// Different numbers are written differently.
pub proof fn lemma_decimal_injective(a: nat, b: nat)
    requires
        decimal(a) == decimal(b),
    ensures
        a == b,
{
    lemma_decimal(a);
    lemma_decimal(b);
}

/// Appends `n` in decimal.
pub fn push_decimal(out: &mut String, n: usize)
    ensures
        final(out)@ == old(out)@ + decimal(n as nat),
    decreases n,
{
    if n >= 10 {
        push_decimal(out, n / 10);
    }
    let c = digit(n % 10);
    push_char(out, c);
    if n >= 10 {
        assert(old(out)@ + decimal(n as nat) =~= old(out)@ + decimal((n / 10) as nat) + seq![c]);
    } else {
        assert(old(out)@ + decimal(n as nat) =~= old(out)@ + seq![c]);
    }
}

// ---------------------------------------------------------------------------
// Selection keys
// ---------------------------------------------------------------------------
/// The word a line kind is keyed by.
pub open spec fn kind_word(kind: LineKind) -> Seq<char> {
    match kind {
        LineKind::Context => "context"@,
        LineKind::Addition => "addition"@,
        LineKind::Deletion => "deletion"@,
        _ => "other"@,
    }
}

/// The selection key of a code row: by its line numbers when it has any
/// (which survive revealing a gap), otherwise by its row index.
pub open spec fn selection_key_of(prefix: Seq<char>, line: DiffLine, index: nat) -> Seq<char> {
    let head = prefix + "-line-"@ + decimal(line.file_index as nat) + "-"@ + kind_word(line.kind);
    match (line.old_line, line.new_line) {
        (None, None) => head + "-i"@ + decimal(index),
        (old, new) => head + "-"@ + decimal(
            match old {
                Some(o) => o as nat,
                None => 0,
            },
        ) + "-"@ + decimal(
            match new {
                Some(n) => n as nat,
                None => 0,
            },
        ),
    }
}

/// The selection key of one diff code row.
pub fn diff_row_selection_key(key_prefix: &str, line: &DiffLine, index: usize) -> (r: String)
    ensures
        r@ == selection_key_of(key_prefix@, *line, index as nat),
{
    let mut key = key_prefix.to_owned();
    key.append("-line-");
    push_decimal(&mut key, line.file_index);
    key.append("-");
    let kind = match line.kind {
        LineKind::Context => "context",
        LineKind::Addition => "addition",
        LineKind::Deletion => "deletion",
        _ => "other",
    };
    key.append(kind);
    let ghost head = key@;
    match (line.old_line, line.new_line) {
        (None, None) => {
            key.append("-i");
            push_decimal(&mut key, index);
        },
        (old, new) => {
            key.append("-");
            push_decimal(
                &mut key,
                match old {
                    Some(o) => o,
                    None => 0,
                },
            );
            key.append("-");
            push_decimal(
                &mut key,
                match new {
                    Some(n) => n,
                    None => 0,
                },
            );
        },
    }
    key
}

/// Rows without line numbers are keyed apart by their index: two such rows
/// at different indices never share a key, whatever their files and kinds.
pub proof fn law_unnumbered_keys_differ(
    prefix: Seq<char>,
    a: DiffLine,
    i: nat,
    b: DiffLine,
    j: nat,
)
    requires
        a.old_line is None && a.new_line is None,
        b.old_line is None && b.new_line is None,
        i != j,
    ensures
        selection_key_of(prefix, a, i) != selection_key_of(prefix, b, j),
{
    reveal_strlit("-i");
    let ka = selection_key_of(prefix, a, i);
    let kb = selection_key_of(prefix, b, j);
    let ha = prefix + "-line-"@ + decimal(a.file_index as nat) + "-"@ + kind_word(a.kind) + "-i"@;
    let hb = prefix + "-line-"@ + decimal(b.file_index as nat) + "-"@ + kind_word(b.kind) + "-i"@;
    let da = decimal(i);
    let db = decimal(j);
    assert(ka =~= ha + da);
    assert(kb =~= hb + db);
    lemma_decimal(i);
    lemma_decimal(j);
    if ka == kb {
        assert(ha.last() == 'i' && hb.last() == 'i');
        if da.len() == db.len() {
            assert(da =~= ka.skip(ha.len() as int));
            assert(db =~= kb.skip(hb.len() as int));
            lemma_decimal_injective(i, j);
        } else if da.len() < db.len() {
            let p = ka.len() - da.len() - 1;
            assert(ka[p] == ha.last());
            assert(kb[p] == db[db.len() - da.len() - 1]);
        } else {
            let p = kb.len() - db.len() - 1;
            assert(kb[p] == hb.last());
            assert(ka[p] == da[da.len() - db.len() - 1]);
        }
    }
}

/// A row without line numbers never shares its key with a row that has
/// one: the first ends in `-i` and its index, the second in `-` and a line
/// number.
pub proof fn law_unnumbered_never_numbered(prefix: Seq<char>, a: DiffLine, i: nat, b: DiffLine, j: nat)
    requires
        a.old_line is None && a.new_line is None,
        b.old_line is Some || b.new_line is Some,
    ensures
        selection_key_of(prefix, a, i) != selection_key_of(prefix, b, j),
{
    reveal_strlit("-i");
    reveal_strlit("-");
    let ka = selection_key_of(prefix, a, i);
    let kb = selection_key_of(prefix, b, j);
    let ha = prefix + "-line-"@ + decimal(a.file_index as nat) + "-"@ + kind_word(a.kind) + "-i"@;
    let da = decimal(i);
    let n: nat = match b.new_line {
        Some(x) => x as nat,
        None => 0,
    };
    let o: nat = match b.old_line {
        Some(x) => x as nat,
        None => 0,
    };
    let hb = prefix + "-line-"@ + decimal(b.file_index as nat) + "-"@ + kind_word(b.kind) + "-"@ + decimal(o) + "-"@;
    let dn = decimal(n);
    assert(ka =~= ha + da);
    assert(kb =~= hb + dn);
    assert(ha.last() == 'i');
    assert(hb.last() == '-');
    lemma_decimal(i);
    lemma_decimal(n);
    if ka == kb {
        if da.len() == dn.len() {
            let p = ka.len() - da.len() - 1;
            assert(ka[p] == ha.last());
            assert(kb[p] == hb.last());
        } else if da.len() < dn.len() {
            let p = ka.len() - da.len() - 1;
            assert(ka[p] == ha.last());
            assert(kb[p] == dn[dn.len() - da.len() - 1]);
        } else {
            let p = kb.len() - dn.len() - 1;
            assert(kb[p] == hb.last());
            assert(ka[p] == da[da.len() - dn.len() - 1]);
        }
    }
}

// ---------------------------------------------------------------------------
// Collapsing files
// ---------------------------------------------------------------------------
/// Whether line `l` shows: its file is expanded, or it is the file's header.
pub open spec fn line_shows(l: DiffLine, collapsed: Set<usize>) -> bool {
    !collapsed.contains(l.file_index) || l.kind == LineKind::FileHeader
}

/// The indices of the lines that show, in order.
pub open spec fn visible_lines_of(lines: Seq<DiffLine>, collapsed: Set<usize>) -> Seq<usize>
    decreases lines.len(),
{
    if lines.len() == 0 {
        seq![]
    } else {
        let before = visible_lines_of(lines.drop_last(), collapsed);
        if line_shows(lines.last(), collapsed) {
            before.push((lines.len() - 1) as usize)
        } else {
            before
        }
    }
}

/// The lines that show when the files in `collapsed` are collapsed: every
/// line of an expanded file, and only the header of a collapsed one.
pub fn review_diff_visible_line_indices(lines: &[DiffLine], collapsed: &HashSet<usize>) -> (r: Vec<
    usize,
>)
    ensures
        r@ == visible_lines_of(lines@, collapsed@),
{
    broadcast use vstd::std_specs::hash::group_hash_axioms;
    let mut out: Vec<usize> = Vec::new();
    let mut i: usize = 0;
    assert(lines@.take(0) =~= Seq::<DiffLine>::empty());
    while i < lines.len()
        invariant
            i <= lines@.len(),
            out@ == visible_lines_of(lines@.take(i as int), collapsed@),
        decreases lines@.len() - i,
    {
        assert(lines@.take(i + 1).drop_last() =~= lines@.take(i as int));
        let line = &lines[i];
        if !collapsed.contains(&line.file_index) || line.kind == LineKind::FileHeader {
            out.push(i);
        }
        i = i + 1;
    }
    assert(lines@.take(lines@.len() as int) =~= lines@);
    out
}

/// The files with something to collapse, each once, in the order their
/// first line below the header comes.
pub open spec fn collapsible_of(lines: Seq<DiffLine>) -> Seq<usize>
    decreases lines.len(),
{
    if lines.len() == 0 {
        seq![]
    } else {
        let before = collapsible_of(lines.drop_last());
        let l = lines.last();
        if l.kind != LineKind::FileHeader && !before.contains(l.file_index) {
            before.push(l.file_index)
        } else {
            before
        }
    }
}

/// The files with lines below their header.
pub fn review_diff_collapsible_files(lines: &[DiffLine]) -> (r: Vec<usize>)
    ensures
        r@ == collapsible_of(lines@),
{
    let mut out: Vec<usize> = Vec::new();
    let mut i: usize = 0;
    assert(lines@.take(0) =~= Seq::<DiffLine>::empty());
    while i < lines.len()
        invariant
            i <= lines@.len(),
            out@ == collapsible_of(lines@.take(i as int)),
        decreases lines@.len() - i,
    {
        assert(lines@.take(i + 1).drop_last() =~= lines@.take(i as int));
        let line = &lines[i];
        if line.kind != LineKind::FileHeader {
            let mut seen = false;
            let mut k: usize = 0;
            while k < out.len()
                invariant
                    k <= out@.len(),
                    seen == (exists|m: int| 0 <= m < k && out@[m] == line.file_index),
                decreases out@.len() - k,
            {
                if out[k] == line.file_index {
                    seen = true;
                }
                k = k + 1;
            }
            if !seen {
                out.push(line.file_index);
            }
        }
        i = i + 1;
    }
    assert(lines@.take(lines@.len() as int) =~= lines@);
    out
}

// ---------------------------------------------------------------------------
// Splicing a list update
// ---------------------------------------------------------------------------
/// How a list showing `old` becomes one showing `new` by replacing a single
/// run: `old[start..end]` gives way to `new[start..start + count]`, with the
/// run as short as the common prefix and suffix allow. `None` when nothing
/// changed.
pub fn review_diff_list_splice(old: &[usize], new: &[usize]) -> (r: Option<(Range<usize>, usize)>)
    ensures
        r is None <==> old@ == new@,
        r matches Some((range, count)) ==> {
            let (start, end) = (range.start as int, range.end as int);
            &&& start <= end <= old@.len()
            &&& start + count <= new@.len()
            &&& old@.len() - end == new@.len() - start - count
            &&& old@.take(start) == new@.take(start)
            &&& old@.skip(end) == new@.skip(start + count)
            &&& (start == end || count == 0 || start == old@.len() || start == new@.len() || old@[start] != new@[start])
            &&& (start == end || count == 0 || old@[end - 1] != new@[start + count - 1])
        },
{
    let mut prefix: usize = 0;
    while prefix < old.len() && prefix < new.len() && old[prefix] == new[prefix]
        invariant
            prefix <= old@.len(),
            prefix <= new@.len(),
            old@.take(prefix as int) == new@.take(prefix as int),
        decreases old@.len() - prefix,
    {
        assert(old@.take(prefix + 1) =~= old@.take(prefix as int).push(old@[prefix as int]));
        assert(new@.take(prefix + 1) =~= new@.take(prefix as int).push(new@[prefix as int]));
        prefix = prefix + 1;
    }
    if prefix == old.len() && prefix == new.len() {
        assert(old@ =~= old@.take(prefix as int));
        assert(new@ =~= new@.take(prefix as int));
        return None;
    }
    let max_suffix = if old.len() < new.len() {
        old.len() - prefix
    } else {
        new.len() - prefix
    };
    let mut suffix: usize = 0;
    while suffix < max_suffix && old[old.len() - 1 - suffix] == new[new.len() - 1 - suffix]
        invariant
            prefix + max_suffix <= old@.len(),
            prefix + max_suffix <= new@.len(),
            suffix <= max_suffix,
            old@.skip(old@.len() - suffix) == new@.skip(new@.len() - suffix),
        decreases max_suffix - suffix,
    {
        assert(old@.skip(old@.len() - suffix - 1) =~= seq![old@[old@.len() - suffix - 1]] + old@.skip(
            old@.len() - suffix,
        ));
        assert(new@.skip(new@.len() - suffix - 1) =~= seq![new@[new@.len() - suffix - 1]] + new@.skip(
            new@.len() - suffix,
        ));
        suffix = suffix + 1;
    }
    let end = old.len() - suffix;
    let count = new.len() - prefix - suffix;
    proof {
        if old@ == new@ {
            assert(prefix == old@.len() || old@[prefix as int] == new@[prefix as int]);
        }
    }
    Some((prefix..end, count))
}

/// Replacing the run a splice names, in `old`, gives `new`.
pub proof fn law_splice_rebuilds_new(old: Seq<usize>, new: Seq<usize>, start: int, end: int, count: int)
    requires
        0 <= start <= end <= old.len(),
        0 <= count,
        start + count <= new.len(),
        old.len() - end == new.len() - start - count,
        old.take(start) == new.take(start),
        old.skip(end) == new.skip(start + count),
    ensures
        old.take(start) + new.subrange(start, start + count) + old.skip(end) == new,
{
    assert(new.take(start) + new.subrange(start, start + count) + new.skip(start + count) =~= new);
}

} // verus!
