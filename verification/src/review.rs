//! The review panel's file list: which changed files show, in what order,
//! under which directories.
use vstd::prelude::*;
use crate::links::path_segments;
use crate::text::{utf8, push_char, bytes_contain, contains_bytes, lower_bytes, lowercase_bytes, chars_of,
    trim, trim_bounds, string_from_char_range};

verus! {

/// How a file changed.
#[derive(Clone, Copy, Debug, PartialEq, Eq, Structural)]
pub enum FileStatus {
    Added,
    Modified,
    Deleted,
    Renamed,
}

/// One changed file of a review.
#[derive(Debug, PartialEq, Eq)]
pub struct ReviewFile {
    pub path: String,
    pub additions: usize,
    pub deletions: usize,
    pub status: FileStatus,
    /// The index of the file's header among the diff's lines.
    pub diff_line: Option<usize>,
}

/// Which way revealing hidden context grows.
#[derive(Clone, Copy, Debug, PartialEq, Eq, Structural)]
pub enum ExpansionDirection {
    /// From the start of the gap, downwards.
    Start,
    /// From the end of the gap, upwards.
    End,
    /// From both ends.
    Both,
    /// The whole gap.
    All,
}

/// Where a gap of hidden context lies in a file.
#[derive(Clone, Copy, Debug, PartialEq, Eq, Structural)]
pub enum GapPosition {
    Leading,
    Trailing,
    Between,
}

/// The ways a gap can be expanded: before the first hunk only upwards,
/// after the last only downwards, between hunks both ways at once, or each
/// way separately when the gap is long enough to come in chunks.
pub open spec fn gap_directions_of(position: GapPosition, chunked: bool) -> Seq<ExpansionDirection> {
    match position {
        GapPosition::Leading => seq![ExpansionDirection::End],
        GapPosition::Trailing => seq![ExpansionDirection::Start],
        GapPosition::Between => if chunked {
            seq![ExpansionDirection::Start, ExpansionDirection::End]
        } else {
            seq![ExpansionDirection::Both]
        },
    }
}

/// The ways a gap can be expanded (see [`gap_directions_of`]).
pub fn review_diff_gap_directions(position: GapPosition, chunked: bool) -> (r: Vec<
    ExpansionDirection,
>)
    ensures
        r@ == gap_directions_of(position, chunked),
{
    match position {
        GapPosition::Leading => vec![ExpansionDirection::End],
        GapPosition::Trailing => vec![ExpansionDirection::Start],
        GapPosition::Between => if chunked {
            vec![ExpansionDirection::Start, ExpansionDirection::End]
        } else {
            vec![ExpansionDirection::Both]
        },
    }
}

/// The icon of an expand button, drawn as what it reveals: revealing from
/// the start points down, from the end points up.
pub open spec fn gap_icon_of(direction: ExpansionDirection) -> Seq<char> {
    match direction {
        ExpansionDirection::Start => "icons/chevron-down.svg"@,
        ExpansionDirection::End => "icons/chevron-up.svg"@,
        _ => "icons/chevrons-up-down.svg"@,
    }
}

/// The icon of an expand button.
pub fn review_diff_gap_icon_path(direction: ExpansionDirection) -> (r: &'static str)
    ensures
        r@ == gap_icon_of(direction),
{
    match direction {
        ExpansionDirection::Start => "icons/chevron-down.svg",
        ExpansionDirection::End => "icons/chevron-up.svg",
        ExpansionDirection::Both | ExpansionDirection::All => "icons/chevrons-up-down.svg",
    }
}

/// The tooltip of an expand button.
pub open spec fn gap_tooltip_of(direction: ExpansionDirection) -> Seq<char> {
    match direction {
        ExpansionDirection::Start => "Expand context below"@,
        ExpansionDirection::End => "Expand context above"@,
        ExpansionDirection::Both => "Expand context"@,
        ExpansionDirection::All => "Expand all context"@,
    }
}

/// The tooltip of an expand button.
pub fn review_diff_gap_tooltip(direction: ExpansionDirection) -> (r: String)
    ensures
        r@ == gap_tooltip_of(direction),
{
    match direction {
        ExpansionDirection::Start => "Expand context below".to_owned(),
        ExpansionDirection::End => "Expand context above".to_owned(),
        ExpansionDirection::Both => "Expand context".to_owned(),
        ExpansionDirection::All => "Expand all context".to_owned(),
    }
}

// ---------------------------------------------------------------------------
// Filtering and ordering
// ---------------------------------------------------------------------------
/// Byte strings in lexicographic order (`str`'s `<`).
pub open spec fn bytes_less(a: Seq<u8>, b: Seq<u8>) -> bool
    decreases a.len(),
{
    if a.len() == 0 {
        b.len() > 0
    } else if b.len() == 0 {
        false
    } else if a[0] != b[0] {
        a[0] < b[0]
    } else {
        bytes_less(a.drop_first(), b.drop_first())
    }
}

/// Two different byte strings are ordered one way or the other.
pub proof fn lemma_bytes_less_total(a: Seq<u8>, b: Seq<u8>)
    requires
        a != b,
    ensures
        bytes_less(a, b) || bytes_less(b, a),
    decreases a.len(),
{
    if a.len() > 0 && b.len() > 0 && a[0] == b[0] {
        if a.drop_first() == b.drop_first() {
            assert(a =~= seq![a[0]] + a.drop_first());
            assert(b =~= seq![b[0]] + b.drop_first());
        }
        lemma_bytes_less_total(a.drop_first(), b.drop_first());
    } else if a.len() == 0 && b.len() == 0 {
        assert(a =~= b);
    }
}

/// No byte string comes before itself.
pub proof fn lemma_bytes_less_irreflexive(a: Seq<u8>)
    ensures
        !bytes_less(a, a),
    decreases a.len(),
{
    if a.len() > 0 {
        lemma_bytes_less_irreflexive(a.drop_first());
    }
}

fn less_bytes(a: &[u8], b: &[u8]) -> (r: bool)
    ensures
        r == bytes_less(a@, b@),
{
    let mut i: usize = 0;
    assert(a@.skip(0) =~= a@ && b@.skip(0) =~= b@);
    while i < a.len() && i < b.len()
        invariant
            i <= a@.len(),
            i <= b@.len(),
            a@.take(i as int) == b@.take(i as int),
            bytes_less(a@, b@) == bytes_less(a@.skip(i as int), b@.skip(i as int)),
        decreases a@.len() - i,
    {
        if a[i] != b[i] {
            return a[i] < b[i];
        }
        assert(a@.skip(i as int).drop_first() =~= a@.skip(i + 1));
        assert(b@.skip(i as int).drop_first() =~= b@.skip(i + 1));
        assert(a@.take(i + 1) =~= a@.take(i as int).push(a@[i as int]));
        assert(b@.take(i + 1) =~= b@.take(i as int).push(b@[i as int]));
        i = i + 1;
    }
    i == a.len() && i < b.len()
}

/// The sort key of a path: its bytes, ASCII case ignored.
pub open spec fn path_key(path: Seq<char>) -> Seq<u8> {
    lower_bytes(utf8(path))
}

/// Whether file `i` comes before file `j` in the list: by path, ASCII case
/// ignored, and by position among equal paths.
pub open spec fn comes_before(paths: Seq<Seq<char>>, i: usize, j: usize) -> bool {
    bytes_less(path_key(paths[i as int]), path_key(paths[j as int])) || (path_key(paths[i as int])
        == path_key(paths[j as int]) && i < j)
}

/// The filter a user typed, as matched: trimmed, ASCII case ignored.
pub open spec fn filter_key(filter: Seq<char>) -> Seq<u8> {
    lower_bytes(utf8(trim(filter)))
}

/// Whether a file passes the filter: every file when the filter is blank,
/// otherwise those whose path contains it, ASCII case ignored.
pub open spec fn passes(path: Seq<char>, filter: Seq<u8>) -> bool {
    filter.len() == 0 || contains_bytes(path_key(path), filter)
}

/// `order` lists exactly the files that pass the filter, each once, sorted
/// by [`comes_before`].
pub open spec fn listed_in_order(paths: Seq<Seq<char>>, filter: Seq<u8>, order: Seq<usize>) -> bool {
    &&& forall|k: int| 0 <= k < order.len() ==> (#[trigger] order[k]) < paths.len() && passes(
        paths[order[k] as int],
        filter,
    )
    &&& forall|i: int|
        0 <= i < paths.len() && passes(#[trigger] paths[i], filter) ==> order.contains(i as usize)
    &&& forall|k: int, l: int| 0 <= k < l < order.len() ==> order[k] != order[l]
    &&& forall|k: int| 0 <= k < order.len() - 1 ==> comes_before(paths, #[trigger] order[k], order[k + 1])
}

/// The paths of a review's files.
pub open spec fn file_paths(files: Seq<ReviewFile>) -> Seq<Seq<char>> {
    files.map_values(|f: ReviewFile| f.path@)
}

/// The files that pass `filter`, in list order.
fn filtered_order(files: &[ReviewFile], filter: &str) -> (r: (Vec<usize>, bool))
    ensures
        listed_in_order(file_paths(files@), filter_key(filter@), r.0@),
        r.1 == (filter_key(filter@).len() > 0),
{
    let ghost paths = file_paths(files@);
    let fcs = chars_of(filter);
    let (a, b) = trim_bounds(&fcs, 0, fcs.len());
    assert(fcs@.subrange(0, fcs@.len() as int) =~= fcs@);
    let trimmed = string_from_char_range(&fcs, a, b);
    let needle = lowercase_bytes(trimmed.as_str().as_bytes());
    let filtering = needle.len() > 0;
    let mut keys: Vec<Vec<u8>> = Vec::new();
    let mut order: Vec<usize> = Vec::new();
    let mut i: usize = 0;
    while i < files.len()
        invariant
            i <= files@.len(),
            paths == file_paths(files@),
            needle@ == filter_key(filter@),
            filtering == (needle@.len() > 0),
            keys@.len() == i,
            forall|k: int| 0 <= k < i ==> (#[trigger] keys@[k])@ == path_key(paths[k]),
            forall|k: int| 0 <= k < order@.len() ==> (#[trigger] order@[k]) < i && passes(
                paths[order@[k] as int],
                needle@,
            ),
            forall|j: int| 0 <= j < i && passes(#[trigger] paths[j], needle@) ==> order@.contains(j as usize),
            forall|k: int, l: int| 0 <= k < l < order@.len() ==> order@[k] != order@[l],
            forall|k: int|
                0 <= k < order@.len() - 1 ==> comes_before(paths, #[trigger] order@[k], order@[k + 1]),
        decreases files@.len() - i,
    {
        let key = lowercase_bytes(files[i].path.as_str().as_bytes());
        assert(paths[i as int] == files@[i as int].path@);
        let pass = !filtering || bytes_contain(key.as_slice(), needle.as_slice());
        keys.push(key);
        if pass {
            insert_sorted(&mut order, &keys, i, Ghost(paths));
        }
        i = i + 1;
    }
    (order, filtering)
}

/// Inserts `item` (larger than every index in `order`) where it belongs.
fn insert_sorted(order: &mut Vec<usize>, keys: &Vec<Vec<u8>>, item: usize, Ghost(paths): Ghost<
    Seq<Seq<char>>,
>)
    requires
        item < keys@.len(),
        keys@.len() <= paths.len(),
        forall|k: int| 0 <= k < keys@.len() ==> (#[trigger] keys@[k])@ == path_key(paths[k]),
        forall|k: int| 0 <= k < old(order)@.len() ==> (#[trigger] old(order)@[k]) < item,
        forall|k: int|
            0 <= k < old(order)@.len() - 1 ==> comes_before(paths, #[trigger] old(order)@[k], old(order)@[k + 1]),
        forall|k: int, l: int| 0 <= k < l < old(order)@.len() ==> old(order)@[k] != old(order)@[l],
    ensures
        final(order)@.len() == old(order)@.len() + 1,
        final(order)@.contains(item),
        forall|x: usize| old(order)@.contains(x) ==> final(order)@.contains(x),
        forall|k: int, l: int| 0 <= k < l < final(order)@.len() ==> final(order)@[k] != final(order)@[l],
        forall|k: int| 0 <= k < final(order)@.len() ==> #[trigger] final(order)@[k] == item || old(order)@.contains(final(order)@[k]),
        forall|k: int|
            0 <= k < final(order)@.len() - 1 ==> comes_before(paths, #[trigger] final(order)@[k], final(order)@[k + 1]),
{
    let ghost before = order@;
    let mut j = order.len();
    while j > 0 && less_bytes(keys[item].as_slice(), keys[order[j - 1]].as_slice())
        invariant
            j <= order@.len(),
            order@ == before,
            item < keys@.len(),
            keys@.len() <= paths.len(),
            forall|k: int| 0 <= k < keys@.len() ==> (#[trigger] keys@[k])@ == path_key(paths[k]),
            forall|k: int| 0 <= k < before.len() ==> (#[trigger] before[k]) < item,
            forall|k: int| j <= k < before.len() ==> comes_before(paths, item, #[trigger] before[k]),
        decreases j,
    {
        assert(before[j - 1] < keys@.len());
        j = j - 1;
    }
    proof {
        if j > 0 {
            let p = before[j - 1];
            assert(p < item);
            if path_key(paths[p as int]) != path_key(paths[item as int]) {
                lemma_bytes_less_total(path_key(paths[p as int]), path_key(paths[item as int]));
            }
            assert(comes_before(paths, p, item));
        }
    }
    order.insert(j, item);
    proof {
        assert(order@ =~= before.insert(j as int, item));
        lemma_sorted_insert(before, j as int, item, paths);
    }
}

proof fn lemma_sorted_insert(before: Seq<usize>, j: int, item: usize, paths: Seq<Seq<char>>)
    requires
        0 <= j <= before.len(),
        forall|k: int| 0 <= k < before.len() ==> (#[trigger] before[k]) < item,
        forall|k: int| 0 <= k < before.len() - 1 ==> comes_before(paths, #[trigger] before[k], before[k + 1]),
        forall|k: int, l: int| 0 <= k < l < before.len() ==> before[k] != before[l],
        forall|k: int| j <= k < before.len() ==> comes_before(paths, item, #[trigger] before[k]),
        j > 0 ==> comes_before(paths, before[j - 1], item),
    ensures
        ({
            let after = before.insert(j, item);
            &&& after.len() == before.len() + 1
            &&& after.contains(item)
            &&& forall|x: usize| before.contains(x) ==> after.contains(x)
            &&& forall|k: int, l: int| 0 <= k < l < after.len() ==> after[k] != after[l]
            &&& forall|k: int| 0 <= k < after.len() - 1 ==> comes_before(paths, #[trigger] after[k], after[k + 1])
        }),
{
    lemma_insert_members(before, j, item);
    lemma_insert_adjacent(before, j, item, paths);
}

proof fn lemma_insert_members(before: Seq<usize>, j: int, item: usize)
    requires
        0 <= j <= before.len(),
        forall|k: int| 0 <= k < before.len() ==> (#[trigger] before[k]) < item,
        forall|k: int, l: int| 0 <= k < l < before.len() ==> before[k] != before[l],
    ensures
        ({
            let after = before.insert(j, item);
            &&& after.len() == before.len() + 1
            &&& after.contains(item)
            &&& forall|x: usize| before.contains(x) ==> after.contains(x)
            &&& forall|k: int, l: int| 0 <= k < l < after.len() ==> after[k] != after[l]
        }),
{
    let after = before.insert(j, item);
    assert(after[j] == item);
    assert forall|x: usize| before.contains(x) implies after.contains(x) by {
        let k = choose|k: int| 0 <= k < before.len() && before[k] == x;
        if k < j {
            assert(after[k] == x);
        } else {
            assert(after[k + 1] == x);
        }
    }
    assert forall|k: int, l: int| 0 <= k < l < after.len() implies after[k] != after[l] by {
        if k != j && l != j {
            let k0 = if k < j { k } else { k - 1 };
            let l0 = if l < j { l } else { l - 1 };
            assert(after[k] == before[k0] && after[l] == before[l0]);
        } else if k == j {
            assert(after[l] == before[l - 1]);
        } else {
            let k0 = if k < j { k } else { k - 1 };
            assert(after[k] == before[k0]);
        }
    }
}

proof fn lemma_insert_adjacent(before: Seq<usize>, j: int, item: usize, paths: Seq<Seq<char>>)
    requires
        0 <= j <= before.len(),
        forall|k: int| 0 <= k < before.len() - 1 ==> comes_before(paths, #[trigger] before[k], before[k + 1]),
        forall|k: int| j <= k < before.len() ==> comes_before(paths, item, #[trigger] before[k]),
        j > 0 ==> comes_before(paths, before[j - 1], item),
    ensures
        ({
            let after = before.insert(j, item);
            forall|k: int| 0 <= k < after.len() - 1 ==> comes_before(paths, #[trigger] after[k], after[k + 1])
        }),
{
    let after = before.insert(j, item);
    assert forall|k: int| 0 <= k < after.len() - 1 implies comes_before(paths, #[trigger] after[k], after[k + 1]) by {
        if k + 1 < j {
            assert(after[k] == before[k] && after[k + 1] == before[k + 1]);
        } else if k + 1 == j {
            assert(after[k] == before[k] && after[k + 1] == item);
        } else if k == j {
            assert(after[k] == item && after[k + 1] == before[k]);
        } else {
            assert(after[k] == before[k - 1] && after[k + 1] == before[k]);
        }
    }
}

// ---------------------------------------------------------------------------
// Tree and flat rows
// ---------------------------------------------------------------------------
/// A row of the review's file list.
#[derive(Debug, PartialEq, Eq)]
pub enum ReviewDiffTreeRow {
    Directory { path: String, name: String, depth: usize, expanded: bool },
    File { file_index: usize, depth: usize },
}

/// A row as a value.
pub enum RowModel {
    Directory { path: Seq<char>, name: Seq<char>, depth: int, expanded: bool },
    File { file_index: int, depth: int },
}

impl View for ReviewDiffTreeRow {
    type V = RowModel;

    open spec fn view(&self) -> RowModel {
        match self {
            ReviewDiffTreeRow::Directory { path, name, depth, expanded } => RowModel::Directory {
                path: path@,
                name: name@,
                depth: *depth as int,
                expanded: *expanded,
            },
            ReviewDiffTreeRow::File { file_index, depth } => RowModel::File {
                file_index: *file_index as int,
                depth: *depth as int,
            },
        }
    }
}

impl Clone for ReviewDiffTreeRow {
    fn clone(&self) -> (r: Self)
        ensures
            r == *self,
    {
        match self {
            ReviewDiffTreeRow::Directory { path, name, depth, expanded } => ReviewDiffTreeRow::Directory {
                path: path.clone(),
                name: name.clone(),
                depth: *depth,
                expanded: *expanded,
            },
            ReviewDiffTreeRow::File { file_index, depth } => ReviewDiffTreeRow::File {
                file_index: *file_index,
                depth: *depth,
            },
        }
    }
}

/// Rows as values.
pub open spec fn row_models(rows: Seq<ReviewDiffTreeRow>) -> Seq<RowModel> {
    rows.map_values(|r: ReviewDiffTreeRow| r@)
}

/// The paths in a list, as a set.
pub open spec fn path_set(paths: Seq<String>) -> Set<Seq<char>> {
    Set::new(|p: Seq<char>| exists|i: int| 0 <= i < paths.len() && (#[trigger] paths[i])@ == p)
}

/// A directory path extended by one more name (the first name alone).
pub open spec fn extend_dir(dir: Seq<char>, part: Seq<char>) -> Seq<char> {
    if dir.len() == 0 {
        part
    } else {
        dir + seq!['/'] + part
    }
}

/// The directory rows a file adds from its `k`-th name on, given the
/// directory so far and the directories already listed: a directory is
/// listed once, at its depth, expanded when it is in `expanded` or a filter
/// is on; the walk stops at a collapsed one. Also gives the directories now
/// listed and whether the file itself shows.
pub open spec fn walk_dirs(
    parts: Seq<Seq<char>>,
    k: int,
    dir: Seq<char>,
    listed: Set<Seq<char>>,
    expanded: Set<Seq<char>>,
    filtering: bool,
) -> (Seq<RowModel>, Set<Seq<char>>, bool)
    decreases parts.len() - k,
{
    if k < 0 || k + 1 >= parts.len() {
        (seq![], listed, true)
    } else {
        let d = extend_dir(dir, parts[k]);
        let open = filtering || expanded.contains(d);
        let row = if listed.contains(d) {
            seq![]
        } else {
            seq![RowModel::Directory { path: d, name: parts[k], depth: k, expanded: open }]
        };
        let now = listed.insert(d);
        if !open {
            (row, now, false)
        } else {
            let rest = walk_dirs(parts, k + 1, d, now, expanded, filtering);
            (row + rest.0, rest.1, rest.2)
        }
    }
}

/// The rows of the files in `order`, in turn: each file's new directories,
/// then the file at its depth if no directory above it is collapsed. Also
/// gives the directories listed.
pub open spec fn tree_rows_of(
    paths: Seq<Seq<char>>,
    order: Seq<usize>,
    expanded: Set<Seq<char>>,
    filtering: bool,
) -> (Seq<RowModel>, Set<Seq<char>>)
    decreases order.len(),
{
    if order.len() == 0 {
        (seq![], Set::empty())
    } else {
        let before = tree_rows_of(paths, order.drop_last(), expanded, filtering);
        let i = order.last();
        let parts = path_segments(paths[i as int]);
        let w = walk_dirs(parts, 0, seq![], before.1, expanded, filtering);
        (
            before.0 + w.0 + if w.2 {
                seq![RowModel::File { file_index: i as int, depth: parts.len() - 1 }]
            } else {
                seq![]
            },
            w.1,
        )
    }
}

/// The `/`-separated names of a path, empty ones included.
fn split_path(cs: &[char]) -> (r: Vec<Vec<char>>)
    ensures
        r.deep_view() == path_segments(cs@),
{
    let mut parts: Vec<Vec<char>> = Vec::new();
    let mut cur: Vec<char> = Vec::new();
    let mut i: usize = 0;
    assert(cs@.take(0) =~= Seq::<char>::empty());
    assert(parts.deep_view().push(cur@) =~= seq![seq![]]);
    while i < cs.len()
        invariant
            i <= cs@.len(),
            path_segments(cs@.take(i as int)) == parts.deep_view().push(cur@),
        decreases cs@.len() - i,
    {
        let c = cs[i];
        assert(cs@.take(i + 1).drop_last() =~= cs@.take(i as int));
        if c == '/' {
            let ghost before = parts.deep_view();
            let done = cur;
            proof {
                assert(done.deep_view() =~= done@);
            }
            parts.push(done);
            assert(parts.deep_view() =~= before.push(done@));
            cur = Vec::new();
            assert(path_segments(cs@.take(i + 1)) =~= parts.deep_view().push(cur@));
        } else {
            cur.push(c);
            assert(path_segments(cs@.take(i + 1)) =~= parts.deep_view().push(cur@));
        }
        i = i + 1;
    }
    let ghost before = parts.deep_view();
    proof {
        assert(cur.deep_view() =~= cur@);
    }
    parts.push(cur);
    assert(parts.deep_view() =~= before.push(cur@));
    assert(cs@.take(cs@.len() as int) =~= cs@);
    parts
}

/// Whether `paths` holds `p`.
fn holds_path(paths: &[String], p: &String) -> (r: bool)
    ensures
        r == path_set(paths@).contains(p@),
{
    let mut i: usize = 0;
    while i < paths.len()
        invariant
            i <= paths@.len(),
            forall|j: int| 0 <= j < i ==> (#[trigger] paths@[j])@ != p@,
        decreases paths@.len() - i,
    {
        if paths[i] == *p {
            return true;
        }
        i = i + 1;
    }
    false
}

/// Rows for one file, appended to `rows`; `listed` keeps the directories
/// listed so far.
fn push_file_rows(
    rows: &mut Vec<ReviewDiffTreeRow>,
    listed: &mut Vec<String>,
    path: &str,
    file_index: usize,
    expanded_paths: &[String],
    filtering: bool,
)
    ensures
        ({
            let parts = path_segments(path@);
            let w = walk_dirs(parts, 0, seq![], path_set(old(listed)@), path_set(expanded_paths@), filtering);
            &&& row_models(final(rows)@) == row_models(old(rows)@) + w.0 + if w.2 {
                seq![RowModel::File { file_index: file_index as int, depth: parts.len() - 1 }]
            } else {
                seq![]
            }
            &&& path_set(final(listed)@) == w.1
        }),
{
    let ghost expanded = path_set(expanded_paths@);
    let ghost start_rows = row_models(rows@);
    let ghost start_listed = path_set(listed@);
    let cs = chars_of(path);
    let parts = split_path(&cs);
    let ghost ps = path_segments(path@);
    let ghost target = walk_dirs(ps, 0, seq![], start_listed, expanded, filtering);
    assert(parts.deep_view() == ps);
    assert(parts@.len() == ps.len());
    proof {
        crate::links::lemma_path_segments_nonempty(path@);
    }
    let mut directory = String::new();
    let mut has_dir = false;
    let mut visible = true;
    let mut k: usize = 0;
    let count = parts.len();
    while k + 1 < count
        invariant_except_break
            visible,
            has_dir == (directory@.len() > 0),
            ({
                let w = walk_dirs(ps, k as int, directory@, path_set(listed@), expanded, filtering);
                &&& row_models(rows@) + w.0 == start_rows + target.0
                &&& w.1 == target.1
                &&& w.2 == target.2
            }),
        invariant
            expanded == path_set(expanded_paths@),
            target == walk_dirs(ps, 0, seq![], start_listed, expanded, filtering),
            count == parts@.len() == ps.len(),
            count >= 1,
            parts.deep_view() == ps,
            k + 1 <= count,
        ensures
            row_models(rows@) == start_rows + target.0,
            path_set(listed@) == target.1,
            visible == target.2,
        decreases count - k,
    {
        let ghost w_before = walk_dirs(ps, k as int, directory@, path_set(listed@), expanded, filtering);
        let ghost dir_before = directory@;
        let ghost listed_before = path_set(listed@);
        let ghost rows_before = row_models(rows@);
        assert(parts@[k as int]@ == ps[k as int]);
        let part_string = crate::text::string_from_chars(parts[k].as_slice());
        if has_dir {
            push_char(&mut directory, '/');
        }
        directory.append(part_string.as_str());
        has_dir = has_dir || parts[k].len() > 0;
        let ghost d = directory@;
        let open = filtering || holds_path(expanded_paths, &directory);
        let fresh = !holds_path(listed.as_slice(), &directory);
        if fresh {
            rows.push(ReviewDiffTreeRow::Directory {
                path: directory.clone(),
                name: part_string,
                depth: k,
                expanded: open,
            });
            assert(row_models(rows@) =~= rows_before.push(rows@.last()@));
        } else {
            assert(row_models(rows@) =~= rows_before);
        }
        let ghost before_listed = listed@;
        listed.push(directory.clone());
        proof {
            assert forall|p: Seq<char>| path_set(listed@).contains(p) == path_set(before_listed).insert(d).contains(p) by {
                if path_set(before_listed).contains(p) {
                    let i = choose|i: int| 0 <= i < before_listed.len() && (#[trigger] before_listed[i])@ == p;
                    assert(listed@[i]@ == p);
                }
                if p == d {
                    assert(listed@[before_listed.len() as int]@ == p);
                }
                if path_set(listed@).contains(p) {
                    let i = choose|i: int| 0 <= i < listed@.len() && (#[trigger] listed@[i])@ == p;
                    if i < before_listed.len() {
                        assert(before_listed[i]@ == p);
                    }
                }
            }
            assert(path_set(listed@) =~= path_set(before_listed).insert(d));
        }
        proof {
            assert(d == extend_dir(dir_before, ps[k as int]));
            let row_seq = if listed_before.contains(d) {
                seq![]
            } else {
                seq![RowModel::Directory { path: d, name: ps[k as int], depth: k as int, expanded: open }]
            };
            assert(row_models(rows@) =~= rows_before + row_seq);
            let rest = walk_dirs(ps, k + 1, d, listed_before.insert(d), expanded, filtering);
            if open {
                assert(w_before.0 =~= row_seq + rest.0);
                assert(w_before.1 == rest.1 && w_before.2 == rest.2);
                assert(row_models(rows@) + rest.0 =~= rows_before + w_before.0);
            } else {
                assert(w_before.0 =~= row_seq);
                assert(w_before.1 == listed_before.insert(d) && !w_before.2);
            }
        }
        if !open {
            visible = false;
            break;
        }
        k = k + 1;
    }
    if visible {
        let ghost before_rows = row_models(rows@);
        rows.push(ReviewDiffTreeRow::File { file_index, depth: count - 1 });
        assert(row_models(rows@) =~= before_rows.push(rows@.last()@));
    } else {
        assert(row_models(rows@) =~= row_models(rows@) + Seq::<RowModel>::empty());
    }
}

/// The review's file list as a tree: the files that pass `filter` in path
/// order (ASCII case ignored), each under the directories above it. A
/// directory is listed once, before its first file; a collapsed one hides
/// what is below it; with a filter on every directory is expanded.
pub fn review_diff_tree_rows(files: &[ReviewFile], expanded_paths: &[String], filter: &str) -> (rows:
    Vec<ReviewDiffTreeRow>)
    ensures
        exists|order: Seq<usize>|
            #[trigger] listed_in_order(file_paths(files@), filter_key(filter@), order)
                && row_models(rows@) == tree_rows_of(
                file_paths(files@),
                order,
                path_set(expanded_paths@),
                filter_key(filter@).len() > 0,
            ).0,
{
    let ghost paths = file_paths(files@);
    let ghost expanded = path_set(expanded_paths@);
    let (order, filtering) = filtered_order(files, filter);
    let mut rows: Vec<ReviewDiffTreeRow> = Vec::new();
    let mut listed: Vec<String> = Vec::new();
    let mut k: usize = 0;
    assert(order@.take(0) =~= Seq::<usize>::empty());
    assert(row_models(rows@) =~= Seq::<RowModel>::empty());
    assert(path_set(listed@) =~= Set::<Seq<char>>::empty());
    while k < order.len()
        invariant
            k <= order@.len(),
            paths == file_paths(files@),
            expanded == path_set(expanded_paths@),
            listed_in_order(paths, filter_key(filter@), order@),
            row_models(rows@) == tree_rows_of(paths, order@.take(k as int), expanded, filtering).0,
            path_set(listed@) == tree_rows_of(paths, order@.take(k as int), expanded, filtering).1,
        decreases order@.len() - k,
    {
        let index = order[k];
        assert(index < files@.len());
        assert(paths[index as int] == files@[index as int].path@);
        assert(order@.take(k + 1).drop_last() =~= order@.take(k as int));
        push_file_rows(&mut rows, &mut listed, files[index].path.as_str(), index, expanded_paths, filtering);
        k = k + 1;
    }
    assert(order@.take(order@.len() as int) =~= order@);
    rows
}

/// The flat rows of an order: each file at depth 0.
pub open spec fn flat_rows_of(order: Seq<usize>) -> Seq<RowModel> {
    order.map_values(|i: usize| RowModel::File { file_index: i as int, depth: 0 })
}

/// The review's file list without directories: the files that pass
/// `filter`, in path order, each at depth 0.
pub fn review_diff_flat_rows(files: &[ReviewFile], filter: &str) -> (rows: Vec<ReviewDiffTreeRow>)
    ensures
        exists|order: Seq<usize>|
            #[trigger] listed_in_order(file_paths(files@), filter_key(filter@), order)
                && row_models(rows@) == flat_rows_of(order),
{
    let (order, _) = filtered_order(files, filter);
    let mut rows: Vec<ReviewDiffTreeRow> = Vec::new();
    let mut k: usize = 0;
    while k < order.len()
        invariant
            k <= order@.len(),
            row_models(rows@) == flat_rows_of(order@.take(k as int)),
        decreases order@.len() - k,
    {
        rows.push(ReviewDiffTreeRow::File { file_index: order[k], depth: 0 });
        assert(flat_rows_of(order@.take(k + 1)) =~= flat_rows_of(order@.take(k as int)).push(
            RowModel::File { file_index: order@[k as int] as int, depth: 0 },
        ));
        assert(row_models(rows@) =~= flat_rows_of(order@.take(k + 1)));
        k = k + 1;
    }
    assert(order@.take(order@.len() as int) =~= order@);
    rows
}

/// The directory named by the first `k` names of a path.
pub open spec fn acc_dir(parts: Seq<Seq<char>>, k: int) -> Seq<char>
    decreases k,
{
    if k <= 0 {
        seq![]
    } else {
        extend_dir(acc_dir(parts, k - 1), parts[k - 1])
    }
}

/// The directories above one path: the first name, the first two, and so
/// on, the file's own name left out.
pub open spec fn dirs_of_path(path: Seq<char>) -> Set<Seq<char>> {
    Set::new(
        |d: Seq<char>|
            exists|k: int|
                1 <= k < path_segments(path).len() && d == #[trigger] acc_dir(path_segments(path), k),
    )
}

/// Every directory above any of the paths.
pub open spec fn directories_of(paths: Seq<Seq<char>>) -> Set<Seq<char>> {
    Set::new(
        |d: Seq<char>| exists|i: int| 0 <= i < paths.len() && #[trigger] dirs_of_path(paths[i]).contains(d),
    )
}

/// Every directory above a review's files, each once.
pub fn review_diff_directory_paths(files: &[ReviewFile]) -> (r: Vec<String>)
    ensures
        path_set(r@) == directories_of(file_paths(files@)),
        forall|k: int, l: int| 0 <= k < l < r@.len() ==> r@[k]@ != r@[l]@,
{
    let ghost paths = file_paths(files@);
    let mut out: Vec<String> = Vec::new();
    let mut i: usize = 0;
    proof {
        assert(path_set(out@) =~= directories_of(paths.take(0)));
    }
    while i < files.len()
        invariant
            i <= files@.len(),
            paths == file_paths(files@),
            path_set(out@) == directories_of(paths.take(i as int)),
            forall|k: int, l: int| 0 <= k < l < out@.len() ==> out@[k]@ != out@[l]@,
        decreases files@.len() - i,
    {
        let ghost before = directories_of(paths.take(i as int));
        let ghost path = paths[i as int];
        assert(path == files@[i as int].path@);
        let cs = chars_of(files[i].path.as_str());
        let parts = split_path(&cs);
        let ghost ps = path_segments(path);
        assert(parts.deep_view() == ps);
        proof {
            crate::links::lemma_path_segments_nonempty(path);
        }
        let count = parts.len();
        let mut directory = String::new();
        let mut has_dir = false;
        let mut k: usize = 0;
        proof {
            assert(path_set(out@) =~= before.union(
                Set::new(|d: Seq<char>| exists|m: int| 1 <= m <= 0 && d == #[trigger] acc_dir(ps, m)),
            ));
        }
        while k + 1 < count
            invariant
                count == ps.len(),
                count >= 1,
                k + 1 <= count,
                parts.deep_view() == ps,
                directory@ == acc_dir(ps, k as int),
                has_dir == (directory@.len() > 0),
                path_set(out@) == before.union(
                    Set::new(|d: Seq<char>| exists|m: int| 1 <= m <= k && d == #[trigger] acc_dir(ps, m)),
                ),
                forall|a: int, b: int| 0 <= a < b < out@.len() ==> out@[a]@ != out@[b]@,
            decreases count - k,
        {
            assert(parts@[k as int]@ == ps[k as int]);
            let part_string = crate::text::string_from_chars(parts[k].as_slice());
            if has_dir {
                push_char(&mut directory, '/');
            }
            directory.append(part_string.as_str());
            has_dir = has_dir || parts[k].len() > 0;
            assert(directory@ == acc_dir(ps, k + 1));
            let ghost prev = out@;
            if !holds_path(out.as_slice(), &directory) {
                out.push(directory.clone());
            }
            proof {
                let grown = Set::new(|d: Seq<char>| exists|m: int| 1 <= m <= k + 1 && d == #[trigger] acc_dir(ps, m));
                let had = Set::new(|d: Seq<char>| exists|m: int| 1 <= m <= k && d == #[trigger] acc_dir(ps, m));
                assert(grown =~= had.insert(acc_dir(ps, k + 1)));
                assert(path_set(out@) =~= path_set(prev).insert(directory@)) by {
                    assert forall|p: Seq<char>| path_set(out@).contains(p) == path_set(prev).insert(directory@).contains(p) by {
                        if path_set(prev).contains(p) {
                            let j = choose|j: int| 0 <= j < prev.len() && (#[trigger] prev[j])@ == p;
                            assert(out@[j]@ == p);
                        }
                        if path_set(out@).contains(p) {
                            let j = choose|j: int| 0 <= j < out@.len() && (#[trigger] out@[j])@ == p;
                            if j < prev.len() {
                                assert(prev[j]@ == p);
                            }
                        }
                        if p == directory@ && out@.len() > prev.len() {
                            assert(out@[prev.len() as int]@ == p);
                        }
                    }
                }
                assert(path_set(out@) =~= before.union(grown));
            }
            k = k + 1;
        }
        proof {
            let got = Set::new(|d: Seq<char>| exists|m: int| 1 <= m <= k && d == #[trigger] acc_dir(ps, m));
            assert(got =~= dirs_of_path(path));
            assert(paths.take(i + 1).drop_last() =~= paths.take(i as int));
            assert forall|d: Seq<char>| directories_of(paths.take(i + 1)).contains(d) == before.union(got).contains(d) by {
                if before.contains(d) {
                    let j = choose|j: int| 0 <= j < paths.take(i as int).len() && #[trigger] dirs_of_path(paths.take(i as int)[j]).contains(d);
                    assert(paths.take(i + 1)[j] == paths.take(i as int)[j]);
                }
                if got.contains(d) {
                    assert(paths.take(i + 1)[i as int] == path);
                }
                if directories_of(paths.take(i + 1)).contains(d) {
                    let j = choose|j: int| 0 <= j < paths.take(i + 1).len() && #[trigger] dirs_of_path(paths.take(i + 1)[j]).contains(d);
                    if j < i {
                        assert(paths.take(i as int)[j] == paths.take(i + 1)[j]);
                    }
                }
            }
            assert(directories_of(paths.take(i + 1)) =~= before.union(got));
        }
        i = i + 1;
    }
    assert(paths.take(files@.len() as int) =~= paths);
    out
}

// ---------------------------------------------------------------------------
// What the tree promises
// ---------------------------------------------------------------------------
/// The path of a directory row.
pub open spec fn dir_path_of(r: RowModel) -> Option<Seq<char>> {
    match r {
        RowModel::Directory { path, .. } => Some(path),
        RowModel::File { .. } => None,
    }
}

/// Whether a directory shows what is below it.
pub open spec fn dir_opened(d: Seq<char>, expanded: Set<Seq<char>>, filtering: bool) -> bool {
    filtering || expanded.contains(d)
}

/// Whether every directory above a path shows what is below it.
pub open spec fn ancestors_open(path: Seq<char>, expanded: Set<Seq<char>>, filtering: bool) -> bool {
    forall|m: int|
        1 <= m < path_segments(path).len() ==> dir_opened(
            #[trigger] acc_dir(path_segments(path), m),
            expanded,
            filtering,
        )
}

/// Whether a row is file `i`'s.
pub open spec fn is_file_row(r: RowModel, i: int) -> bool {
    match r {
        RowModel::File { file_index, .. } => file_index == i,
        _ => false,
    }
}

/// Whether `rows` has a row for file `i`.
pub open spec fn shows_file(rows: Seq<RowModel>, i: int) -> bool {
    exists|k: int| 0 <= k < rows.len() && is_file_row(#[trigger] rows[k], i)
}

/// A directory row whose path was not in `listed` and is in `now`.
pub open spec fn newly_listed(r: RowModel, listed: Set<Seq<char>>, now: Set<Seq<char>>) -> bool {
    match r {
        RowModel::Directory { path, .. } => !listed.contains(path) && now.contains(path),
        _ => false,
    }
}

proof fn lemma_walk(
    parts: Seq<Seq<char>>,
    k: int,
    listed: Set<Seq<char>>,
    expanded: Set<Seq<char>>,
    filtering: bool,
)
    requires
        0 <= k,
    ensures
        ({
            let w = walk_dirs(parts, k, acc_dir(parts, k), listed, expanded, filtering);
            &&& listed.subset_of(w.1)
            &&& forall|a: int| 0 <= a < w.0.len() ==> newly_listed(#[trigger] w.0[a], listed, w.1)
            &&& forall|a: int, b: int| 0 <= a < b < w.0.len() ==> dir_path_of(w.0[a]) != dir_path_of(w.0[b])
            &&& w.2 == forall|m: int| k < m < parts.len() ==> dir_opened(#[trigger] acc_dir(parts, m), expanded, filtering)
        }),
    decreases parts.len() - k,
{
    let w = walk_dirs(parts, k, acc_dir(parts, k), listed, expanded, filtering);
    if k + 1 >= parts.len() {
    } else {
        let d = acc_dir(parts, k + 1);
        assert(d == extend_dir(acc_dir(parts, k), parts[k]));
        let now = listed.insert(d);
        let open = dir_opened(d, expanded, filtering);
        let row = if listed.contains(d) {
            seq![]
        } else {
            seq![RowModel::Directory { path: d, name: parts[k], depth: k, expanded: open }]
        };
        if open {
            lemma_walk(parts, k + 1, now, expanded, filtering);
            let rest = walk_dirs(parts, k + 1, d, now, expanded, filtering);
            assert(w.0 == row + rest.0);
            assert forall|a: int| 0 <= a < w.0.len() implies newly_listed(#[trigger] w.0[a], listed, w.1) by {
                if a >= row.len() {
                    assert(w.0[a] == rest.0[a - row.len()]);
                }
            }
            assert forall|a: int, b: int| 0 <= a < b < w.0.len() implies dir_path_of(w.0[a]) != dir_path_of(w.0[b]) by {
                if a >= row.len() {
                    assert(w.0[a] == rest.0[a - row.len()]);
                    assert(w.0[b] == rest.0[b - row.len()]);
                } else {
                    assert(w.0[b] == rest.0[b - row.len()]);
                    assert(newly_listed(rest.0[b - row.len()], now, rest.1));
                }
            }
            assert(w.2 == forall|m: int| k < m < parts.len() ==> dir_opened(#[trigger] acc_dir(parts, m), expanded, filtering)) by {
                if w.2 {
                    assert forall|m: int| k < m < parts.len() implies dir_opened(#[trigger] acc_dir(parts, m), expanded, filtering) by {
                        if m > k + 1 {
                        }
                    }
                }
            }
        } else {
            assert(!w.2);
        }
    }
}

proof fn lemma_walk_no_files(
    parts: Seq<Seq<char>>,
    k: int,
    dir: Seq<char>,
    listed: Set<Seq<char>>,
    expanded: Set<Seq<char>>,
    filtering: bool,
)
    ensures
        forall|a: int| 0 <= a < walk_dirs(parts, k, dir, listed, expanded, filtering).0.len()
            ==> (#[trigger] walk_dirs(parts, k, dir, listed, expanded, filtering).0[a]) is Directory,
    decreases parts.len() - k,
{
    if !(k < 0 || k + 1 >= parts.len()) {
        let d = extend_dir(dir, parts[k]);
        lemma_walk_no_files(parts, k + 1, d, listed.insert(d), expanded, filtering);
    }
}

/// The tree lists every directory at most once, each directory it lists is
/// among those it reports as listed, and a file has a row exactly when it is
/// in the order and every directory above it is expanded (or a filter is
/// on), so collapsing a directory hides only what is below it.
pub proof fn law_tree_rows(
    paths: Seq<Seq<char>>,
    order: Seq<usize>,
    expanded: Set<Seq<char>>,
    filtering: bool,
    i: usize,
)
    requires
        forall|k: int| 0 <= k < order.len() ==> (#[trigger] order[k]) < paths.len(),
    ensures
        ({
            let t = tree_rows_of(paths, order, expanded, filtering);
            &&& forall|a: int, b: int|
                0 <= a < b < t.0.len() && t.0[a] is Directory ==> dir_path_of(t.0[a]) != dir_path_of(t.0[b])
            &&& forall|a: int| 0 <= a < t.0.len() && (#[trigger] t.0[a]) is Directory ==> t.1.contains(dir_path_of(t.0[a])->0)
            &&& i < paths.len() ==> (shows_file(t.0, i as int) <==> order.contains(i) && ancestors_open(paths[i as int], expanded, filtering))
        }),
    decreases order.len(),
{
    let t = tree_rows_of(paths, order, expanded, filtering);
    if order.len() > 0 {
        let prev = order.drop_last();
        law_tree_rows(paths, prev, expanded, filtering, i);
        let before = tree_rows_of(paths, prev, expanded, filtering);
        let j = order.last();
        let parts = path_segments(paths[j as int]);
        lemma_walk(parts, 0, before.1, expanded, filtering);
        lemma_walk_no_files(parts, 0, seq![], before.1, expanded, filtering);
        assert(acc_dir(parts, 0) =~= Seq::<char>::empty());
        let w = walk_dirs(parts, 0, seq![], before.1, expanded, filtering);
        let tail = if w.2 {
            seq![RowModel::File { file_index: j as int, depth: parts.len() - 1 }]
        } else {
            seq![]
        };
        assert(t.0 == before.0 + w.0 + tail);
        assert(t.1 == w.1);
        let n0: int = before.0.len() as int;
        let n1: int = n0 + w.0.len();
        assert forall|a: int| 0 <= a < t.0.len() && (#[trigger] t.0[a]) is Directory implies t.1.contains(dir_path_of(t.0[a])->0) by {
            if a < n0 {
                assert(t.0[a] == before.0[a]);
            } else if a < n1 {
                assert(t.0[a] == w.0[a - n0]);
            }
        }
        assert forall|a: int, b: int|
            0 <= a < b < t.0.len() && t.0[a] is Directory implies dir_path_of(t.0[a]) != dir_path_of(t.0[b]) by {
            if b >= n1 {
                assert(t.0[b] == tail[b - n1]);
            } else if a < n0 && b < n0 {
                assert(t.0[a] == before.0[a] && t.0[b] == before.0[b]);
            } else if a < n0 {
                assert(t.0[a] == before.0[a] && t.0[b] == w.0[b - n0]);
                assert(before.1.contains(dir_path_of(before.0[a])->0));
            } else {
                assert(t.0[a] == w.0[a - n0] && t.0[b] == w.0[b - n0]);
            }
        }
        if i < paths.len() {
            assert(ancestors_open(paths[j as int], expanded, filtering) == w.2);
            if shows_file(t.0, i as int) {
                let k = choose|k: int| 0 <= k < t.0.len() && is_file_row(#[trigger] t.0[k], i as int);
                if k < n0 {
                    assert(t.0[k] == before.0[k]);
                    assert(shows_file(before.0, i as int));
                    assert(prev.contains(i));
                    let q = choose|q: int| 0 <= q < prev.len() && prev[q] == i;
                    assert(order[q] == i);
                } else if k < n1 {
                    assert(t.0[k] == w.0[k - n0]);
                } else {
                    assert(t.0[k] == tail[k - n1]);
                    assert(order[order.len() - 1] == i);
                }
            }
            if order.contains(i) && ancestors_open(paths[i as int], expanded, filtering) {
                let q = choose|q: int| 0 <= q < order.len() && order[q] == i;
                if q < order.len() - 1 {
                    assert(prev[q] == i);
                    assert(shows_file(before.0, i as int));
                    let k = choose|k: int| 0 <= k < before.0.len() && is_file_row(#[trigger] before.0[k], i as int);
                    assert(t.0[k] == before.0[k]);
                } else {
                    assert(t.0[n1] == tail[0]);
                }
            }
        }
    }
}

// ---------------------------------------------------------------------------
// The cursor and the expanded directories
// ---------------------------------------------------------------------------
/// How the review lists its files.
#[derive(Clone, Copy, Debug, PartialEq, Eq, Structural)]
pub enum DiffFileLayout {
    Tree,
    Flat,
}

/// Whether two rows are the same entry: directories by path, files by index.
pub open spec fn same_entry(a: RowModel, b: RowModel) -> bool {
    match (a, b) {
        (RowModel::Directory { path: p, .. }, RowModel::Directory { path: q, .. }) => p == q,
        (RowModel::File { file_index: i, .. }, RowModel::File { file_index: j, .. }) => i == j,
        _ => false,
    }
}

/// The first row that is the same entry as `p`.
pub open spec fn first_same_entry(rows: Seq<RowModel>, p: RowModel) -> Option<int>
    decreases rows.len(),
{
    if rows.len() == 0 {
        None
    } else {
        match first_same_entry(rows.drop_last(), p) {
            Some(i) => Some(i),
            None => if same_entry(p, rows.last()) {
                Some(rows.len() - 1)
            } else {
                None
            },
        }
    }
}

/// The first row of file `s`.
pub open spec fn first_file_row(rows: Seq<RowModel>, s: int) -> Option<int>
    decreases rows.len(),
{
    if rows.len() == 0 {
        None
    } else {
        match first_file_row(rows.drop_last(), s) {
            Some(i) => Some(i),
            None => if is_file_row(rows.last(), s) {
                Some(rows.len() - 1)
            } else {
                None
            },
        }
    }
}

proof fn lemma_first_same_entry_here(rows: Seq<RowModel>, p: RowModel, r: Option<int>)
    requires
        r matches Some(i) ==> 0 <= i < rows.len() && same_entry(p, rows[i]) && forall|j: int| 0 <= j < i ==> !same_entry(p, #[trigger] rows[j]),
        r is None ==> forall|j: int| 0 <= j < rows.len() ==> !same_entry(p, #[trigger] rows[j]),
    ensures
        first_same_entry(rows, p) == r,
    decreases rows.len(),
{
    if rows.len() > 0 {
        let q = rows.drop_last();
        match r {
            Some(i) => if i < rows.len() - 1 {
                lemma_first_same_entry_here(q, p, Some(i));
            } else {
                lemma_first_same_entry_here(q, p, None);
            },
            None => lemma_first_same_entry_here(q, p, None),
        }
    }
}

proof fn lemma_first_file_row_here(rows: Seq<RowModel>, s: int, r: Option<int>)
    requires
        r matches Some(i) ==> 0 <= i < rows.len() && is_file_row(rows[i], s) && forall|j: int| 0 <= j < i ==> !is_file_row(#[trigger] rows[j], s),
        r is None ==> forall|j: int| 0 <= j < rows.len() ==> !is_file_row(#[trigger] rows[j], s),
    ensures
        first_file_row(rows, s) == r,
    decreases rows.len(),
{
    if rows.len() > 0 {
        let q = rows.drop_last();
        match r {
            Some(i) => if i < rows.len() - 1 {
                lemma_first_file_row_here(q, s, Some(i));
            } else {
                lemma_first_file_row_here(q, s, None);
            },
            None => lemma_first_file_row_here(q, s, None),
        }
    }
}

/// Where the cursor goes once the rows are rebuilt: onto the entry it was on,
/// else onto the selected file, else onto the first row.
pub open spec fn cursor_after_sync(previous: Option<RowModel>, rows: Seq<RowModel>, selected: Option<usize>) -> Option<int> {
    let by_previous = match previous {
        Some(p) => first_same_entry(rows, p),
        None => None,
    };
    let by_selection = match selected {
        Some(s) => first_file_row(rows, s as int),
        None => None,
    };
    if by_previous is Some {
        by_previous
    } else if by_selection is Some {
        by_selection
    } else if rows.len() > 0 {
        Some(0)
    } else {
        None
    }
}

fn same_entry_exec(a: &ReviewDiffTreeRow, b: &ReviewDiffTreeRow) -> (r: bool)
    ensures
        r == same_entry(a@, b@),
{
    match (a, b) {
        (ReviewDiffTreeRow::Directory { path: p, .. }, ReviewDiffTreeRow::Directory { path: q, .. }) => *p == *q,
        (ReviewDiffTreeRow::File { file_index: i, .. }, ReviewDiffTreeRow::File { file_index: j, .. }) => *i == *j,
        _ => false,
    }
}

fn find_same_entry(p: &ReviewDiffTreeRow, rows: &[ReviewDiffTreeRow]) -> (r: Option<usize>)
    ensures
        first_same_entry(row_models(rows@), p@) == match r {
            Some(i) => Some(i as int),
            None => None::<int>,
        },
        r matches Some(i) ==> i < rows@.len(),
{
    let ghost ms = row_models(rows@);
    let mut i: usize = 0;
    while i < rows.len()
        invariant
            i <= rows@.len(),
            ms == row_models(rows@),
            forall|j: int| 0 <= j < i ==> !same_entry(p@, #[trigger] ms[j]),
        decreases rows@.len() - i,
    {
        assert(ms[i as int] == rows@[i as int]@);
        if same_entry_exec(p, &rows[i]) {
            proof {
                lemma_first_same_entry_here(ms, p@, Some(i as int));
            }
            return Some(i);
        }
        i = i + 1;
    }
    proof {
        lemma_first_same_entry_here(ms, p@, None);
    }
    None
}

fn find_file_row(s: usize, rows: &[ReviewDiffTreeRow]) -> (r: Option<usize>)
    ensures
        first_file_row(row_models(rows@), s as int) == match r {
            Some(i) => Some(i as int),
            None => None::<int>,
        },
        r matches Some(i) ==> i < rows@.len(),
{
    let ghost ms = row_models(rows@);
    let mut i: usize = 0;
    while i < rows.len()
        invariant
            i <= rows@.len(),
            ms == row_models(rows@),
            forall|j: int| 0 <= j < i ==> !is_file_row(#[trigger] ms[j], s as int),
        decreases rows@.len() - i,
    {
        assert(ms[i as int] == rows@[i as int]@);
        let hit = match &rows[i] {
            ReviewDiffTreeRow::File { file_index, .. } => *file_index == s,
            _ => false,
        };
        if hit {
            proof {
                lemma_first_file_row_here(ms, s as int, Some(i as int));
            }
            return Some(i);
        }
        i = i + 1;
    }
    proof {
        lemma_first_file_row_here(ms, s as int, None);
    }
    None
}

/// Where the cursor goes once the rows are rebuilt (see
/// [`cursor_after_sync`]).
pub fn review_tree_cursor_after_sync(
    previous: Option<&ReviewDiffTreeRow>,
    rows: &[ReviewDiffTreeRow],
    selected_file: Option<usize>,
) -> (r: Option<usize>)
    ensures
        cursor_after_sync(
            match previous {
                Some(p) => Some(p@),
                None => None,
            },
            row_models(rows@),
            selected_file,
        ) == match r {
            Some(i) => Some(i as int),
            None => None::<int>,
        },
        r matches Some(i) ==> i < rows@.len(),
{
    if let Some(p) = previous {
        if let Some(i) = find_same_entry(p, rows) {
            return Some(i);
        }
    }
    if let Some(s) = selected_file {
        if let Some(i) = find_file_row(s, rows) {
            return Some(i);
        }
    }
    if rows.len() > 0 {
        Some(0)
    } else {
        None
    }
}

/// Expands a collapsed directory, collapses an expanded one.
pub fn toggle_right_panel_diff_directory(expanded: &mut Vec<String>, path: String)
    ensures
        path_set(final(expanded)@) == if path_set(old(expanded)@).contains(path@) {
            path_set(old(expanded)@).remove(path@)
        } else {
            path_set(old(expanded)@).insert(path@)
        },
{
    let ghost before = path_set(expanded@);
    let mut kept: Vec<String> = Vec::new();
    let mut removed = false;
    let mut i: usize = 0;
    while i < expanded.len()
        invariant
            i <= expanded@.len(),
            before == path_set(expanded@),
            path_set(kept@) == path_set(expanded@.take(i as int)).remove(path@),
            removed == path_set(expanded@.take(i as int)).contains(path@),
        decreases expanded@.len() - i,
    {
        let ghost prev = kept@;
        proof {
            assert forall|p: Seq<char>| path_set(expanded@.take(i + 1)).contains(p) == path_set(expanded@.take(i as int)).insert(expanded@[i as int]@).contains(p) by {
                if path_set(expanded@.take(i + 1)).contains(p) {
                    let j = choose|j: int| 0 <= j < expanded@.take(i + 1).len() && (#[trigger] expanded@.take(i + 1)[j])@ == p;
                    if j < i {
                        assert(expanded@.take(i as int)[j] == expanded@.take(i + 1)[j]);
                    }
                }
                if path_set(expanded@.take(i as int)).contains(p) {
                    let j = choose|j: int| 0 <= j < expanded@.take(i as int).len() && (#[trigger] expanded@.take(i as int)[j])@ == p;
                    assert(expanded@.take(i + 1)[j] == expanded@.take(i as int)[j]);
                }
                if p == expanded@[i as int]@ {
                    assert(expanded@.take(i + 1)[i as int] == expanded@[i as int]);
                }
            }
            assert(path_set(expanded@.take(i + 1)) =~= path_set(expanded@.take(i as int)).insert(expanded@[i as int]@));
        }
        if expanded[i] == path {
            removed = true;
        } else {
            kept.push(expanded[i].clone());
            proof {
                assert forall|p: Seq<char>| path_set(kept@).contains(p) == path_set(prev).insert(expanded@[i as int]@).contains(p) by {
                    if path_set(kept@).contains(p) {
                        let j = choose|j: int| 0 <= j < kept@.len() && (#[trigger] kept@[j])@ == p;
                        if j < prev.len() {
                            assert(prev[j] == kept@[j]);
                        }
                    }
                    if path_set(prev).contains(p) {
                        let j = choose|j: int| 0 <= j < prev.len() && (#[trigger] prev[j])@ == p;
                        assert(kept@[j] == prev[j]);
                    }
                    if p == expanded@[i as int]@ {
                        assert(kept@[prev.len() as int]@ == p);
                    }
                }
                assert(path_set(kept@) =~= path_set(prev).insert(expanded@[i as int]@));
            }
        }
        proof {
            assert(path_set(kept@) =~= path_set(expanded@.take(i + 1)).remove(path@));
        }
        i = i + 1;
    }
    proof {
        assert(expanded@.take(expanded@.len() as int) =~= expanded@);
    }
    if !removed {
        let ghost prev = kept@;
        kept.push(path);
        proof {
            assert forall|p: Seq<char>| path_set(kept@).contains(p) == path_set(prev).insert(kept@.last()@).contains(p) by {
                if path_set(kept@).contains(p) {
                    let j = choose|j: int| 0 <= j < kept@.len() && (#[trigger] kept@[j])@ == p;
                    if j < prev.len() {
                        assert(prev[j] == kept@[j]);
                    }
                }
                if path_set(prev).contains(p) {
                    let j = choose|j: int| 0 <= j < prev.len() && (#[trigger] prev[j])@ == p;
                    assert(kept@[j] == prev[j]);
                }
                if p == kept@.last()@ {
                    assert(kept@[prev.len() as int]@ == p);
                }
            }
            assert(path_set(kept@) =~= before.insert(kept@.last()@));
        }
    } else {
        assert(path_set(kept@) =~= before.remove(path@));
    }
    *expanded = kept;
}

/// Expands every directory unless all of them already are, in which case
/// collapses them all. Only in the tree layout.
pub fn toggle_right_panel_diff_directories(files: &[ReviewFile], layout: DiffFileLayout, expanded: &mut Vec<String>)
    ensures
        layout == DiffFileLayout::Flat ==> final(expanded)@ == old(expanded)@,
        layout == DiffFileLayout::Tree ==> path_set(final(expanded)@) == if directories_of(file_paths(files@)).subset_of(path_set(old(expanded)@)) {
            Set::<Seq<char>>::empty()
        } else {
            directories_of(file_paths(files@))
        },
{
    if layout == DiffFileLayout::Flat {
        return;
    }
    let directories = review_diff_directory_paths(files);
    let mut all_expanded = true;
    let mut i: usize = 0;
    while i < directories.len()
        invariant
            i <= directories@.len(),
            all_expanded == forall|j: int| 0 <= j < i ==> path_set(expanded@).contains(#[trigger] directories@[j]@),
        decreases directories@.len() - i,
    {
        if !holds_path(expanded.as_slice(), &directories[i]) {
            all_expanded = false;
        }
        i = i + 1;
    }
    proof {
        if all_expanded {
            assert forall|d: Seq<char>| path_set(directories@).contains(d) implies path_set(expanded@).contains(d) by {
                let j = choose|j: int| 0 <= j < directories@.len() && (#[trigger] directories@[j])@ == d;
            }
        } else {
            let j = choose|j: int| 0 <= j < directories@.len() && !path_set(expanded@).contains(#[trigger] directories@[j]@);
            assert(path_set(directories@).contains(directories@[j]@));
        }
    }
    if all_expanded {
        *expanded = Vec::new();
        assert(path_set(expanded@) =~= Set::<Seq<char>>::empty());
    } else {
        *expanded = directories;
    }
}

/// The directories left expanded once a refreshed review lands. Over an
/// earlier review (whose directories were `previous`), a directory stays
/// expanded while it is still there, and one that is new since opens
/// expanded; the first review opens every directory.
pub open spec fn expanded_after_refresh(
    expanded: Set<Seq<char>>,
    previous: Option<Set<Seq<char>>>,
    files: Seq<ReviewFile>,
) -> Set<Seq<char>> {
    let now = directories_of(file_paths(files));
    match previous {
        Some(before) => expanded.intersect(now).union(now.difference(before)),
        None => now,
    }
}

/// See [`expanded_after_refresh`].
pub fn review_expanded_after_refresh(
    expanded: &[String],
    previous_directories: Option<&[String]>,
    files: &[ReviewFile],
) -> (r: Vec<String>)
    ensures
        path_set(r@) == expanded_after_refresh(path_set(expanded@), match previous_directories {
            Some(p) => Some(path_set(p@)),
            None => None,
        }, files@),
{
    let current = review_diff_directory_paths(files);
    let before = match previous_directories {
        Some(p) => p,
        None => {
            return current;
        },
    };
    let ghost e = path_set(expanded@);
    let ghost b = path_set(before@);
    let ghost keep = |p: Seq<char>| e.contains(p) || !b.contains(p);
    let mut kept: Vec<String> = Vec::new();
    let mut i: usize = 0;
    while i < current.len()
        invariant
            i <= current@.len(),
            e == path_set(expanded@),
            b == path_set(before@),
            keep == (|p: Seq<char>| e.contains(p) || !b.contains(p)),
            path_set(kept@) == path_set(current@.take(i as int)).filter(keep),
        decreases current@.len() - i,
    {
        let ghost prev = kept@;
        let c = &current[i];
        let wanted = holds_path(expanded, c) || !holds_path(before, c);
        if wanted {
            kept.push(c.clone());
        }
        proof {
            let t0 = current@.take(i as int);
            let t1 = current@.take(i + 1);
            assert forall|p: Seq<char>| path_set(kept@).contains(p) == path_set(t1).filter(keep).contains(p) by {
                if path_set(kept@).contains(p) {
                    let j = choose|j: int| 0 <= j < kept@.len() && (#[trigger] kept@[j])@ == p;
                    if j < prev.len() {
                        assert(prev[j] == kept@[j]);
                        assert(path_set(prev).contains(p));
                        let k = choose|k: int| 0 <= k < t0.len() && (#[trigger] t0[k])@ == p;
                        assert(t1[k] == t0[k]);
                    } else {
                        assert(t1[i as int] == current@[i as int]);
                    }
                }
                if path_set(t1).filter(keep).contains(p) {
                    let k = choose|k: int| 0 <= k < t1.len() && (#[trigger] t1[k])@ == p;
                    if k < i {
                        assert(t0[k] == t1[k]);
                        assert(path_set(t0).contains(p));
                        assert(path_set(prev).contains(p));
                        let j = choose|j: int| 0 <= j < prev.len() && (#[trigger] prev[j])@ == p;
                        assert(kept@[j] == prev[j]);
                    } else {
                        assert(t1[k] == current@[i as int]);
                        assert(kept@.last() == current@[i as int]);
                    }
                }
            }
            assert(path_set(kept@) =~= path_set(t1).filter(keep));
        }
        i = i + 1;
    }
    proof {
        assert(current@.take(current@.len() as int) =~= current@);
        let now = path_set(current@);
        assert(path_set(kept@) =~= e.intersect(now).union(now.difference(b)));
    }
    kept
}

/// The first file with path `path`.
pub open spec fn file_with_path(files: Seq<ReviewFile>, path: Seq<char>) -> Option<int>
    decreases files.len(),
{
    if files.len() == 0 {
        None
    } else {
        match file_with_path(files.drop_last(), path) {
            Some(i) => Some(i),
            None => if files.last().path@ == path {
                Some(files.len() - 1)
            } else {
                None
            },
        }
    }
}

proof fn lemma_file_with_path_here(files: Seq<ReviewFile>, path: Seq<char>, r: Option<int>)
    requires
        r matches Some(i) ==> 0 <= i < files.len() && files[i].path@ == path && forall|j: int|
            0 <= j < i ==> (#[trigger] files[j]).path@ != path,
        r is None ==> forall|j: int| 0 <= j < files.len() ==> (#[trigger] files[j]).path@ != path,
    ensures
        file_with_path(files, path) == r,
    decreases files.len(),
{
    if files.len() > 0 {
        let p = files.drop_last();
        match r {
            Some(i) => if i < files.len() - 1 {
                lemma_file_with_path_here(p, path, Some(i));
            } else {
                lemma_file_with_path_here(p, path, None);
            },
            None => lemma_file_with_path_here(p, path, None),
        }
    }
}

/// The file selected once a refreshed review lands, given the path of the
/// file selected before: the file with that path, else the first, if any.
pub open spec fn selection_after(path: Option<Seq<char>>, files: Seq<ReviewFile>) -> Option<int> {
    let kept = match path {
        Some(p) => file_with_path(files, p),
        None => None,
    };
    match kept {
        Some(k) => Some(k),
        None => if files.len() > 0 {
            Some(0)
        } else {
            None
        },
    }
}

/// The path of the file selected in a review, if one is.
pub open spec fn selected_path(selected: Option<usize>, files: Option<Seq<ReviewFile>>) -> Option<Seq<char>> {
    match (selected, files) {
        (Some(i), Some(fs)) => if i < fs.len() {
            Some(fs[i as int].path@)
        } else {
            None
        },
        _ => None,
    }
}

/// The file selected once a refreshed review lands, given the file selected
/// in the earlier review (see [`selection_after`]).
pub open spec fn selected_after_refresh(
    selected: Option<usize>,
    previous: Option<Seq<ReviewFile>>,
    files: Seq<ReviewFile>,
) -> Option<int> {
    selection_after(selected_path(selected, previous), files)
}

/// See [`selection_after`].
pub(crate) fn select_by_path(path: Option<&String>, files: &[ReviewFile]) -> (r: Option<usize>)
    ensures
        selection_after(
            match path {
                Some(p) => Some(p@),
                None => None,
            },
            files@,
        ) == match r {
            Some(i) => Some(i as int),
            None => None::<int>,
        },
        r matches Some(i) ==> i < files@.len(),
{
    if let Some(wanted) = path {
        let mut k: usize = 0;
        while k < files.len()
            invariant
                k <= files@.len(),
                path == Some(wanted),
                forall|j: int| 0 <= j < k ==> (#[trigger] files@[j]).path@ != wanted@,
            decreases files@.len() - k,
        {
            if files[k].path == *wanted {
                proof {
                    lemma_file_with_path_here(files@, wanted@, Some(k as int));
                }
                return Some(k);
            }
            k = k + 1;
        }
        proof {
            lemma_file_with_path_here(files@, wanted@, None);
        }
    }
    if files.len() > 0 {
        Some(0)
    } else {
        None
    }
}

/// See [`selected_after_refresh`].
pub fn review_selected_after_refresh(
    selected: Option<usize>,
    previous: Option<&[ReviewFile]>,
    files: &[ReviewFile],
) -> (r: Option<usize>)
    ensures
        selected_after_refresh(selected, match previous {
            Some(p) => Some(p@),
            None => None,
        }, files@) == match r {
            Some(i) => Some(i as int),
            None => None::<int>,
        },
{
    let path = match (selected, previous) {
        (Some(i), Some(before)) => if i < before.len() {
            Some(&before[i].path)
        } else {
            None
        },
        _ => None,
    };
    select_by_path(path, files)
}

/// Whether `rows` is the tree of the files the filter passes, over the
/// expanded directories (see [`tree_rows_of`]).
pub open spec fn tree_listing(files: Seq<ReviewFile>, expanded: Set<Seq<char>>, filter: Seq<char>, rows: Seq<RowModel>) -> bool {
    exists|order: Seq<usize>|
        #[trigger] listed_in_order(file_paths(files), filter_key(filter), order) && rows == tree_rows_of(
            file_paths(files),
            order,
            expanded,
            filter_key(filter).len() > 0,
        ).0
}

/// Whether `rows` is the flat list of the files the filter passes.
pub open spec fn flat_listing(files: Seq<ReviewFile>, filter: Seq<char>, rows: Seq<RowModel>) -> bool {
    exists|order: Seq<usize>|
        #[trigger] listed_in_order(file_paths(files), filter_key(filter), order) && rows == flat_rows_of(order)
}

/// The review's file list and cursor after a rebuild (see
/// [`sync_right_panel_diff_tree_rows`]).
pub open spec fn rows_synced(
    files: Option<Seq<ReviewFile>>,
    layout: DiffFileLayout,
    expanded: Set<Seq<char>>,
    filter: Seq<char>,
    previous: Option<RowModel>,
    selected: Option<usize>,
    rows: Seq<RowModel>,
    cursor: Option<usize>,
) -> bool {
    &&& match files {
        None => rows.len() == 0,
        Some(fs) => match layout {
            DiffFileLayout::Tree => tree_listing(fs, expanded, filter, rows),
            DiffFileLayout::Flat => flat_listing(fs, filter, rows),
        },
    }
    &&& cursor_after_sync(previous, rows, selected) == match cursor {
        Some(i) => Some(i as int),
        None => None::<int>,
    }
    &&& cursor matches Some(i) ==> i < rows.len()
}

/// The row at `cursor`, if there is one.
pub open spec fn row_at(rows: Seq<ReviewDiffTreeRow>, cursor: Option<usize>) -> Option<RowModel> {
    match cursor {
        Some(i) => if i < rows.len() {
            Some(rows[i as int]@)
        } else {
            None
        },
        None => None,
    }
}

/// Rebuilds the review's file list for `layout` and the filter, keeping
/// the cursor on the entry it was on (`previous_rows[previous_cursor]`),
/// else on the selected file, else on the first row (see
/// [`cursor_after_sync`]).
pub fn sync_right_panel_diff_tree_rows(
    files: Option<&[ReviewFile]>,
    layout: DiffFileLayout,
    expanded_paths: &[String],
    filter: &str,
    previous_rows: &[ReviewDiffTreeRow],
    previous_cursor: Option<usize>,
    selected_file: Option<usize>,
) -> (r: (Vec<ReviewDiffTreeRow>, Option<usize>))
    ensures
        rows_synced(
            match files {
                Some(f) => Some(f@),
                None => None,
            },
            layout,
            path_set(expanded_paths@),
            filter@,
            row_at(previous_rows@, previous_cursor),
            selected_file,
            row_models(r.0@),
            r.1,
        ),
{
    let rows = match files {
        None => Vec::new(),
        Some(fs) => match layout {
            DiffFileLayout::Tree => review_diff_tree_rows(fs, expanded_paths, filter),
            DiffFileLayout::Flat => review_diff_flat_rows(fs, filter),
        },
    };
    let previous = match previous_cursor {
        Some(i) => if i < previous_rows.len() {
            Some(&previous_rows[i])
        } else {
            None
        },
        None => None,
    };
    let cursor = review_tree_cursor_after_sync(previous, rows.as_slice(), selected_file);
    proof {
        let fv = match files {
            Some(f) => Some(f@),
            None => None,
        };
        if let Some(f) = files {
            assert(fv == Some(f@));
            let paths = file_paths(f@);
            let key = filter_key(filter@);
            if layout == DiffFileLayout::Tree {
                let order = choose|o: Seq<usize>| #[trigger] listed_in_order(paths, key, o)
                    && row_models(rows@) == tree_rows_of(paths, o, path_set(expanded_paths@), key.len() > 0).0;
                assert(listed_in_order(paths, key, order));
                assert(tree_listing(f@, path_set(expanded_paths@), filter@, row_models(rows@)));
            } else {
                let order = choose|o: Seq<usize>| #[trigger] listed_in_order(paths, key, o)
                    && row_models(rows@) == flat_rows_of(o);
                assert(listed_in_order(paths, key, order));
                assert(flat_listing(f@, filter@, row_models(rows@)));
            }
        }
        assert(rows_synced(
            fv,
            layout,
            path_set(expanded_paths@),
            filter@,
            row_at(previous_rows@, previous_cursor),
            selected_file,
            row_models(rows@),
            cursor,
        ));
    }
    (rows, cursor)
}

} // verus!
