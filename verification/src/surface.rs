//! The surfaces the right panel shows as tabs, and what each tab shows.
use vstd::prelude::*;
use vstd::utf8::*;
use crate::text::{utf8, chars_of, push_char, is_whitespace, is_whitespace_char, rfind_char,
    string_from_char_range};
use crate::inline_file::last_pos;
use crate::links::lemma_last_pos_here;
use crate::icons::{file_name_of, icon_for_path, file_icon_for_path, path_file_name};

verus! {

broadcast use vstd::utf8::encode_utf8_decode_utf8;

/// Draws a random version-4 UUID (`uuid::Uuid::new_v4`) and gives its
/// 128-bit value. The value is random: nothing is stated of it.
#[verifier::external_body]
fn random_surface_id() -> u128 {
    uuid::Uuid::new_v4().as_u128()
}

/// What kind of background work a tab follows.
#[derive(Clone, Copy, Debug, PartialEq, Eq, Structural, Hash)]
pub enum BackgroundWorkKind {
    Process,
    Monitor,
    Subagent,
}

/// Identifies one piece of background work: its kind and its id.
#[derive(Debug, PartialEq, Eq)]
pub struct BackgroundWorkKey {
    pub kind: BackgroundWorkKind,
    pub id: String,
}

impl BackgroundWorkKey {
    pub fn new(kind: BackgroundWorkKind, id: &str) -> (k: Self)
        ensures
            k.kind == kind,
            k.id@ == id@,
    {
        BackgroundWorkKey { kind, id: id.to_owned() }
    }

    /// Whether both keys name the same work.
    pub fn same_work(&self, other: &Self) -> (r: bool)
        ensures
            r == (self.kind == other.kind && self.id@ == other.id@),
    {
        self.kind == other.kind && self.id == other.id
    }
}

impl Clone for BackgroundWorkKey {
    fn clone(&self) -> (r: Self)
        ensures
            r == *self,
    {
        BackgroundWorkKey { kind: self.kind, id: self.id.clone() }
    }
}

/// One tab of the right panel.
#[derive(Debug, PartialEq, Eq)]
pub enum RightPanelSurface {
    Browser(u128),
    Terminal(u128),
    BackgroundWork { key: BackgroundWorkKey, title: String },
    /// The working-tree browser.
    Files,
    /// The review of a diff.
    Diff,
    /// One file, by its workspace-relative path.
    File(String),
}

/// A surface as a value: strings by their characters.
pub enum SurfaceModel {
    Browser(u128),
    Terminal(u128),
    BackgroundWork { kind: BackgroundWorkKind, id: Seq<char>, title: Seq<char> },
    Files,
    Diff,
    File(Seq<char>),
}

impl View for RightPanelSurface {
    type V = SurfaceModel;

    open spec fn view(&self) -> SurfaceModel {
        match self {
            RightPanelSurface::Browser(id) => SurfaceModel::Browser(*id),
            RightPanelSurface::Terminal(id) => SurfaceModel::Terminal(*id),
            RightPanelSurface::BackgroundWork { key, title } => SurfaceModel::BackgroundWork {
                kind: key.kind,
                id: key.id@,
                title: title@,
            },
            RightPanelSurface::Files => SurfaceModel::Files,
            RightPanelSurface::Diff => SurfaceModel::Diff,
            RightPanelSurface::File(path) => SurfaceModel::File(path@),
        }
    }
}

impl Clone for RightPanelSurface {
    fn clone(&self) -> (r: Self)
        ensures
            r == *self,
    {
        match self {
            RightPanelSurface::Browser(id) => RightPanelSurface::Browser(*id),
            RightPanelSurface::Terminal(id) => RightPanelSurface::Terminal(*id),
            RightPanelSurface::BackgroundWork { key, title } => RightPanelSurface::BackgroundWork {
                key: key.clone(),
                title: title.clone(),
            },
            RightPanelSurface::Files => RightPanelSurface::Files,
            RightPanelSurface::Diff => RightPanelSurface::Diff,
            RightPanelSurface::File(path) => RightPanelSurface::File(path.clone()),
        }
    }
}

/// The surfaces of a tab strip, as values.
pub open spec fn models(v: Seq<RightPanelSurface>) -> Seq<SurfaceModel> {
    v.map_values(|s: RightPanelSurface| s@)
}

/// What follows the last `/` of a path (all of it when there is none).
pub open spec fn after_last_slash(p: Seq<char>) -> Seq<char> {
    match last_pos(p, '/') {
        Some(k) => p.skip(k + 1),
        None => p,
    }
}

/// The name shown for a kind of background work that has no title.
pub open spec fn work_kind_label(kind: BackgroundWorkKind) -> Seq<char> {
    match kind {
        BackgroundWorkKind::Process => "Process"@,
        BackgroundWorkKind::Monitor => "Monitor"@,
        BackgroundWorkKind::Subagent => "Subagent"@,
    }
}

/// The icon of a kind of background work.
pub open spec fn work_kind_icon_of(kind: BackgroundWorkKind) -> Seq<char> {
    match kind {
        BackgroundWorkKind::Process => "icons/square-terminal.svg"@,
        BackgroundWorkKind::Monitor => "icons/activity.svg"@,
        BackgroundWorkKind::Subagent => "icons/bot.svg"@,
    }
}

/// A surface's own label: background work by its title (its kind when the
/// title is empty), a file by the last segment of its path. Fixed labels are
/// the English text of the window's default language.
pub open spec fn surface_label(s: SurfaceModel) -> Seq<char> {
    match s {
        SurfaceModel::Browser(_) => "Browser"@,
        SurfaceModel::Terminal(_) => "Terminal"@,
        SurfaceModel::BackgroundWork { kind, title, .. } => if title.len() == 0 {
            work_kind_label(kind)
        } else {
            title
        },
        SurfaceModel::Files => "Files"@,
        SurfaceModel::Diff => "Review"@,
        SurfaceModel::File(p) => after_last_slash(p),
    }
}

/// A surface's own icon; a file's follows its name.
pub open spec fn surface_icon(s: SurfaceModel) -> Seq<char> {
    match s {
        SurfaceModel::Browser(_) => "icons/globe.svg"@,
        SurfaceModel::Terminal(_) => "icons/terminal.svg"@,
        SurfaceModel::BackgroundWork { kind, .. } => work_kind_icon_of(kind),
        SurfaceModel::Files => "icons/folder.svg"@,
        SurfaceModel::Diff => "icons/file-diff.svg"@,
        SurfaceModel::File(p) => icon_for_path(p),
    }
}

/// The keyboard shortcut that opens a surface, as its macOS and its other
/// spelling.
pub open spec fn shortcut_of(s: SurfaceModel) -> Option<(Seq<char>, Seq<char>)> {
    match s {
        SurfaceModel::Browser(_) => Some(("⌥⌘B"@, "Ctrl+Alt+B"@)),
        SurfaceModel::Terminal(_) => Some(("⌘T"@, "Ctrl+T"@)),
        SurfaceModel::Files => Some(("⇧⌘E"@, "Ctrl+Shift+E"@)),
        SurfaceModel::Diff => Some(("⌘D"@, "Ctrl+D"@)),
        _ => None,
    }
}

/// Whether a surface counts toward the fullscreen expand button: browser,
/// terminal, files, a file or review. Background work never does.
pub open spec fn is_expandable(s: SurfaceModel) -> bool {
    !(s is BackgroundWork)
}

/// A surface that opens again in the tab already showing `candidate`:
/// background work by its key, files, review and a file by equality. A
/// browser or a terminal always opens a new tab.
pub open spec fn reuses(candidate: SurfaceModel, requested: SurfaceModel) -> bool {
    match requested {
        SurfaceModel::Browser(_) => false,
        SurfaceModel::Terminal(_) => false,
        SurfaceModel::BackgroundWork { kind, id, .. } => match candidate {
            SurfaceModel::BackgroundWork { kind: k, id: i, .. } => k == kind && i == id,
            _ => false,
        },
        _ => candidate == requested,
    }
}

impl RightPanelSurface {
    /// A new browser tab with a fresh id.
    pub fn new_browser() -> (s: Self)
        ensures
            s@ is Browser,
    {
        RightPanelSurface::Browser(random_surface_id())
    }

    /// A new terminal tab with a fresh id.
    pub fn new_terminal() -> (s: Self)
        ensures
            s@ is Terminal,
    {
        RightPanelSurface::Terminal(random_surface_id())
    }

    pub fn terminal_id(&self) -> (r: Option<u128>)
        ensures
            r == match self@ {
                SurfaceModel::Terminal(id) => Some(id),
                _ => None,
            },
    {
        match self {
            RightPanelSurface::Terminal(id) => Some(*id),
            _ => None,
        }
    }

    pub fn browser_id(&self) -> (r: Option<u128>)
        ensures
            r == match self@ {
                SurfaceModel::Browser(id) => Some(id),
                _ => None,
            },
    {
        match self {
            RightPanelSurface::Browser(id) => Some(*id),
            _ => None,
        }
    }

    /// Whether two surfaces are the same value.
    pub fn same_as(&self, other: &Self) -> (r: bool)
        ensures
            r == (self@ == other@),
    {
        match (self, other) {
            (RightPanelSurface::Browser(a), RightPanelSurface::Browser(b)) => *a == *b,
            (RightPanelSurface::Terminal(a), RightPanelSurface::Terminal(b)) => *a == *b,
            (
                RightPanelSurface::BackgroundWork { key: ka, title: ta },
                RightPanelSurface::BackgroundWork { key: kb, title: tb },
            ) => ka.same_work(kb) && *ta == *tb,
            (RightPanelSurface::Files, RightPanelSurface::Files) => true,
            (RightPanelSurface::Diff, RightPanelSurface::Diff) => true,
            (RightPanelSurface::File(a), RightPanelSurface::File(b)) => *a == *b,
            _ => false,
        }
    }

    pub fn label(&self) -> (r: String)
        ensures
            r@ == surface_label(self@),
    {
        match self {
            RightPanelSurface::Browser(_) => "Browser".to_owned(),
            RightPanelSurface::Terminal(_) => "Terminal".to_owned(),
            RightPanelSurface::BackgroundWork { key, title } => {
                if title.as_str().is_empty() {
                    match key.kind {
                        BackgroundWorkKind::Process => "Process".to_owned(),
                        BackgroundWorkKind::Monitor => "Monitor".to_owned(),
                        BackgroundWorkKind::Subagent => "Subagent".to_owned(),
                    }
                } else {
                    title.clone()
                }
            },
            RightPanelSurface::Files => "Files".to_owned(),
            RightPanelSurface::Diff => "Review".to_owned(),
            RightPanelSurface::File(path) => {
                let cs = chars_of(path.as_str());
                let found = rfind_char(&cs, 0, cs.len(), '/');
                proof {
                    lemma_last_pos_here(cs@, '/', match found {
                        Some(k) => Some(k as int),
                        None => None,
                    });
                }
                let start = match found {
                    Some(k) => k + 1,
                    None => 0,
                };
                assert(cs@.subrange(start as int, cs@.len() as int) =~= cs@.skip(start as int));
                string_from_char_range(&cs, start, cs.len())
            },
        }
    }

    pub fn icon_path(&self) -> (r: &'static str)
        ensures
            r@ == surface_icon(self@),
    {
        match self {
            RightPanelSurface::Browser(_) => "icons/globe.svg",
            RightPanelSurface::Terminal(_) => "icons/terminal.svg",
            RightPanelSurface::BackgroundWork { key, .. } => work_kind_icon(key.kind),
            RightPanelSurface::Files => "icons/folder.svg",
            RightPanelSurface::Diff => "icons/file-diff.svg",
            RightPanelSurface::File(path) => file_icon_for_path(path.as_str()),
        }
    }

    /// The shortcut that opens this surface, as its macOS and its other
    /// spelling; the platform picks one.
    pub fn shortcut(&self) -> (r: Option<(&'static str, &'static str)>)
        ensures
            match r {
                Some((mac, other)) => shortcut_of(self@) == Some((mac@, other@)),
                None => shortcut_of(self@) is None,
            },
    {
        match self {
            RightPanelSurface::Browser(_) => Some(("⌥⌘B", "Ctrl+Alt+B")),
            RightPanelSurface::Terminal(_) => Some(("⌘T", "Ctrl+T")),
            RightPanelSurface::Files => Some(("⇧⌘E", "Ctrl+Shift+E")),
            RightPanelSurface::Diff => Some(("⌘D", "Ctrl+D")),
            _ => None,
        }
    }

    /// Whether this surface counts toward the fullscreen expand button.
    pub fn is_expandable(&self) -> (r: bool)
        ensures
            r == is_expandable(self@),
    {
        !matches!(self, RightPanelSurface::BackgroundWork { .. })
    }
}

/// The icon of a kind of background work.
pub fn work_kind_icon(kind: BackgroundWorkKind) -> (r: &'static str)
    ensures
        r@ == work_kind_icon_of(kind),
{
    match kind {
        BackgroundWorkKind::Process => "icons/square-terminal.svg",
        BackgroundWorkKind::Monitor => "icons/activity.svg",
        BackgroundWorkKind::Subagent => "icons/bot.svg",
    }
}

/// The words of `cs` (its maximal runs of non-whitespace) joined by single
/// spaces: a title shown on one line.
pub open spec fn single_line(cs: Seq<char>) -> Seq<char>
    decreases cs.len(),
{
    if cs.len() == 0 {
        seq![]
    } else {
        let p = cs.drop_last();
        let c = cs.last();
        if is_whitespace(c) {
            single_line(p)
        } else if p.len() > 0 && is_whitespace(p.last()) && single_line(p).len() > 0 {
            single_line(p).push(' ').push(c)
        } else {
            single_line(p).push(c)
        }
    }
}

/// A label with every run of whitespace, line breaks included, turned into
/// one space and none at either end.
pub fn single_line_label(label: &str) -> (r: String)
    ensures
        r@ == single_line(label@),
{
    let cs = chars_of(label);
    let mut out = String::new();
    let mut after_space = false;
    let mut nonempty = false;
    let mut i: usize = 0;
    assert(cs@.take(0) =~= Seq::<char>::empty());
    while i < cs.len()
        invariant
            i <= cs@.len(),
            out@ == single_line(cs@.take(i as int)),
            after_space == (i > 0 && is_whitespace(cs@[i - 1])),
            nonempty == (out@.len() > 0),
        decreases cs@.len() - i,
    {
        let c = cs[i];
        assert(cs@.take(i + 1).drop_last() =~= cs@.take(i as int));
        if is_whitespace_char(c) {
            after_space = true;
        } else {
            if after_space && nonempty {
                push_char(&mut out, ' ');
            }
            push_char(&mut out, c);
            nonempty = true;
            after_space = false;
        }
        i = i + 1;
    }
    assert(cs@.take(cs@.len() as int) =~= cs@);
    out
}

/// The file name of a path, as characters.
pub open spec fn file_name_chars(p: Seq<char>) -> Option<Seq<char>> {
    match file_name_of(utf8(p)) {
        Some(f) => Some(decode_utf8(f)),
        None => None,
    }
}

/// What a tab is titled: the files browser by the name of the file it has
/// selected (`Files` when none), any other surface by its own label; on one
/// line either way.
pub open spec fn tab_label_of(s: SurfaceModel, selected: Option<Seq<char>>) -> Seq<char> {
    single_line(
        match s {
            SurfaceModel::Files => match selected {
                Some(p) => match file_name_chars(p) {
                    Some(n) => if n.len() > 0 {
                        n
                    } else {
                        "Files"@
                    },
                    None => "Files"@,
                },
                None => "Files"@,
            },
            _ => surface_label(s),
        },
    )
}

/// The characters of an optional string.
pub open spec fn opt_view(o: Option<&str>) -> Option<Seq<char>> {
    match o {
        Some(s) => Some(s@),
        None => None,
    }
}

/// The title of a surface's tab.
pub fn right_panel_tab_label(surface: &RightPanelSurface, files_selected_path: Option<&str>) -> (r:
    String)
    ensures
        r@ == tab_label_of(surface@, opt_view(files_selected_path)),
{
    let label = match surface {
        RightPanelSurface::Files => match files_selected_path {
            Some(path) => match path_file_name(path) {
                Some(name) => {
                    if name.is_empty() {
                        "Files".to_owned()
                    } else {
                        name.to_owned()
                    }
                },
                None => "Files".to_owned(),
            },
            None => "Files".to_owned(),
        },
        _ => surface.label(),
    };
    single_line_label(label.as_str())
}

/// The icon of a surface's tab: the files browser shows the icon of the file
/// it has selected.
pub fn right_panel_tab_icon(surface: &RightPanelSurface, files_selected_path: Option<&str>) -> (r:
    &'static str)
    ensures
        r@ == match (surface@, files_selected_path) {
            (SurfaceModel::Files, Some(p)) => icon_for_path(p@),
            _ => surface_icon(surface@),
        },
{
    match surface {
        RightPanelSurface::Files => match files_selected_path {
            Some(path) => file_icon_for_path(path),
            None => surface.icon_path(),
        },
        _ => surface.icon_path(),
    }
}

/// The first of `ms` that [`reuses`] `req`.
pub open spec fn first_reuse(ms: Seq<SurfaceModel>, req: SurfaceModel) -> Option<int>
    decreases ms.len(),
{
    if ms.len() == 0 {
        None
    } else {
        match first_reuse(ms.drop_last(), req) {
            Some(i) => Some(i),
            None => if reuses(ms.last(), req) {
                Some(ms.len() - 1)
            } else {
                None
            },
        }
    }
}

proof fn lemma_first_reuse_here(ms: Seq<SurfaceModel>, req: SurfaceModel, r: Option<int>)
    requires
        r matches Some(i) ==> 0 <= i < ms.len() && reuses(ms[i], req) && forall|j: int|
            0 <= j < i ==> !reuses(#[trigger] ms[j], req),
        r is None ==> forall|j: int| 0 <= j < ms.len() ==> !reuses(#[trigger] ms[j], req),
    ensures
        first_reuse(ms, req) == r,
    decreases ms.len(),
{
    if ms.len() > 0 {
        let p = ms.drop_last();
        match r {
            Some(i) => if i < ms.len() - 1 {
                lemma_first_reuse_here(p, req, Some(i));
            } else {
                lemma_first_reuse_here(p, req, None);
            },
            None => lemma_first_reuse_here(p, req, None),
        }
    }
}

/// The first tab that reuses `req` does reuse it.
pub proof fn lemma_first_reuse_found(ms: Seq<SurfaceModel>, req: SurfaceModel)
    requires
        first_reuse(ms, req) is Some,
    ensures
        0 <= first_reuse(ms, req)->0 < ms.len(),
        reuses(ms[first_reuse(ms, req)->0], req),
    decreases ms.len(),
{
    if ms.len() > 0 && first_reuse(ms.drop_last(), req) is Some {
        lemma_first_reuse_found(ms.drop_last(), req);
    }
}

/// No tab reuses `req`: then there is no first one.
pub proof fn lemma_no_reuse(ms: Seq<SurfaceModel>, req: SurfaceModel)
    requires
        forall|j: int| 0 <= j < ms.len() ==> !reuses(#[trigger] ms[j], req),
    ensures
        first_reuse(ms, req) is None,
{
    lemma_first_reuse_here(ms, req, None);
}

/// Where a requested surface already has a tab it should reuse: the first
/// tab that [`reuses`] it. A browser or a terminal never reuses one.
pub fn reusable_surface_index(surfaces: &[RightPanelSurface], requested: &RightPanelSurface) -> (r:
    Option<usize>)
    ensures
        match r {
            Some(i) => i < surfaces@.len() && reuses(surfaces@[i as int]@, requested@) && forall|j: int|
                0 <= j < i ==> !reuses(#[trigger] surfaces@[j]@, requested@),
            None => forall|j: int|
                0 <= j < surfaces@.len() ==> !reuses(#[trigger] surfaces@[j]@, requested@),
        },
        first_reuse(models(surfaces@), requested@) == match r {
            Some(i) => Some(i as int),
            None => None::<int>,
        },
{
    let r = reuse_scan(surfaces, requested);
    proof {
        let ms = models(surfaces@);
        assert(forall|j: int| 0 <= j < surfaces@.len() ==> #[trigger] ms[j] == surfaces@[j]@);
        lemma_first_reuse_here(ms, requested@, match r {
            Some(i) => Some(i as int),
            None => None::<int>,
        });
    }
    r
}

fn reuse_scan(surfaces: &[RightPanelSurface], requested: &RightPanelSurface) -> (r: Option<usize>)
    ensures
        match r {
            Some(i) => i < surfaces@.len() && reuses(surfaces@[i as int]@, requested@) && forall|j: int|
                0 <= j < i ==> !reuses(#[trigger] surfaces@[j]@, requested@),
            None => forall|j: int|
                0 <= j < surfaces@.len() ==> !reuses(#[trigger] surfaces@[j]@, requested@),
        },
{
    if matches!(requested, RightPanelSurface::Browser(_) | RightPanelSurface::Terminal(_)) {
        return None;
    }
    let mut i: usize = 0;
    while i < surfaces.len()
        invariant
            i <= surfaces@.len(),
            !(requested@ is Browser) && !(requested@ is Terminal),
            forall|j: int| 0 <= j < i ==> !reuses(#[trigger] surfaces@[j]@, requested@),
        decreases surfaces@.len() - i,
    {
        let hit = match requested {
            RightPanelSurface::BackgroundWork { key, .. } => match &surfaces[i] {
                RightPanelSurface::BackgroundWork { key: candidate, .. } => candidate.same_work(key),
                _ => false,
            },
            _ => surfaces[i].same_as(requested),
        };
        if hit {
            return Some(i);
        }
        i = i + 1;
    }
    None
}

/// The fullscreen tab order: the conversation (`None`) first, then every
/// surface index in tab-strip order.
pub fn fullscreen_tab_order(surface_count: usize) -> (r: Vec<Option<usize>>)
    requires
        surface_count < usize::MAX,
    ensures
        r@.len() == surface_count + 1,
        r@[0] == None::<usize>,
        forall|i: int| 1 <= i <= surface_count ==> #[trigger] r@[i] == Some((i - 1) as usize),
{
    let mut order: Vec<Option<usize>> = Vec::new();
    order.push(None);
    let mut i: usize = 0;
    while i < surface_count
        invariant
            i <= surface_count,
            order@.len() == i + 1,
            order@[0] == None::<usize>,
            forall|k: int| 1 <= k <= i ==> #[trigger] order@[k] == Some((k - 1) as usize),
        decreases surface_count - i,
    {
        order.push(Some(i));
        i = i + 1;
    }
    order
}

/// The position after `position` when cycling `direction` steps over the
/// conversation and `surface_count` surfaces, wrapping both ways.
pub open spec fn cycle_next_of(position: int, surface_count: int, direction: int) -> int {
    (position + direction) % (surface_count + 1)
}

/// The next position when cycling the fullscreen order; wraps both ways.
pub fn fullscreen_cycle_next(position: usize, surface_count: usize, direction: isize) -> (r: usize)
    requires
        position <= isize::MAX,
        surface_count < isize::MAX,
        isize::MIN <= position + direction <= isize::MAX,
    ensures
        r == cycle_next_of(position as int, surface_count as int, direction as int),
{
    let len: u128 = surface_count as u128 + 1;
    let pos: u128 = position as u128;
    if direction >= 0 {
        let sum: u128 = pos + direction as u128;
        let r = sum % len;
        r as usize
    } else {
        let mag: u128 = (-(direction as i128)) as u128;
        if mag <= pos {
            let r = (pos - mag) % len;
            r as usize
        } else {
            let w: u128 = mag - pos;
            let m = w % len;
            proof {
                let q = w as int / len as int;
                assert(w as int == q * len + m) by {
                    vstd::arithmetic::div_mod::lemma_fundamental_div_mod(w as int, len as int);
                }
                if m == 0 {
                    assert(-(w as int) == (-q) * len + 0) by (nonlinear_arith)
                        requires w as int == q * len + m, m == 0;
                    vstd::arithmetic::div_mod::lemma_fundamental_div_mod_converse(
                        -(w as int),
                        len as int,
                        -q,
                        0,
                    );
                } else {
                    assert(-(w as int) == (-q - 1) * len + (len - m)) by (nonlinear_arith)
                        requires w as int == q * len + m;
                    vstd::arithmetic::div_mod::lemma_fundamental_div_mod_converse(
                        -(w as int),
                        len as int,
                        -q - 1,
                        len - m,
                    );
                }
            }
            if m == 0 {
                0
            } else {
                (len - m) as usize
            }
        }
    }
}

/// Where `steps` cycles of `direction` each lead from `position`.
pub open spec fn cycle_steps(position: int, surface_count: int, direction: int, steps: nat) -> int
    decreases steps,
{
    if steps == 0 {
        position
    } else {
        cycle_next_of(
            cycle_steps(position, surface_count, direction, (steps - 1) as nat),
            surface_count,
            direction,
        )
    }
}

/// Cycling one way and then back the same amount returns to where it
/// started.
pub proof fn law_cycle_back_returns(position: int, surface_count: int, direction: int)
    requires
        0 <= position <= surface_count,
    ensures
        cycle_next_of(
            cycle_next_of(position, surface_count, direction),
            surface_count,
            -direction,
        ) == position,
{
    let m = surface_count + 1;
    let x = position + direction;
    vstd::arithmetic::div_mod::lemma_add_mod_noop_right(-direction, x, m);
    assert(-direction + x == position);
    vstd::arithmetic::div_mod::lemma_small_mod(position as nat, m as nat);
}

/// Cycling forward visits every position in order, and after as many steps
/// as there are tabs (the conversation and each surface) it is back where it
/// started.
pub proof fn law_cycle_forward_covers_all(position: int, surface_count: int, steps: nat)
    requires
        0 <= position <= surface_count,
    ensures
        cycle_steps(position, surface_count, 1, steps) == (position + steps) % (surface_count + 1),
        cycle_steps(position, surface_count, 1, (surface_count + 1) as nat) == position,
{
    let m = surface_count + 1;
    lemma_cycle_forward(position, surface_count, steps);
    lemma_cycle_forward(position, surface_count, m as nat);
    vstd::arithmetic::div_mod::lemma_mod_add_multiples_vanish(position, m);
    assert(m + position == position + m);
    vstd::arithmetic::div_mod::lemma_small_mod(position as nat, m as nat);
}

proof fn lemma_cycle_forward(position: int, surface_count: int, steps: nat)
    requires
        0 <= position <= surface_count,
    ensures
        cycle_steps(position, surface_count, 1, steps) == (position + steps) % (surface_count + 1),
    decreases steps,
{
    let m = surface_count + 1;
    if steps > 0 {
        lemma_cycle_forward(position, surface_count, (steps - 1) as nat);
        let prev = position + steps - 1;
        vstd::arithmetic::div_mod::lemma_add_mod_noop_right(1, prev, m);
        assert(prev % m + 1 == 1 + prev % m);
        assert(1 + prev == position + steps);
    } else {
        vstd::arithmetic::div_mod::lemma_small_mod(position as nat, m as nat);
    }
}

} // verus!
