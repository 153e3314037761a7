//! The front-end's state: the list of maps, their statuses, the counters, and
//! how the messages of a processing run change them.
use vstd::prelude::*;
use crate::assets::views;
use crate::path::{entries, split_entries};
use crate::text::{chars_of, eq_chars, last_index_before, rfind_before, string_of_range};

verus! {

/// The overall state of a processing run.
pub enum ProcessingStatus {
    Idle,
    ScanMap(usize),
    SearchAssets,
    CopyAssets,
    CopyError(String),
    Completed,
    Cancelled,
    ProcessingError(String),
}

/// Why a map ended with a warning.
#[derive(Clone, Copy, PartialEq, Eq, Structural, Debug)]
pub enum WarningReason {
    NotFoundAssets,
    Unknown,
}

/// The state of one map in the list.
pub enum MapStatus {
    Pending,
    Processing,
    Warning(WarningReason),
    Error(String),
    Completed,
}

/// A map file in the list.
pub struct MapFile {
    pub path: String,
    pub name: String,
    pub status: MapStatus,
    pub is_vmf: bool,
}

/// The settings that persist between sessions.
pub struct StorageSettings {
    pub game_dir: String,
    pub output_dir: String,
    pub maps: Vec<MapFile>,
}

/// Counters shown by the front-end.
pub struct InternalData {
    pub unique_assets: u32,
    pub assets_found: u32,
    pub unique_assets_ui: u32,
    pub assets_found_ui: u32,
    pub theme_was_changed: bool,
}

/// A message from a processing run to the front-end.
pub enum ProcessingMessage {
    SetProcessingStatus(ProcessingStatus),
    MapStatus { index: usize, status: MapStatus },
    UniqueAssetsCount(u32),
    AssetsFoundCount(u32),
    Error(String),
    Complete,
}

/// The state of the front-end.
pub struct BuilderGui {
    pub config: StorageSettings,
    pub process_status: ProcessingStatus,
    pub processing: bool,
    pub internal: InternalData,
    pub about_window_open: bool,
}

/// The file name of a path: its last segment once empty and `.` segments are
/// dropped; none where there is no segment or the last one is `..`.
pub open spec fn file_name(p: Seq<char>) -> Option<Seq<char>> {
    let es = entries(p);
    if es.len() == 0 || es.last() == seq!['.', '.'] {
        None
    } else {
        Some(es.last())
    }
}

/// The extension of a path's file name: what follows its last dot, unless that
/// dot starts the name.
pub open spec fn extension(p: Seq<char>) -> Option<Seq<char>> {
    match file_name(p) {
        Some(n) => {
            let d = last_index_before(n, '.', n.len() as int);
            if d > 0 {
                Some(n.subrange(d + 1, n.len() as int))
            } else {
                None
            }
        },
        None => None,
    }
}

pub open spec fn is_map_extension(e: Seq<char>) -> bool {
    e == seq!['v', 'm', 'f'] || e == seq!['b', 's', 'p']
}

/// Whether some map of `maps` has the path `path`.
pub open spec fn maps_have_path(maps: Seq<MapFile>, path: Seq<char>) -> bool {
    exists|i: int| 0 <= i < maps.len() && #[trigger] maps[i].path@ == path
}

proof fn lemma_have_path_prefix(before: Seq<MapFile>, after: Seq<MapFile>, path: Seq<char>)
    requires
        before.len() <= after.len(),
        forall|j: int| 0 <= j < before.len() ==> after[j] == before[j],
        maps_have_path(before, path),
    ensures
        maps_have_path(after, path),
{
    let j = choose|j: int| 0 <= j < before.len() && #[trigger] before[j].path@ == path;
    assert(after[j].path@ == path);
}

/// The paths of a list of maps.
pub open spec fn map_paths(maps: Seq<MapFile>) -> Seq<Seq<char>> {
    maps.map_values(|m: MapFile| m.path@)
}

proof fn lemma_has_path_contains(maps: Seq<MapFile>, path: Seq<char>)
    ensures
        maps_have_path(maps, path) == map_paths(maps).contains(path),
{
    if map_paths(maps).contains(path) {
        let j = choose|j: int| 0 <= j < map_paths(maps).len() && map_paths(maps)[j] == path;
        assert(maps[j].path@ == path);
    }
    if maps_have_path(maps, path) {
        let j = choose|j: int| 0 <= j < maps.len() && #[trigger] maps[j].path@ == path;
        assert(map_paths(maps)[j] == path);
    }
}

/// The paths of the list after `add_map` of the first `n` of `paths`, starting
/// from `existing`.
pub open spec fn paths_after(existing: Seq<Seq<char>>, paths: Seq<Seq<char>>, n: int) -> Seq<Seq<char>>
    decreases n,
{
    if n <= 0 {
        existing
    } else {
        let prev = paths_after(existing, paths, n - 1);
        if is_map_path(paths[n - 1]) && !prev.contains(paths[n - 1]) {
            prev.push(paths[n - 1])
        } else {
            prev
        }
    }
}

/// Whether a map is as `MapFile::new` makes it for its path: named by its file
/// name, pending, and a text map exactly when the extension is `vmf`.
pub open spec fn is_new_entry(m: MapFile) -> bool {
    &&& file_name(m.path@) == Some(m.name@)
    &&& m.status is Pending
    &&& m.is_vmf == (extension(m.path@) == Some(seq!['v', 'm', 'f']))
}

/// Whether a path names a map file by its extension.
pub open spec fn is_map_path(p: Seq<char>) -> bool {
    extension(p) matches Some(e) && is_map_extension(e)
}

/// The file name of a path.
pub fn file_name_of(p: &str) -> (r: Option<String>)
    ensures
        match r {
            Some(n) => file_name(p@) == Some(n@),
            None => file_name(p@) is None,
        },
{
    let es = split_entries(p);
    let n = es.len();
    if n == 0 {
        return None;
    }
    let last = chars_of(es[n - 1].as_str());
    let parent = vec!['.', '.'];
    assert(parent@ =~= seq!['.', '.']);
    assert(views(es@).last() == es@[n - 1]@);
    if eq_chars(&last, &parent) {
        None
    } else {
        Some(es[n - 1].clone())
    }
}

/// The extension of a path's file name.
pub fn extension_of(p: &str) -> (r: Option<String>)
    ensures
        match r {
            Some(e) => extension(p@) == Some(e@),
            None => extension(p@) is None,
        },
{
    let name = match file_name_of(p) {
        Some(n) => n,
        None => return None,
    };
    let v = chars_of(name.as_str());
    let n = v.len();
    match rfind_before(&v, '.', n) {
        Some(d) => if d > 0 {
            Some(string_of_range(&v, d + 1, n))
        } else {
            None
        },
        None => None,
    }
}

impl MapStatus {
    /// The text shown when the pointer rests on a map's status.
    pub fn get_hover_text(&self) -> (r: String)
        ensures
            r@ == match self {
                MapStatus::Pending => "Pending"@,
                MapStatus::Warning(WarningReason::NotFoundAssets) => "New unique Assets not found in this map"@,
                MapStatus::Warning(WarningReason::Unknown) => "Unknown warning"@,
                MapStatus::Error(msg) => msg@,
                MapStatus::Completed => "Completed"@,
                MapStatus::Processing => ""@,
            },
    {
        match self {
            MapStatus::Pending => "Pending".to_string(),
            MapStatus::Warning(WarningReason::NotFoundAssets) => "New unique Assets not found in this map".to_string(),
            MapStatus::Warning(WarningReason::Unknown) => "Unknown warning".to_string(),
            MapStatus::Error(msg) => msg.clone(),
            MapStatus::Completed => "Completed".to_string(),
            MapStatus::Processing => "".to_string(),
        }
    }

    /// The symbol shown for a map's status.
    pub fn symbol(&self) -> (r: String)
        ensures
            r@ == match self {
                MapStatus::Pending => "\u{26ab}"@,
                MapStatus::Warning(_) => "\u{26a0}"@,
                MapStatus::Error(_) => "\u{274c}"@,
                MapStatus::Completed => "\u{2705}"@,
                MapStatus::Processing => ""@,
            },
    {
        match self {
            MapStatus::Pending => "\u{26ab}".to_string(),
            MapStatus::Warning(_) => "\u{26a0}".to_string(),
            MapStatus::Error(_) => "\u{274c}".to_string(),
            MapStatus::Completed => "\u{2705}".to_string(),
            MapStatus::Processing => "".to_string(),
        }
    }
}

impl ProcessingStatus {
    /// The text shown for the overall state.
    pub fn label(&self) -> (r: String)
        ensures
            r@ == match self {
                ProcessingStatus::ScanMap(_) => "Scanning Maps..."@,
                ProcessingStatus::SearchAssets => "Searching Assets..."@,
                ProcessingStatus::CopyAssets => "Copying Assets..."@,
                ProcessingStatus::CopyError(info) => info@,
                _ => ""@,
            },
    {
        match self {
            ProcessingStatus::ScanMap(_) => "Scanning Maps...".to_string(),
            ProcessingStatus::SearchAssets => "Searching Assets...".to_string(),
            ProcessingStatus::CopyAssets => "Copying Assets...".to_string(),
            ProcessingStatus::CopyError(info) => info.clone(),
            _ => "".to_string(),
        }
    }
}

impl MapFile {
    /// A pending map at `path`, named by its file name.
    pub fn new(path: &str, is_vmf: bool) -> (r: Self)
        requires
            file_name(path@) is Some,
        ensures
            r.path@ == path@,
            file_name(path@) == Some(r.name@),
            r.status is Pending,
            r.is_vmf == is_vmf,
    {
        let name = match file_name_of(path) {
            Some(n) => n,
            None => String::new(),
        };
        MapFile { path: path.to_string(), name, status: MapStatus::Pending, is_vmf }
    }
}

/// The status of a map after its scan: an error if it did not parse; a warning
/// if it added no new reference; else completed.
pub fn scan_outcome(parse: Result<(), String>, unique_before: u32, unique_after: u32) -> (r: MapStatus)
    ensures
        match parse {
            Err(msg) => r == MapStatus::Error(msg),
            Ok(()) => if unique_after == unique_before {
                r == MapStatus::Warning(WarningReason::NotFoundAssets)
            } else {
                r is Completed
            },
        },
{
    match parse {
        Err(msg) => MapStatus::Error(msg),
        Ok(()) => if unique_after == unique_before {
            MapStatus::Warning(WarningReason::NotFoundAssets)
        } else {
            MapStatus::Completed
        },
    }
}

/// The statuses of a list of maps.
pub open spec fn statuses(maps: Seq<MapFile>) -> Seq<MapStatus> {
    maps.map_values(|m: MapFile| m.status)
}

/// How one message changes what a run reports: the overall status, the maps'
/// statuses, the unique and found counts, and whether the run goes on.
pub open spec fn step(
    p: (ProcessingStatus, Seq<MapStatus>, u32, u32, bool),
    m: ProcessingMessage,
) -> (ProcessingStatus, Seq<MapStatus>, u32, u32, bool) {
    match m {
        ProcessingMessage::SetProcessingStatus(s) => (s, p.1, p.2, p.3, p.4),
        ProcessingMessage::MapStatus { index, status } => if index < p.1.len() {
            (p.0, p.1.update(index as int, status), p.2, p.3, p.4)
        } else {
            p
        },
        ProcessingMessage::UniqueAssetsCount(c) => (p.0, p.1, c, p.3, p.4),
        ProcessingMessage::AssetsFoundCount(c) => (
            p.0,
            p.1,
            p.2,
            if p.3 + c <= u32::MAX { (p.3 + c) as u32 } else { u32::MAX },
            p.4,
        ),
        ProcessingMessage::Error(e) => (ProcessingStatus::ProcessingError(e), p.1, p.2, p.3, p.4),
        ProcessingMessage::Complete => (ProcessingStatus::Completed, p.1, p.2, p.3, false),
    }
}

/// The effect of the first `n` messages, in order.
pub open spec fn run(
    p: (ProcessingStatus, Seq<MapStatus>, u32, u32, bool),
    msgs: Seq<ProcessingMessage>,
    n: int,
) -> (ProcessingStatus, Seq<MapStatus>, u32, u32, bool)
    decreases n,
{
    if n <= 0 {
        p
    } else {
        step(run(p, msgs, n - 1), msgs[n - 1])
    }
}

/// The effect of stopping a run: cancelled, not running, and each map that was
/// being processed back to pending.
pub open spec fn cancelled(
    p: (ProcessingStatus, Seq<MapStatus>, u32, u32, bool),
) -> (ProcessingStatus, Seq<MapStatus>, u32, u32, bool) {
    (
        ProcessingStatus::Cancelled,
        p.1.map_values(|s: MapStatus| if s is Processing { MapStatus::Pending } else { s }),
        p.2,
        p.3,
        false,
    )
}

impl BuilderGui {
    /// What the messages of a run change.
    pub open spec fn progress(&self) -> (ProcessingStatus, Seq<MapStatus>, u32, u32, bool) {
        (
            self.process_status,
            statuses(self.config.maps@),
            self.internal.unique_assets,
            self.internal.assets_found,
            self.processing,
        )
    }

    /// Whether `self` agrees with `o` on all that the messages of a run leave
    /// alone: the directories, the maps' paths, names and kinds, the shown
    /// counters, the theme flag and the about window.
    pub open spec fn same_frame(&self, o: BuilderGui) -> bool {
        &&& self.config.game_dir == o.config.game_dir
        &&& self.config.output_dir == o.config.output_dir
        &&& self.config.maps@.len() == o.config.maps@.len()
        &&& forall|k: int|
            0 <= k < self.config.maps@.len() ==> #[trigger] self.config.maps@[k].path == o.config.maps@[k].path
                && self.config.maps@[k].name == o.config.maps@[k].name && self.config.maps@[k].is_vmf
                == o.config.maps@[k].is_vmf
        &&& self.internal.unique_assets_ui == o.internal.unique_assets_ui
        &&& self.internal.assets_found_ui == o.internal.assets_found_ui
        &&& self.internal.theme_was_changed == o.internal.theme_was_changed
        &&& self.about_window_open == o.about_window_open
    }


    /// A front-end with the given settings, idle.
    pub fn new(config: StorageSettings) -> (r: Self)
        ensures
            r.config == config,
            r.process_status is Idle,
            !r.processing,
            r.internal.unique_assets == 0 && r.internal.assets_found == 0,
            r.internal.unique_assets_ui == 0 && r.internal.assets_found_ui == 0,
            r.internal.theme_was_changed,
            !r.about_window_open,
    {
        BuilderGui {
            config,
            process_status: ProcessingStatus::Idle,
            processing: false,
            internal: InternalData {
                unique_assets: 0,
                assets_found: 0,
                unique_assets_ui: 0,
                assets_found_ui: 0,
                theme_was_changed: true,
            },
            about_window_open: false,
        }
    }

    /// Whether some map of the list has the path `path`.
    pub open spec fn has_map(&self, path: Seq<char>) -> bool {
        maps_have_path(self.config.maps@, path)
    }

    /// Adds the map at `path` to the list, unless a map with that path is there or
    /// its extension is not `vmf` or `bsp`.
    pub fn add_map(&mut self, path: &str)
        ensures
            ({
                let added = is_map_path(path@) && !old(self).has_map(path@);
                &&& final(self).config.game_dir == old(self).config.game_dir
                &&& final(self).config.output_dir == old(self).config.output_dir
                &&& final(self).process_status == old(self).process_status
                &&& final(self).processing == old(self).processing
                &&& final(self).internal == old(self).internal
                &&& final(self).about_window_open == old(self).about_window_open
                &&& if added {
                    &&& final(self).config.maps@.len() == old(self).config.maps@.len() + 1
                    &&& final(self).config.maps@.drop_last() == old(self).config.maps@
                    &&& final(self).config.maps@.last().path@ == path@
                    &&& file_name(path@) == Some(final(self).config.maps@.last().name@)
                    &&& final(self).config.maps@.last().status is Pending
                    &&& final(self).config.maps@.last().is_vmf == (extension(path@) == Some(seq!['v', 'm', 'f']))
                } else {
                    final(self).config.maps@ == old(self).config.maps@
                }
            }),
    {
        let ext = match extension_of(path) {
            Some(e) => e,
            None => return,
        };
        let want = chars_of(path);
        let mut i: usize = 0;
        while i < self.config.maps.len()
            invariant
                want@ == path@,
                *self == *old(self),
                i <= self.config.maps@.len(),
                forall|k: int| 0 <= k < i ==> self.config.maps@[k].path@ != path@,
            decreases self.config.maps.len() - i,
        {
            let have = chars_of(self.config.maps[i].path.as_str());
            if crate::text::eq_chars(&have, &want) {
                return;
            }
            i += 1;
        }
        let e = chars_of(ext.as_str());
        let vmf = vec!['v', 'm', 'f'];
        let bsp = vec!['b', 's', 'p'];
        assert(vmf@ =~= seq!['v', 'm', 'f']);
        assert(bsp@ =~= seq!['b', 's', 'p']);
        let is_vmf = crate::text::eq_chars(&e, &vmf);
        if is_vmf || crate::text::eq_chars(&e, &bsp) {
            let ghost before = self.config.maps@;
            self.config.maps.push(MapFile::new(path, is_vmf));
            assert(self.config.maps@.drop_last() =~= before);
        }
    }

    /// Adds each of `paths` to the list as `add_map` does, in order.
    pub fn add_maps(&mut self, paths: &Vec<String>)
        ensures
            map_paths(final(self).config.maps@) == paths_after(
                map_paths(old(self).config.maps@),
                views(paths@),
                paths@.len() as int,
            ),
            final(self).config.maps@.take(old(self).config.maps@.len() as int) == old(self).config.maps@,
            forall|k: int|
                old(self).config.maps@.len() <= k < final(self).config.maps@.len() ==> is_new_entry(
                    #[trigger] final(self).config.maps@[k],
                ),
            final(self).config.game_dir == old(self).config.game_dir,
            final(self).config.output_dir == old(self).config.output_dir,
            final(self).process_status == old(self).process_status,
            final(self).processing == old(self).processing,
            final(self).internal == old(self).internal,
            final(self).about_window_open == old(self).about_window_open,
    {
        let ghost o = old(self).config.maps@;
        let mut i: usize = 0;
        while i < paths.len()
            invariant
                i <= paths@.len(),
                o == old(self).config.maps@,
                o.len() <= self.config.maps@.len(),
                map_paths(self.config.maps@) == paths_after(map_paths(o), views(paths@), i as int),
                self.config.maps@.take(o.len() as int) == o,
                forall|k: int| o.len() <= k < self.config.maps@.len() ==> is_new_entry(#[trigger] self.config.maps@[k]),
                self.config.game_dir == old(self).config.game_dir,
                self.config.output_dir == old(self).config.output_dir,
                self.process_status == old(self).process_status,
                self.processing == old(self).processing,
                self.internal == old(self).internal,
                self.about_window_open == old(self).about_window_open,
            decreases paths.len() - i,
        {
            let ghost before = self.config.maps@;
            proof { lemma_has_path_contains(before, paths@[i as int]@); }
            self.add_map(paths[i].as_str());
            proof {
                assert(views(paths@)[i as int] == paths@[i as int]@);
                if self.config.maps@.len() != before.len() {
                    assert(self.config.maps@ =~= before.push(self.config.maps@.last()));
                    assert(map_paths(self.config.maps@) =~= map_paths(before).push(paths@[i as int]@));
                    assert(self.config.maps@.take(o.len() as int) =~= before.take(o.len() as int));
                }
            }
            i += 1;
        }
    }

    /// Empties the list and resets the count of unique references.
    pub fn clear_maps(&mut self)
        ensures
            final(self).config.maps@.len() == 0,
            final(self).internal.unique_assets == 0,
            final(self).internal.unique_assets_ui == 0,
            final(self).internal.assets_found == old(self).internal.assets_found,
            final(self).internal.assets_found_ui == old(self).internal.assets_found_ui,
            final(self).internal.theme_was_changed == old(self).internal.theme_was_changed,
            final(self).config.game_dir == old(self).config.game_dir,
            final(self).config.output_dir == old(self).config.output_dir,
            final(self).process_status == old(self).process_status,
            final(self).processing == old(self).processing,
            final(self).about_window_open == old(self).about_window_open,
    {
        self.config.maps.clear();
        self.internal.unique_assets = 0;
        self.internal.unique_assets_ui = 0;
    }

    /// Removes the map at `index`.
    pub fn remove_map(&mut self, index: usize)
        requires
            index < old(self).config.maps@.len(),
        ensures
            final(self).config.maps@ == old(self).config.maps@.remove(index as int),
            final(self).processing == old(self).processing,
    {
        self.config.maps.remove(index);
    }

    /// Whether every map of the list is completed.
    pub fn all_maps_completed(&self) -> (r: bool)
        ensures
            r == forall|k: int| 0 <= k < self.config.maps@.len() ==> #[trigger] self.config.maps@[k].status is Completed,
    {
        let mut i: usize = 0;
        while i < self.config.maps.len()
            invariant
                i <= self.config.maps@.len(),
                forall|k: int| 0 <= k < i ==> #[trigger] self.config.maps@[k].status is Completed,
            decreases self.config.maps.len() - i,
        {
            if !matches!(self.config.maps[i].status, MapStatus::Completed) {
                return false;
            }
            i += 1;
        }
        true
    }

    /// The indices of the first `n` maps that are not completed.
    pub open spec fn pending_indices(maps: Seq<MapFile>, n: int) -> Seq<usize>
        decreases n,
    {
        if n <= 0 {
            seq![]
        } else if maps[n - 1].status is Completed {
            BuilderGui::pending_indices(maps, n - 1)
        } else {
            BuilderGui::pending_indices(maps, n - 1).push((n - 1) as usize)
        }
    }

    /// The indices of the maps that a run scans: those not completed, in order.
    pub fn maps_to_scan(&self) -> (r: Vec<usize>)
        ensures
            r@ == BuilderGui::pending_indices(self.config.maps@, self.config.maps@.len() as int),
    {
        let mut r: Vec<usize> = Vec::new();
        let mut i: usize = 0;
        while i < self.config.maps.len()
            invariant
                i <= self.config.maps@.len(),
                r@ == BuilderGui::pending_indices(self.config.maps@, i as int),
            decreases self.config.maps.len() - i,
        {
            if !matches!(self.config.maps[i].status, MapStatus::Completed) {
                r.push(i);
            }
            i += 1;
        }
        r
    }

    /// Stops a run: idle again, status cancelled, and each map that was being
    /// processed back to pending.
    pub fn cancel_compile(&mut self)
        ensures
            final(self).progress() == cancelled(old(self).progress()),
            final(self).same_frame(*old(self)),
    {
        self.processing = false;
        self.process_status = ProcessingStatus::Cancelled;
        let ghost orig = old(self).config.maps@;
        let mut i: usize = 0;
        while i < self.config.maps.len()
            invariant
                !self.processing,
                self.process_status is Cancelled,
                self.config.game_dir == old(self).config.game_dir,
                self.config.output_dir == old(self).config.output_dir,
                self.internal == old(self).internal,
                self.about_window_open == old(self).about_window_open,
                orig == old(self).config.maps@,
                self.config.maps@.len() == orig.len(),
                i <= orig.len(),
                forall|k: int| i <= k < orig.len() ==> #[trigger] self.config.maps@[k] == orig[k],
                forall|k: int| 0 <= k < i ==> {
                    let before = #[trigger] orig[k];
                    let after = self.config.maps@[k];
                    &&& after.path == before.path
                    &&& after.name == before.name
                    &&& after.is_vmf == before.is_vmf
                    &&& if before.status is Processing {
                        after.status is Pending
                    } else {
                        after.status == before.status
                    }
                },
            decreases orig.len() - i,
        {
            if matches!(self.config.maps[i].status, MapStatus::Processing) {
                let ghost before = self.config.maps@;
                let m = self.config.maps.remove(i);
                self.config.maps.insert(i, MapFile { path: m.path, name: m.name, status: MapStatus::Pending, is_vmf: m.is_vmf });
                assert(forall|k: int| 0 <= k < before.len() && k != i ==> #[trigger] self.config.maps@[k] == before[k]);
            }
            i += 1;
        }
        assert(statuses(self.config.maps@) =~= cancelled(old(self).progress()).1);
    }

    /// Applies the messages of a run in order. Where one of them is an error, the
    /// run then stops as `cancel_compile` stops it; says whether it did.
    pub fn apply_messages(&mut self, msgs: Vec<ProcessingMessage>) -> (stopped: bool)
        ensures
            stopped == exists|k: int| 0 <= k < msgs@.len() && #[trigger] msgs@[k] is Error,
            final(self).same_frame(*old(self)),
            final(self).progress() == if stopped {
                cancelled(run(old(self).progress(), msgs@, msgs@.len() as int))
            } else {
                run(old(self).progress(), msgs@, msgs@.len() as int)
            },
    {
        let mut msgs = msgs;
        let ghost all = msgs@;
        let n = msgs.len();
        let mut stop = false;
        let mut i: usize = 0;
        while i < n
            invariant
                n == all.len(),
                i <= n,
                msgs@ == all.subrange(i as int, n as int),
                self.progress() == run(old(self).progress(), all, i as int),
                self.same_frame(*old(self)),
                stop == exists|k: int| 0 <= k < i && #[trigger] all[k] is Error,
            decreases n - i,
        {
            let m = msgs.remove(0);
            assert(m == all[i as int]);
            if self.apply_message(m) {
                stop = true;
            }
            assert(stop == exists|k: int| 0 <= k < i + 1 && #[trigger] all[k] is Error);
            assert(msgs@ =~= all.subrange(i + 1, n as int));
            i += 1;
        }
        if stop {
            self.cancel_compile();
        }
        stop
    }

    /// Applies one message of a run; says whether the run must stop on an error.
    pub fn apply_message(&mut self, msg: ProcessingMessage) -> (stop: bool)
        ensures
            stop == (msg is Error),
            final(self).progress() == step(old(self).progress(), msg),
            final(self).same_frame(*old(self)),
    {
        match msg {
            ProcessingMessage::SetProcessingStatus(s) => {
                self.process_status = s;
                false
            },
            ProcessingMessage::MapStatus { index, status } => {
                if index < self.config.maps.len() {
                    let ghost before = self.config.maps@;
                    let m = self.config.maps.remove(index);
                    let ghost st = status;
                    self.config.maps.insert(index, MapFile { path: m.path, name: m.name, status, is_vmf: m.is_vmf });
                    assert(statuses(self.config.maps@) =~= statuses(before).update(index as int, st));
                    assert(forall|k: int| 0 <= k < before.len() && k != index ==> #[trigger] self.config.maps@[k]
                        == before[k]);
                }
                false
            },
            ProcessingMessage::UniqueAssetsCount(c) => {
                self.internal.unique_assets = c;
                false
            },
            ProcessingMessage::AssetsFoundCount(c) => {
                self.internal.assets_found = self.internal.assets_found.saturating_add(c);
                false
            },
            ProcessingMessage::Error(err) => {
                self.process_status = ProcessingStatus::ProcessingError(err);
                true
            },
            ProcessingMessage::Complete => {
                self.processing = false;
                self.process_status = ProcessingStatus::Completed;
                false
            },
        }
    }
}

} // verus!
