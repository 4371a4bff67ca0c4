//! The animation catalog, the selection policy and the order of a mount
//! swap.

use vstd::prelude::*;
use rand::seq::SliceRandom;
use crate::cache_sweep::{sorted_by_age, total_size, CacheEntry, SweepWalk};
use crate::config::{Config, RandomizeMode};
use crate::text::{is_listed, is_substring, join_path, joined, listed, str_contains, str_equals};
use crate::video_processor::VideoProcessor;

verus! {

/// The three slots an animation can fill.
#[derive(Debug, Clone, Copy, PartialEq, Eq, Structural)]
pub enum AnimationType {
    Boot,
    Suspend,
    Throbber,
}

/// A catalog entry. `duration` is in seconds.
#[derive(Debug, Clone)]
pub struct Animation {
    pub id: String,
    pub name: String,
    pub path: String,
    pub animation_type: AnimationType,
    pub duration: Option<u64>,
    pub optimized_path: Option<String>,
}

/// A catalog entry as contracts see it.
pub struct AnimationView {
    pub id: Seq<char>,
    pub name: Seq<char>,
    pub path: Seq<char>,
    pub animation_type: AnimationType,
    pub duration: Option<u64>,
    pub optimized_path: Option<Seq<char>>,
}

/// What an optional string reads.
pub open spec fn text_of(value: Option<String>) -> Option<Seq<char>> {
    match value {
        Some(s) => Some(s@),
        None => None,
    }
}

impl View for Animation {
    type V = AnimationView;

    open spec fn view(&self) -> AnimationView {
        AnimationView {
            id: self.id@,
            name: self.name@,
            path: self.path@,
            animation_type: self.animation_type,
            duration: self.duration,
            optimized_path: text_of(self.optimized_path),
        }
    }
}

/// The views of a list of animations.
pub open spec fn views(list: Seq<Animation>) -> Seq<AnimationView> {
    list.map_values(|a: Animation| a@)
}

/// No two entries share an id.
pub open spec fn unique_ids(catalog: Seq<AnimationView>) -> bool {
    forall|i: int, j: int|
        0 <= i < catalog.len() && 0 <= j < catalog.len() && (#[trigger] catalog[i]).id == (
        #[trigger] catalog[j]).id ==> i == j
}

/// Some entry has the id.
pub open spec fn has_id(catalog: Seq<AnimationView>, id: Seq<char>) -> bool {
    exists|i: int| 0 <= i < catalog.len() && (#[trigger] catalog[i]).id == id
}

/// The entry at `i` is the first with the id.
pub open spec fn first_with_id(catalog: Seq<AnimationView>, id: Seq<char>, i: int) -> bool {
    &&& 0 <= i < catalog.len()
    &&& catalog[i].id == id
    &&& forall|j: int| 0 <= j < i ==> (#[trigger] catalog[j]).id != id
}

/// The place of the first entry with the id.
pub open spec fn index_of(catalog: Seq<AnimationView>, id: Seq<char>) -> int {
    choose|i: int| first_with_id(catalog, id, i)
}

/// The first entry with an id is found at one place only.
pub proof fn lemma_index_of(catalog: Seq<AnimationView>, id: Seq<char>, i: int)
    requires
        first_with_id(catalog, id, i),
    ensures
        has_id(catalog, id),
        index_of(catalog, id) == i,
{
    let k = index_of(catalog, id);
    assert(first_with_id(catalog, id, k));
    if k < i {
        assert(catalog[k].id != id);
    }
    if i < k {
        assert(catalog[i].id != id);
    }
}

/// An id that the catalog holds has a first entry.
pub proof fn lemma_has_first(catalog: Seq<AnimationView>, id: Seq<char>)
    requires
        has_id(catalog, id),
    ensures
        first_with_id(catalog, id, index_of(catalog, id)),
{
    let w = choose|i: int| 0 <= i < catalog.len() && (#[trigger] catalog[i]).id == id;
    lemma_first_before(catalog, id, w);
    let f = choose|f: int| first_with_id(catalog, id, f);
    assert(first_with_id(catalog, id, f));
}

proof fn lemma_first_before(catalog: Seq<AnimationView>, id: Seq<char>, w: int)
    requires
        0 <= w < catalog.len(),
        catalog[w].id == id,
    ensures
        exists|f: int| first_with_id(catalog, id, f),
    decreases w,
{
    if exists|j: int| 0 <= j < w && (#[trigger] catalog[j]).id == id {
        let j = choose|j: int| 0 <= j < w && (#[trigger] catalog[j]).id == id;
        lemma_first_before(catalog, id, j);
    } else {
        assert(first_with_id(catalog, id, w));
    }
}

/// The catalog with one more entry: the first entry of the same id is
/// replaced where it stands, a new id goes to the end.
pub open spec fn with_entry(catalog: Seq<AnimationView>, entry: AnimationView) -> Seq<
    AnimationView,
> {
    if has_id(catalog, entry.id) {
        catalog.update(index_of(catalog, entry.id), entry)
    } else {
        catalog.push(entry)
    }
}

/// Replacing or adding an entry keeps ids unique.
pub proof fn lemma_with_entry_unique(catalog: Seq<AnimationView>, entry: AnimationView)
    requires
        unique_ids(catalog),
    ensures
        unique_ids(with_entry(catalog, entry)),
        has_id(with_entry(catalog, entry), entry.id),
{
    let next = with_entry(catalog, entry);
    if has_id(catalog, entry.id) {
        lemma_has_first(catalog, entry.id);
        let at = index_of(catalog, entry.id);
        assert(next[at].id == entry.id);
        assert forall|i: int, j: int|
            0 <= i < next.len() && 0 <= j < next.len() && (#[trigger] next[i]).id == (
            #[trigger] next[j]).id implies i == j by {
            assert(next[i].id == catalog[i].id);
            assert(next[j].id == catalog[j].id);
        }
    } else {
        assert(next[catalog.len() as int].id == entry.id);
        assert forall|i: int, j: int|
            0 <= i < next.len() && 0 <= j < next.len() && (#[trigger] next[i]).id == (
            #[trigger] next[j]).id implies i == j by {
            if i < catalog.len() {
                assert(next[i] == catalog[i]);
            }
            if j < catalog.len() {
                assert(next[j] == catalog[j]);
            }
        }
    }
}

/// The file that stands for an animation type, in an animation set and in
/// the override directory alike.
pub open spec fn file_name(anim_type: AnimationType) -> Seq<char> {
    match anim_type {
        AnimationType::Boot => "deck_startup.webm"@,
        AnimationType::Suspend => "steam_os_suspend.webm"@,
        AnimationType::Throbber => "steam_os_suspend_from_throbber.webm"@,
    }
}

/// The file that stands for an animation type.
pub fn type_file_name(anim_type: AnimationType) -> (name: &'static str)
    ensures
        name@ == file_name(anim_type),
{
    match anim_type {
        AnimationType::Boot => "deck_startup.webm",
        AnimationType::Suspend => "steam_os_suspend.webm",
        AnimationType::Throbber => "steam_os_suspend_from_throbber.webm",
    }
}

/// An entry that a random draw for `anim_type` may return: it has the type
/// and its id is not excluded.
pub open spec fn eligible(
    entry: AnimationView,
    anim_type: AnimationType,
    exclusions: Seq<String>,
) -> bool {
    entry.animation_type == anim_type && !listed(exclusions, entry.id)
}

/// The ids of the eligible entries among the first `k`, in catalog order.
pub open spec fn candidates_among(
    catalog: Seq<AnimationView>,
    anim_type: AnimationType,
    exclusions: Seq<String>,
    k: int,
) -> Seq<Seq<char>>
    decreases k,
{
    if k <= 0 {
        Seq::empty()
    } else if eligible(catalog[k - 1], anim_type, exclusions) {
        candidates_among(catalog, anim_type, exclusions, k - 1).push(catalog[k - 1].id)
    } else {
        candidates_among(catalog, anim_type, exclusions, k - 1)
    }
}

/// The ids a random draw for `anim_type` chooses from.
pub open spec fn candidate_ids(
    catalog: Seq<AnimationView>,
    anim_type: AnimationType,
    exclusions: Seq<String>,
) -> Seq<Seq<char>> {
    candidates_among(catalog, anim_type, exclusions, catalog.len() as int)
}

/// Every candidate is the id of an eligible catalog entry.
pub proof fn lemma_candidates_eligible(
    catalog: Seq<AnimationView>,
    anim_type: AnimationType,
    exclusions: Seq<String>,
    k: int,
)
    requires
        0 <= k <= catalog.len(),
    ensures
        forall|j: int|
            0 <= j < candidates_among(catalog, anim_type, exclusions, k).len() ==> {
                let id = #[trigger] candidates_among(catalog, anim_type, exclusions, k)[j];
                &&& !listed(exclusions, id)
                &&& exists|i: int|
                    0 <= i < k && (#[trigger] catalog[i]).id == id && catalog[i].animation_type
                        == anim_type
            },
    decreases k,
{
    if k > 0 {
        lemma_candidates_eligible(catalog, anim_type, exclusions, k - 1);
        let earlier = candidates_among(catalog, anim_type, exclusions, k - 1);
        let now = candidates_among(catalog, anim_type, exclusions, k);
        assert forall|j: int| 0 <= j < now.len() implies {
            let id = #[trigger] now[j];
            &&& !listed(exclusions, id)
            &&& exists|i: int|
                0 <= i < k && (#[trigger] catalog[i]).id == id && catalog[i].animation_type
                    == anim_type
        } by {
            if j < earlier.len() {
                assert(now[j] == earlier[j]);
                let i = choose|i: int|
                    0 <= i < k - 1 && (#[trigger] catalog[i]).id == earlier[j]
                        && catalog[i].animation_type == anim_type;
                assert(catalog[i].id == now[j]);
            } else {
                assert(catalog[k - 1].id == now[j]);
            }
        }
    }
}

/// A fair outcome of a random draw: nothing exactly when there is no
/// candidate, otherwise the id of a catalog entry of the type that is not
/// excluded.
pub open spec fn is_draw(
    catalog: Seq<AnimationView>,
    anim_type: AnimationType,
    exclusions: Seq<String>,
    choice: Option<String>,
) -> bool {
    &&& choice is None <==> candidate_ids(catalog, anim_type, exclusions).len() == 0
    &&& choice matches Some(id) ==> {
        &&& candidate_ids(catalog, anim_type, exclusions).contains(id@)
        &&& !listed(exclusions, id@)
        &&& exists|i: int|
            0 <= i < catalog.len() && (#[trigger] catalog[i]).id == id@
                && catalog[i].animation_type == anim_type
    }
}

/// Calls `SliceRandom::choose` of the rand crate on the list, with the
/// thread's generator. Trusted: an empty list gives nothing, any other list
/// gives a copy of one of its elements; which one is not said.
#[verifier::external_body]
fn choose_one(candidates: &Vec<String>) -> (choice: Option<String>)
    ensures
        choice is None <==> candidates@.len() == 0,
        choice matches Some(id) ==> exists|i: int|
            0 <= i < candidates@.len() && (#[trigger] candidates@[i])@ == id@,
{
    let mut rng = rand::thread_rng();
    candidates.choose(&mut rng).cloned()
}

fn copy_text(value: &Option<String>) -> (copy: Option<String>)
    ensures
        copy == *value,
{
    match value {
        Some(s) => Some(s.clone()),
        None => None,
    }
}

/// The name of an animation type as it is written into display names.
pub open spec fn type_label(anim_type: AnimationType) -> Seq<char> {
    match anim_type {
        AnimationType::Boot => "Boot"@,
        AnimationType::Suspend => "Suspend"@,
        AnimationType::Throbber => "Throbber"@,
    }
}

/// A directory of the animations folder, as a listing reports it: its
/// path, its name where that is valid text, whether its `config.json` is
/// absent or readable, and which of the three files it holds.
#[derive(Debug)]
pub struct AnimationSet {
    pub path: String,
    pub name: Option<String>,
    pub config_readable: bool,
    pub has_boot: bool,
    pub has_suspend: bool,
    pub has_throbber: bool,
}

/// A file of the downloads folder: its path and, where they are valid
/// text, its name without the extension and its extension.
#[derive(Debug)]
pub struct DownloadedFile {
    pub path: String,
    pub stem: Option<String>,
    pub extension: Option<String>,
}

/// Why a listing entry gave no catalog entry.
#[derive(Debug, Clone, Copy, PartialEq, Eq, Structural)]
pub enum CatalogError {
    InvalidSetName,
    UnreadableSetConfig,
    InvalidFileName,
}

/// The catalog entry for the file of one type in an animation set.
pub open spec fn set_entry(
    set_name: Seq<char>,
    set_path: Seq<char>,
    anim_type: AnimationType,
) -> AnimationView {
    AnimationView {
        id: set_name + "/"@ + file_name(anim_type),
        name: if anim_type == AnimationType::Boot {
            set_name
        } else {
            set_name + " - "@ + type_label(anim_type)
        },
        path: joined(set_path, file_name(anim_type)),
        animation_type: anim_type,
        duration: None,
        optimized_path: None,
    }
}

/// The catalog with `entry`, where `present` holds.
pub open spec fn with_optional(
    catalog: Seq<AnimationView>,
    present: bool,
    entry: AnimationView,
) -> Seq<AnimationView> {
    if present {
        with_entry(catalog, entry)
    } else {
        catalog
    }
}

/// Why an animation set is passed over, if it is.
pub open spec fn set_error(set: AnimationSet) -> Option<CatalogError> {
    if set.name is None {
        Some(CatalogError::InvalidSetName)
    } else if !set.config_readable {
        Some(CatalogError::UnreadableSetConfig)
    } else {
        None
    }
}

/// The catalog after an animation set has been read: one entry for each
/// file the set holds, boot first, then suspend, then throbber. A set that
/// is passed over leaves the catalog as it was.
pub open spec fn with_set(catalog: Seq<AnimationView>, set: AnimationSet) -> Seq<AnimationView> {
    if set_error(set) is Some {
        catalog
    } else {
        let name = set.name->0@;
        with_optional(
            with_optional(
                with_optional(
                    catalog,
                    set.has_boot,
                    set_entry(name, set.path@, AnimationType::Boot),
                ),
                set.has_suspend,
                set_entry(name, set.path@, AnimationType::Suspend),
            ),
            set.has_throbber,
            set_entry(name, set.path@, AnimationType::Throbber),
        )
    }
}

/// The catalog after the first `k` animation sets have been read.
pub open spec fn with_sets(catalog: Seq<AnimationView>, sets: Seq<AnimationSet>, k: int) -> Seq<
    AnimationView,
>
    decreases k,
{
    if k <= 0 {
        catalog
    } else {
        with_set(with_sets(catalog, sets, k - 1), sets[k - 1])
    }
}

/// `text` with every `from` turned into `to`.
pub open spec fn replaced(text: Seq<char>, from: char, to: char) -> Seq<char> {
    text.map_values(
        |c: char|
            if c == from {
                to
            } else {
                c
            },
    )
}

/// Calls `str::replace` with a character as the pattern. Trusted: the
/// result is the text with every occurrence of `from` replaced by `to` and
/// every other character kept.
#[verifier::external_body]
fn replace_char(text: &str, from: char, to: &str) -> (out: String)
    requires
        to@.len() == 1,
    ensures
        out@ == replaced(text@, from, to@[0]),
{
    text.replace(from, to)
}

/// The type of a downloaded animation, read off its file name: `boot` in
/// the name makes it a boot animation, else `suspend` a suspend animation,
/// and any other name a boot animation.
pub open spec fn download_type(stem: Seq<char>) -> AnimationType {
    if is_substring("boot"@, stem) {
        AnimationType::Boot
    } else if is_substring("suspend"@, stem) {
        AnimationType::Suspend
    } else {
        AnimationType::Boot
    }
}

/// The catalog entry for a downloaded file.
pub open spec fn download_entry(stem: Seq<char>, path: Seq<char>) -> AnimationView {
    AnimationView {
        id: "downloaded/"@ + stem,
        name: replaced(replaced(stem, '_', ' '), '-', ' '),
        path,
        animation_type: download_type(stem),
        duration: None,
        optimized_path: None,
    }
}

/// The catalog after a downloaded file has been read; a file without a
/// valid name leaves it as it was.
pub open spec fn with_download(catalog: Seq<AnimationView>, file: DownloadedFile) -> Seq<
    AnimationView,
> {
    match file.stem {
        None => catalog,
        Some(stem) => with_entry(catalog, download_entry(stem@, file.path@)),
    }
}

/// The file is a WebM file by its extension.
pub open spec fn is_webm(file: DownloadedFile) -> bool {
    text_of(file.extension) == Some("webm"@)
}

/// The catalog after the WebM files among the first `k` downloaded files
/// have been read.
pub open spec fn with_downloads(
    catalog: Seq<AnimationView>,
    files: Seq<DownloadedFile>,
    k: int,
) -> Seq<AnimationView>
    decreases k,
{
    if k <= 0 {
        catalog
    } else if is_webm(files[k - 1]) {
        with_download(with_downloads(catalog, files, k - 1), files[k - 1])
    } else {
        with_downloads(catalog, files, k - 1)
    }
}

/// What applying an animation asks for next.
#[derive(Debug)]
pub enum ApplyStep {
    /// The id is not in the catalog; nothing is to be done.
    NotFound,
    /// The entry has no transcoded file yet: `source` is to go through the
    /// cache before anything is mounted at `target`.
    Transcode { source: String, target: String },
    /// The transcoded file `source` is to be mounted at `target`.
    Mount { source: String, target: String },
}

/// The step that applying the id asks for, given the catalog and the
/// place where the type is mounted.
pub open spec fn is_apply_step(
    catalog: Seq<AnimationView>,
    target: Seq<char>,
    id: Seq<char>,
    step: ApplyStep,
) -> bool {
    match step {
        ApplyStep::NotFound => !has_id(catalog, id),
        ApplyStep::Transcode { source, target: place } => {
            &&& has_id(catalog, id)
            &&& catalog[index_of(catalog, id)].optimized_path is None
            &&& source@ == catalog[index_of(catalog, id)].path
            &&& place@ == target
        },
        ApplyStep::Mount { source, target: place } => {
            &&& has_id(catalog, id)
            &&& catalog[index_of(catalog, id)].optimized_path == Some(source@)
            &&& place@ == target
        },
    }
}

/// One operation of a mount swap, on the target file of an animation
/// type.
#[derive(Debug, Clone, Copy, PartialEq, Eq, Structural)]
pub enum MountStep {
    /// Unbind what is mounted at the target. A failure is not fatal: the
    /// target may not be bound.
    Unmount,
    /// Remove the target file if it is still there.
    RemovePlaceholder,
    /// Create the target as an empty file.
    CreatePlaceholder,
    /// Bind the transcoded file onto the target.
    Bind,
}

/// The operations that remove a mounted animation.
pub open spec fn unmount_steps() -> Seq<MountStep> {
    seq![MountStep::Unmount, MountStep::RemovePlaceholder]
}

/// The operations of a mount swap, in order: where the target exists it is
/// unbound and removed first; then a fresh placeholder is made and the
/// file bound onto it.
pub open spec fn mount_steps(target_exists: bool) -> Seq<MountStep> {
    if target_exists {
        unmount_steps() + seq![MountStep::CreatePlaceholder, MountStep::Bind]
    } else {
        seq![MountStep::CreatePlaceholder, MountStep::Bind]
    }
}

/// How an attempt to apply an animation ended.
#[derive(Debug, Clone, Copy, PartialEq, Eq, Structural)]
pub enum ApplyOutcome {
    /// The transcoder failed; no mount step was taken.
    TranscodeFailed,
    /// A mount step failed.
    MountFailed,
    /// The bind succeeded.
    Mounted,
}

fn set_animation(set_name: &str, set_path: &str, anim_type: AnimationType) -> (entry: Animation)
    ensures
        entry@ == set_entry(set_name@, set_path@, anim_type),
{
    let file = type_file_name(anim_type);
    let mut id = String::from_str(set_name);
    id.append("/");
    id.append(file);
    let mut name = String::from_str(set_name);
    match anim_type {
        AnimationType::Boot => {},
        AnimationType::Suspend => {
            name.append(" - ");
            name.append("Suspend");
        },
        AnimationType::Throbber => {
            name.append(" - ");
            name.append("Throbber");
        },
    }
    Animation {
        id,
        name,
        path: join_path(set_path, file),
        animation_type: anim_type,
        duration: None,
        optimized_path: None,
    }
}

fn download_animation(stem: &str, path: &str) -> (entry: Animation)
    ensures
        entry@ == download_entry(stem@, path@),
{
    let anim_type = if str_contains(stem, "boot") {
        AnimationType::Boot
    } else if str_contains(stem, "suspend") {
        AnimationType::Suspend
    } else {
        AnimationType::Boot
    };
    let mut id = String::from_str("downloaded/");
    id.append(stem);
    proof {
        reveal_strlit(" ");
    }
    let spaced = replace_char(stem, '_', " ");
    let name = replace_char(spaced.as_str(), '-', " ");
    Animation {
        id,
        name,
        path: String::from_str(path),
        animation_type: anim_type,
        duration: None,
        optimized_path: None,
    }
}

/// The catalog, the table of mounted animations and the rules that tie
/// them to lifecycle events.
pub struct AnimationManager {
    video_processor: VideoProcessor,
    animations: Vec<Animation>,
    current_boot: Option<String>,
    current_suspend: Option<String>,
    current_throbber: Option<String>,
}

impl AnimationManager {
    /// The settings the manager was made with.
    pub closed spec fn settings(&self) -> Config {
        self.video_processor.settings()
    }

    /// The transcoding cache of the manager.
    pub closed spec fn processor(&self) -> VideoProcessor {
        self.video_processor
    }

    /// The catalog, in the order in which its ids came in.
    pub closed spec fn catalog(&self) -> Seq<AnimationView> {
        views(self.animations@)
    }

    /// The id of the animation that is mounted for a type.
    pub closed spec fn active(&self, anim_type: AnimationType) -> Option<Seq<char>> {
        match anim_type {
            AnimationType::Boot => text_of(self.current_boot),
            AnimationType::Suspend => text_of(self.current_suspend),
            AnimationType::Throbber => text_of(self.current_throbber),
        }
    }

    /// The catalog's invariant: no two entries share an id. A new manager
    /// has it and every method keeps it.
    pub open spec fn wf(&self) -> bool {
        unique_ids(self.catalog())
    }

    /// The place where the override file of a type is mounted: the file of
    /// the type under the configured override directory.
    pub open spec fn target_path(&self, anim_type: AnimationType) -> Seq<char> {
        joined(self.settings().steam_override_path@, file_name(anim_type))
    }

    /// A manager with an empty catalog and nothing mounted.
    pub fn new(config: Config) -> (manager: AnimationManager)
        ensures
            manager.wf(),
            manager.settings() == config,
            manager.processor().settings() == config,
            manager.catalog().len() == 0,
            forall|t: AnimationType| manager.active(t) is None,
    {
        let video_processor = VideoProcessor::new(config);
        AnimationManager {
            video_processor,
            animations: Vec::new(),
            current_boot: None,
            current_suspend: None,
            current_throbber: None,
        }
    }

    /// The transcoding cache of the manager.
    pub fn video_processor(&self) -> (processor: &VideoProcessor)
        ensures
            *processor == self.processor(),
            processor.settings() == self.settings(),
    {
        &self.video_processor
    }

    /// The number of catalog entries.
    pub fn animation_count(&self) -> (count: usize)
        ensures
            count == self.catalog().len(),
    {
        self.animations.len()
    }

    fn find(&self, id: &str) -> (place: Option<usize>)
        ensures
            match place {
                Some(i) => first_with_id(self.catalog(), id@, i as int) && index_of(
                    self.catalog(),
                    id@,
                ) == i,
                None => !has_id(self.catalog(), id@),
            },
    {
        let mut i: usize = 0;
        while i < self.animations.len()
            invariant
                i <= self.animations.len(),
                forall|j: int| 0 <= j < i ==> (#[trigger] self.catalog()[j]).id != id@,
            decreases self.animations.len() - i,
        {
            if str_equals(self.animations[i].id.as_str(), id) {
                proof {
                    assert(self.catalog()[i as int].id == id@);
                    lemma_index_of(self.catalog(), id@, i as int);
                }
                return Some(i);
            }
            i += 1;
        }
        None
    }

    /// The catalog entry with the id, if there is one.
    pub fn get_animation(&self, id: &str) -> (entry: Option<&Animation>)
        ensures
            entry is Some <==> has_id(self.catalog(), id@),
            entry matches Some(a) ==> a@ == self.catalog()[index_of(self.catalog(), id@)],
    {
        match self.find(id) {
            Some(i) => {
                assert(self.catalog()[i as int] == self.animations@[i as int]@);
                Some(&self.animations[i])
            },
            None => None,
        }
    }

    /// The id of the animation that is mounted for a type.
    pub fn current_animation(&self, anim_type: AnimationType) -> (id: Option<String>)
        ensures
            text_of(id) == self.active(anim_type),
    {
        match anim_type {
            AnimationType::Boot => copy_text(&self.current_boot),
            AnimationType::Suspend => copy_text(&self.current_suspend),
            AnimationType::Throbber => copy_text(&self.current_throbber),
        }
    }

    /// Puts an entry into the catalog. An entry of the same id is replaced:
    /// the later one wins.
    pub fn insert_animation(&mut self, animation: Animation)
        ensures
            old(self).wf() ==> final(self).wf(),
            final(self).catalog() == with_entry(old(self).catalog(), animation@),
            final(self).settings() == old(self).settings(),
            final(self).processor() == old(self).processor(),
            forall|t: AnimationType| final(self).active(t) == old(self).active(t),
    {
        proof {
            if self.wf() {
                lemma_with_entry_unique(self.catalog(), animation@);
            }
        }
        let ghost before = self.catalog();
        match self.find(animation.id.as_str()) {
            Some(i) => {
                let _ = self.animations.remove(i);
                self.animations.insert(i, animation);
                assert(self.catalog() =~= before.update(i as int, animation@));
            },
            None => {
                self.animations.push(animation);
                assert(self.catalog() =~= before.push(animation@));
            },
        }
    }

    /// The place where the override file of a type is mounted: the file of
    /// the type under the override directory.
    pub fn get_steam_target_path(&self, anim_type: AnimationType) -> (path: String)
        ensures
            path@ == self.target_path(anim_type),
    {
        join_path(
            self.video_processor.config().steam_override_path.as_str(),
            type_file_name(anim_type),
        )
    }

    /// The ids a random draw for the type chooses from: the entries of the
    /// type whose id is not excluded, in catalog order.
    pub fn candidates(&self, anim_type: AnimationType) -> (ids: Vec<String>)
        ensures
            crate::text::texts(ids@) == candidate_ids(
                self.catalog(),
                anim_type,
                self.settings().shuffle_exclusions@,
            ),
    {
        let exclusions = &self.video_processor.config().shuffle_exclusions;
        let mut ids: Vec<String> = Vec::new();
        let mut i: usize = 0;
        while i < self.animations.len()
            invariant
                i <= self.animations.len(),
                exclusions@ == self.settings().shuffle_exclusions@,
                crate::text::texts(ids@) == candidates_among(
                    self.catalog(),
                    anim_type,
                    exclusions@,
                    i as int,
                ),
            decreases self.animations.len() - i,
        {
            let entry = &self.animations[i];
            assert(self.catalog()[i as int] == entry@);
            if entry.animation_type == anim_type && !is_listed(exclusions, entry.id.as_str()) {
                let ghost before = ids@;
                ids.push(entry.id.clone());
                assert(crate::text::texts(ids@) =~= crate::text::texts(before).push(entry.id@));
            }
            i += 1;
        }
        ids
    }

    /// Draws one animation of the type at random among those that are not
    /// excluded. Nothing is drawn exactly when there is no candidate; a
    /// drawn id is never an excluded one.
    pub fn select_random_animation(&self, anim_type: AnimationType) -> (choice: Option<String>)
        ensures
            is_draw(self.catalog(), anim_type, self.settings().shuffle_exclusions@, choice),
    {
        let ids = self.candidates(anim_type);
        let choice = choose_one(&ids);
        proof {
            lemma_candidates_eligible(
                self.catalog(),
                anim_type,
                self.settings().shuffle_exclusions@,
                self.catalog().len() as int,
            );
            if choice is Some {
                let id = choice->0;
                let i = choose|i: int| 0 <= i < ids@.len() && (#[trigger] ids@[i])@ == id@;
                assert(crate::text::texts(ids@)[i] == id@);
            }
        }
        choice
    }

    /// Draws within a set. No grouping by set is kept, so this is the draw
    /// of `select_random_animation`.
    pub fn select_random_from_set(&self, anim_type: AnimationType) -> (choice: Option<String>)
        ensures
            is_draw(self.catalog(), anim_type, self.settings().shuffle_exclusions@, choice),
    {
        self.select_random_animation(anim_type)
    }

    /// Chooses the boot animation for a start: the configured one where
    /// drawing is disabled, a fresh draw otherwise. `None` says that
    /// nothing is to be applied.
    pub fn prepare_boot_animation(&self) -> (choice: Option<String>)
        ensures
            self.settings().randomize_mode == RandomizeMode::Disabled ==> text_of(choice)
                == text_of(self.settings().current_boot_animation),
            self.settings().randomize_mode != RandomizeMode::Disabled ==> is_draw(
                self.catalog(),
                AnimationType::Boot,
                self.settings().shuffle_exclusions@,
                choice,
            ),
    {
        let config = self.video_processor.config();
        match config.randomize_mode {
            RandomizeMode::Disabled => copy_text(&config.current_boot_animation),
            RandomizeMode::PerBoot => self.select_random_animation(AnimationType::Boot),
            RandomizeMode::PerSet => self.select_random_from_set(AnimationType::Boot),
        }
    }

    /// Chooses the suspend animation: the configured one where drawing is
    /// disabled, a fresh draw otherwise. `None` says that nothing is to be
    /// applied.
    pub fn prepare_suspend_animation(&self) -> (choice: Option<String>)
        ensures
            self.settings().randomize_mode == RandomizeMode::Disabled ==> text_of(choice)
                == text_of(self.settings().current_suspend_animation),
            self.settings().randomize_mode != RandomizeMode::Disabled ==> is_draw(
                self.catalog(),
                AnimationType::Suspend,
                self.settings().shuffle_exclusions@,
                choice,
            ),
    {
        let config = self.video_processor.config();
        match config.randomize_mode {
            RandomizeMode::Disabled => copy_text(&config.current_suspend_animation),
            RandomizeMode::PerBoot => self.select_random_animation(AnimationType::Suspend),
            RandomizeMode::PerSet => self.select_random_from_set(AnimationType::Suspend),
        }
    }

    /// Chooses the animation for a resume, which is the boot animation.
    pub fn prepare_resume_animation(&self) -> (choice: Option<String>)
        ensures
            self.settings().randomize_mode == RandomizeMode::Disabled ==> text_of(choice)
                == text_of(self.settings().current_boot_animation),
            self.settings().randomize_mode != RandomizeMode::Disabled ==> is_draw(
                self.catalog(),
                AnimationType::Boot,
                self.settings().shuffle_exclusions@,
                choice,
            ),
    {
        self.prepare_boot_animation()
    }

    /// Reads one animation set into the catalog: an entry for each of the
    /// three files that the set holds. A set without a valid name, or with
    /// a `config.json` that cannot be read, is refused and changes nothing.
    pub fn load_animation_set(&mut self, set: &AnimationSet) -> (result: Result<(), CatalogError>)
        ensures
            old(self).wf() ==> final(self).wf(),
            final(self).catalog() == with_set(old(self).catalog(), *set),
            result == match set_error(*set) {
                Some(e) => Err::<(), CatalogError>(e),
                None => Ok(()),
            },
            final(self).settings() == old(self).settings(),
            final(self).processor() == old(self).processor(),
            forall|t: AnimationType| final(self).active(t) == old(self).active(t),
    {
        let name = match &set.name {
            Some(name) => name,
            None => {
                return Err(CatalogError::InvalidSetName);
            },
        };
        if !set.config_readable {
            return Err(CatalogError::UnreadableSetConfig);
        }
        if set.has_boot {
            self.insert_animation(
                set_animation(name.as_str(), set.path.as_str(), AnimationType::Boot),
            );
        }
        if set.has_suspend {
            self.insert_animation(
                set_animation(name.as_str(), set.path.as_str(), AnimationType::Suspend),
            );
        }
        if set.has_throbber {
            self.insert_animation(
                set_animation(name.as_str(), set.path.as_str(), AnimationType::Throbber),
            );
        }
        Ok(())
    }

    /// Reads one downloaded file into the catalog. Its type is read off
    /// its name, and its display name is the file name with `_` and `-`
    /// turned into spaces. A file without a valid name is refused and
    /// changes nothing.
    pub fn load_downloaded_animation(&mut self, file: &DownloadedFile) -> (result: Result<
        (),
        CatalogError,
    >)
        ensures
            old(self).wf() ==> final(self).wf(),
            final(self).catalog() == with_download(old(self).catalog(), *file),
            result == match file.stem {
                None => Err::<(), CatalogError>(CatalogError::InvalidFileName),
                Some(_) => Ok(()),
            },
            final(self).settings() == old(self).settings(),
            final(self).processor() == old(self).processor(),
            forall|t: AnimationType| final(self).active(t) == old(self).active(t),
    {
        match &file.stem {
            None => Err(CatalogError::InvalidFileName),
            Some(stem) => {
                self.insert_animation(download_animation(stem.as_str(), file.path.as_str()));
                Ok(())
            },
        }
    }

    /// Builds the catalog anew from a listing of the animations folder and
    /// a listing of the downloads folder: first every animation set, then
    /// every downloaded WebM file, each in the order of its listing.
    /// Entries that are refused are passed over.
    pub fn load_animations(&mut self, sets: &Vec<AnimationSet>, downloads: &Vec<DownloadedFile>)
        ensures
            final(self).wf(),
            final(self).catalog() == with_downloads(
                with_sets(Seq::empty(), sets@, sets@.len() as int),
                downloads@,
                downloads@.len() as int,
            ),
            final(self).settings() == old(self).settings(),
            final(self).processor() == old(self).processor(),
            forall|t: AnimationType| final(self).active(t) == old(self).active(t),
    {
        self.animations.clear();
        assert(self.catalog() =~= Seq::<AnimationView>::empty());
        let mut i: usize = 0;
        while i < sets.len()
            invariant
                i <= sets.len(),
                self.wf(),
                self.catalog() == with_sets(Seq::empty(), sets@, i as int),
                self.settings() == old(self).settings(),
                self.processor() == old(self).processor(),
                forall|t: AnimationType| self.active(t) == old(self).active(t),
            decreases sets.len() - i,
        {
            let _ = self.load_animation_set(&sets[i]);
            i += 1;
        }
        let ghost from_sets = self.catalog();
        let mut k: usize = 0;
        while k < downloads.len()
            invariant
                k <= downloads.len(),
                self.wf(),
                self.catalog() == with_downloads(from_sets, downloads@, k as int),
                self.settings() == old(self).settings(),
                self.processor() == old(self).processor(),
                forall|t: AnimationType| self.active(t) == old(self).active(t),
            decreases downloads.len() - k,
        {
            let webm = match &downloads[k].extension {
                Some(ext) => str_equals(ext.as_str(), "webm"),
                None => false,
            };
            if webm {
                let _ = self.load_downloaded_animation(&downloads[k]);
            }
            k += 1;
        }
    }

    /// The first step of applying an animation to a type. An id that the
    /// catalog does not hold is `NotFound`. An entry without a transcoded
    /// file asks for its source to go through the cache first; an entry
    /// with one asks for that file to be mounted at the place of the type.
    /// Nothing changes yet.
    pub fn apply_animation(&self, anim_type: AnimationType, animation_id: &str) -> (step: ApplyStep)
        ensures
            is_apply_step(self.catalog(), self.target_path(anim_type), animation_id@, step),
    {
        match self.find(animation_id) {
            None => ApplyStep::NotFound,
            Some(i) => {
                assert(self.catalog()[i as int] == self.animations@[i as int]@);
                let target = self.get_steam_target_path(anim_type);
                match &self.animations[i].optimized_path {
                    Some(optimized) => ApplyStep::Mount { source: optimized.clone(), target },
                    None => ApplyStep::Transcode {
                        source: self.animations[i].path.clone(),
                        target,
                    },
                }
            },
        }
    }

    /// Notes the transcoded file of a catalog entry. Returns whether the
    /// catalog holds the id; where it does not, nothing changes.
    pub fn record_optimized(&mut self, animation_id: &str, optimized_path: String) -> (found: bool)
        ensures
            old(self).wf() ==> final(self).wf(),
            found == has_id(old(self).catalog(), animation_id@),
            !found ==> final(self).catalog() == old(self).catalog(),
            found ==> final(self).catalog() == old(self).catalog().update(
                index_of(old(self).catalog(), animation_id@),
                (AnimationView {
                    optimized_path: Some(optimized_path@),
                    ..old(self).catalog()[index_of(old(self).catalog(), animation_id@)]
                }),
            ),
            final(self).settings() == old(self).settings(),
            final(self).processor() == old(self).processor(),
            forall|t: AnimationType| final(self).active(t) == old(self).active(t),
    {
        let ghost before = self.catalog();
        match self.find(animation_id) {
            None => false,
            Some(i) => {
                assert(before[i as int] == self.animations@[i as int]@);
                let mut entry = self.animations.remove(i);
                entry.optimized_path = Some(optimized_path);
                let ghost noted = entry@;
                self.animations.insert(i, entry);
                assert(self.catalog() =~= before.update(i as int, noted));
                assert forall|a: int| 0 <= a < self.catalog().len() implies (
                #[trigger] self.catalog()[a]).id == before[a].id by {}
                assert(unique_ids(before) ==> unique_ids(self.catalog())) by {
                    if unique_ids(before) {
                        assert forall|a: int, b: int|
                            0 <= a < self.catalog().len() && 0 <= b < self.catalog().len() && (
                            #[trigger] self.catalog()[a]).id == (
                            #[trigger] self.catalog()[b]).id implies a == b by {
                            assert(before[a].id == before[b].id);
                        }
                    }
                }
                true
            },
        }
    }

    /// The operations that mount a file at a target, in order.
    pub fn mount_animation(&self, target_exists: bool) -> (steps: Vec<MountStep>)
        ensures
            steps@ == mount_steps(target_exists),
    {
        let mut steps: Vec<MountStep> = if target_exists {
            self.unmount_animation()
        } else {
            Vec::new()
        };
        steps.push(MountStep::CreatePlaceholder);
        steps.push(MountStep::Bind);
        assert(steps@ =~= mount_steps(target_exists));
        steps
    }

    /// The operations that remove what is mounted at a target, in order.
    pub fn unmount_animation(&self) -> (steps: Vec<MountStep>)
        ensures
            steps@ == unmount_steps(),
    {
        let mut steps: Vec<MountStep> = Vec::new();
        steps.push(MountStep::Unmount);
        steps.push(MountStep::RemovePlaceholder);
        assert(steps@ =~= unmount_steps());
        steps
    }

    /// Closes an attempt to apply an animation. Only a successful bind
    /// makes the id the active one of its type; after a failed transcode or
    /// a failed mount the table is what it was.
    pub fn complete_apply(
        &mut self,
        anim_type: AnimationType,
        animation_id: &str,
        outcome: ApplyOutcome,
    )
        ensures
            forall|t: AnimationType|
                final(self).active(t) == if outcome == ApplyOutcome::Mounted && t == anim_type {
                    Some(animation_id@)
                } else {
                    old(self).active(t)
                },
            final(self).catalog() == old(self).catalog(),
            final(self).settings() == old(self).settings(),
            final(self).processor() == old(self).processor(),
    {
        match outcome {
            ApplyOutcome::Mounted => {
                let id = Some(String::from_str(animation_id));
                match anim_type {
                    AnimationType::Boot => {
                        self.current_boot = id;
                    },
                    AnimationType::Suspend => {
                        self.current_suspend = id;
                    },
                    AnimationType::Throbber => {
                        self.current_throbber = id;
                    },
                }
            },
            _ => {},
        }
    }

    /// The targets to unmount when the client has shut down: the place of
    /// each animation type, boot first, then suspend, then throbber.
    pub fn cleanup(&self) -> (targets: Vec<String>)
        ensures
            targets@.len() == 3,
            targets@[0]@ == self.target_path(AnimationType::Boot),
            targets@[1]@ == self.target_path(AnimationType::Suspend),
            targets@[2]@ == self.target_path(AnimationType::Throbber),
    {
        let mut targets: Vec<String> = Vec::new();
        targets.push(self.get_steam_target_path(AnimationType::Boot));
        targets.push(self.get_steam_target_path(AnimationType::Suspend));
        targets.push(self.get_steam_target_path(AnimationType::Throbber));
        targets
    }

    /// Starts the periodic sweep of the cache; mounted animations are not
    /// touched.
    pub fn maintenance(&self, entries: &Vec<CacheEntry>, now: u128) -> (walk: SweepWalk)
        ensures
            walk.wf(),
            walk.entries() == sorted_by_age(entries@),
            walk.limits() == self.processor().sweep_limits(now),
            walk.position() == 0,
            !walk.awaiting(),
            walk.running_total() == total_size(walk.entries()),
    {
        self.video_processor.cleanup_cache(entries, now)
    }
}

} // verus!
