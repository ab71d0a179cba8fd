//! The cache of textures, keyed by a hash of the path that each came from,
//! and what is waiting to be put on screen.

use vstd::prelude::*;
use crate::atlas::AtlasLayout;
use crate::delay::{is_run_encoding, GifFrameDelay, Millis};
use crate::images::{GifImage, GifTimer, ImageIndex, ImageMeta, StandardImage};
use crate::layout::LayoutManager;
use crate::loader::{AssetView, DecodedAsset};
use crate::scan::{file_name, spec_file_name, CandidatePath};
use crate::size::Size;
use crate::worker::{Worker, WorkerView};

verus! {

/// The key of a texture in the cache: a hash of the path of its file.
pub type TextureID = u64;

/// What the renderer gave for pixels that were sent to it.
#[derive(Clone, Copy, Debug, PartialEq, Eq, Structural)]
pub struct TextureHandle(pub u64);

/// What the renderer gave for the numbers by which a shader finds a frame.
#[derive(Clone, Copy, Debug, PartialEq, Eq, Structural)]
pub struct UniformHandle(pub u64);

/// An animation on the renderer's side: its texture, and how its frames lie
/// in it.
#[derive(Clone, Copy, Debug, PartialEq, Eq, Structural)]
pub struct Gif {
    pub texture: TextureHandle,
    pub buffer: UniformHandle,
    pub total_frames: u32,
    pub frames_per_row: u32,
}

/// What an entry of the cache holds on the renderer's side: the texture of
/// a still image, or an animation and the delay of each of its frames.
#[derive(Debug)]
pub enum TextureType {
    Texture(TextureHandle),
    Gif { gif: Gif, frames: Vec<Millis> },
}

/// One entry of the cache.
#[derive(Debug)]
pub struct TextureData {
    pub texture: TextureType,
    pub path: String,
    pub resolution: Size,
}

/// `ahash::RandomState`, the maker of hashers that an `AHashMap` holds.
/// Nothing is known of what is inside.
#[verifier::external_type_specification]
#[verifier::external_body]
pub struct ExRandomState(ahash::RandomState);

/// `ahash::AHashMap`. Nothing is known of what is inside but through
/// `cache_entries`.
#[verifier::external_type_specification]
#[verifier::external_body]
#[verifier::reject_recursive_types(K)]
#[verifier::reject_recursive_types(V)]
#[verifier::reject_recursive_types(S)]
pub struct ExAHashMap<K, V, S>(ahash::AHashMap<K, V, S>);

/// The entries that a map of the cache holds.
pub uninterp spec fn cache_entries(map: ahash::AHashMap<TextureID, TextureData>) -> Map<
    TextureID,
    TextureData,
>;

/// No entries.
pub open spec fn no_entries() -> Map<TextureID, TextureData> {
    Map::empty()
}

/// A map without entries.
///
/// Trusted: calls `ahash::AHashMap::new`, which gives an empty map. The
/// first call in a process draws the keys of the hasher from the operating
/// system.
#[verifier::external_body]
fn cache_new() -> (cache: ahash::AHashMap<TextureID, TextureData>)
    ensures
        cache_entries(cache) == no_entries(),
{
    ahash::AHashMap::new()
}

/// The entry under `id`, where there is one.
///
/// Trusted: calls `ahash::AHashMap::get`, which looks the key up and
/// changes nothing.
#[verifier::external_body]
fn cache_get(map: &ahash::AHashMap<TextureID, TextureData>, id: TextureID) -> (r: Option<
    &TextureData,
>)
    ensures
        r is Some <==> cache_entries(*map).contains_key(id),
        r matches Some(entry) ==> *entry == cache_entries(*map)[id],
{
    map.get(&id)
}

/// Puts `entry` under `id` and gives back what was there before.
///
/// Trusted: calls `ahash::AHashMap::insert`, which replaces the value under
/// a key that the map holds, adds the pair under one that it does not, and
/// leaves the other entries as they are.
#[verifier::external_body]
fn cache_insert(
    map: &mut ahash::AHashMap<TextureID, TextureData>,
    id: TextureID,
    entry: TextureData,
) -> (before: Option<TextureData>)
    ensures
        cache_entries(*final(map)) == cache_entries(*old(map)).insert(id, entry),
        before is Some <==> cache_entries(*old(map)).contains_key(id),
        before matches Some(e) ==> e == cache_entries(*old(map))[id],
{
    map.insert(id, entry)
}

/// A hash of `path`.
///
/// Trusted: calls `ahash::AHasher::default`, feeds it the path through
/// `Hash for Path` and calls `Hasher::finish`. The hasher's keys are drawn
/// once in every process, so nothing is stated of the number that comes
/// out.
#[verifier::external_body]
fn hash_path(path: &str) -> (id: TextureID) {
    let mut hasher = ahash::AHasher::default();
    std::hash::Hash::hash(std::path::Path::new(path), &mut hasher);
    std::hash::Hasher::finish(&hasher)
}

/// The cache, the identifiers that wait to be put on screen, and whether a
/// scan is under way.
pub struct Storage {
    textures: ahash::AHashMap<TextureID, TextureData>,
    loading: bool,
    to_spawn: Vec<TextureID>,
}

/// What `Storage` holds, as plain values.
pub struct StorageView {
    pub textures: Map<TextureID, TextureData>,
    pub loading: bool,
    pub to_spawn: Seq<TextureID>,
}

impl StorageView {
    /// Every identifier that waits has an entry in the cache.
    pub open spec fn wf(self) -> bool {
        forall|i: int| 0 <= i < self.to_spawn.len() ==> self.textures.contains_key(#[trigger] self.to_spawn[i])
    }

    /// The first entry under an identifier stays: `entry` goes in only
    /// where `id` has none yet.
    pub open spec fn insert_if_absent(self, id: TextureID, entry: TextureData) -> StorageView {
        if self.textures.contains_key(id) {
            self
        } else {
            StorageView { textures: self.textures.insert(id, entry), ..self }
        }
    }

    /// `entry` is cached under `id`, and `id` waits to be put on screen.
    pub open spec fn ingest(self, id: TextureID, entry: TextureData) -> StorageView {
        StorageView { to_spawn: self.to_spawn.push(id), ..self.insert_if_absent(id, entry) }
    }

    /// The scan is over.
    pub open spec fn finish(self) -> StorageView {
        StorageView { loading: false, ..self }
    }
}

/// Whatever is ingested, every identifier that waits still has an entry.
pub proof fn lemma_ingest_keeps_wf(storage: StorageView, id: TextureID, entry: TextureData)
    requires
        storage.wf(),
    ensures
        storage.insert_if_absent(id, entry).wf(),
        storage.ingest(id, entry).wf(),
        storage.ingest(id, entry).textures.contains_key(id),
{
    let after = storage.ingest(id, entry);
    assert forall|i: int| 0 <= i < after.to_spawn.len() implies after.textures.contains_key(
        #[trigger] after.to_spawn[i],
    ) by {
        if i < storage.to_spawn.len() {
            assert(after.to_spawn[i] == storage.to_spawn[i]);
        }
    }
}

/// An entry that is cached is never replaced: ingesting under its
/// identifier again leaves it as it was.
pub proof fn lemma_first_entry_stays(storage: StorageView, id: TextureID, entry: TextureData)
    requires
        storage.textures.contains_key(id),
    ensures
        storage.ingest(id, entry).textures == storage.textures,
{
}

impl View for Storage {
    type V = StorageView;

    closed spec fn view(&self) -> StorageView {
        StorageView {
            textures: cache_entries(self.textures),
            loading: self.loading,
            to_spawn: self.to_spawn@,
        }
    }
}

impl Storage {
    /// An empty cache; no scan is under way and nothing waits.
    pub fn new() -> (r: Self)
        ensures
            r@.textures == no_entries(),
            !r@.loading,
            r@.to_spawn == Seq::<TextureID>::empty(),
            r@.wf(),
    {
        Self { textures: cache_new(), loading: false, to_spawn: Vec::new() }
    }

    /// The entry under `id`, where there is one.
    #[inline]
    pub fn get_texture(&self, id: TextureID) -> (r: Option<&TextureData>)
        ensures
            r is Some <==> self@.textures.contains_key(id),
            r matches Some(entry) ==> *entry == self@.textures[id],
    {
        cache_get(&self.textures, id)
    }

    /// Whether a scan is under way.
    pub fn is_loading(&self) -> (b: bool)
        ensures
            b == self@.loading,
    {
        self.loading
    }

    /// Whether an identifier waits to be put on screen.
    pub fn has_pending(&self) -> (b: bool)
        ensures
            b == (self@.to_spawn.len() > 0),
    {
        self.to_spawn.len() > 0
    }

    /// How many identifiers wait to be put on screen.
    pub fn pending_count(&self) -> (n: usize)
        ensures
            n == self@.to_spawn.len(),
    {
        self.to_spawn.len()
    }

    /// A scan of the given candidates starts, and with it the loading. The
    /// worker that is handed out loads them. Where there is no candidate
    /// there is nothing to load and no worker: the scan is over at once.
    pub fn begin_scan(&mut self, candidates: Vec<CandidatePath>) -> (worker: Option<Worker>)
        ensures
            final(self)@ == (StorageView { loading: candidates.len() > 0, ..old(self)@ }),
            worker is Some <==> candidates.len() > 0,
            worker matches Some(w) ==> w@ == WorkerView::initial(candidates.len() as int)
                && w.spec_candidates() == candidates@,
    {
        self.loading = true;
        if candidates.len() == 0 {
            self.loading = false;
            return None;
        }
        Some(Worker::new(candidates))
    }

    /// The scan is over: it ended, its worker is gone, or it was called off.
    pub fn stop_loading(&mut self)
        ensures
            final(self)@ == old(self)@.finish(),
    {
        self.loading = false;
    }

    /// Caches `entry` under `id` unless `id` has an entry already, which
    /// then stays. Says whether `entry` went in.
    pub fn insert_if_absent(&mut self, id: TextureID, entry: TextureData) -> (inserted: bool)
        ensures
            final(self)@ == old(self)@.insert_if_absent(id, entry),
            inserted == !old(self)@.textures.contains_key(id),
            old(self)@.wf() ==> final(self)@.wf(),
    {
        proof {
            if old(self)@.wf() {
                lemma_ingest_keeps_wf(old(self)@, id, entry);
            }
        }
        if cache_get(&self.textures, id).is_some() {
            return false;
        }
        let _ = cache_insert(&mut self.textures, id, entry);
        true
    }

    /// Caches `entry` under `id` as `insert_if_absent` does, and lets `id`
    /// wait to be put on screen.
    pub fn ingest(&mut self, id: TextureID, entry: TextureData)
        ensures
            final(self)@ == old(self)@.ingest(id, entry),
            old(self)@.wf() ==> final(self)@.wf(),
    {
        proof {
            if old(self)@.wf() {
                lemma_ingest_keeps_wf(old(self)@, id, entry);
            }
        }
        self.insert_if_absent(id, entry);
        self.to_spawn.push(id);
    }
}

/// What the renderer gave for the pixels of an asset: a texture for a still
/// image; a texture and the shader's numbers for an animation.
#[derive(Clone, Copy, Debug, PartialEq, Eq, Structural)]
pub enum Uploaded {
    Texture(TextureHandle),
    Atlas(TextureHandle, UniformHandle),
}

/// The numbers by which a shader finds a frame in the texture of an
/// animation. A frame takes `frame_size.width / texture_size.width` of the
/// texture's width and `frame_size.height / texture_size.height` of its
/// height.
#[derive(Clone, Copy, Debug, PartialEq, Eq, Structural)]
pub struct GifRawData {
    pub total_frames: u32,
    pub frames_per_row: u32,
    pub frame_size: Size,
    pub texture_size: Size,
}

/// The shader's numbers for an animation that is laid out as `layout` says.
pub fn raw_data(layout: &AtlasLayout) -> (r: GifRawData)
    ensures
        r.total_frames == layout@.total_frames,
        r.frames_per_row == layout@.frames_per_row,
        r.frame_size.width == layout@.frame_width,
        r.frame_size.height == layout@.frame_height,
        r.texture_size.width == layout@.atlas_width(),
        r.texture_size.height == layout@.atlas_height(),
{
    GifRawData {
        total_frames: layout.total_frames(),
        frames_per_row: layout.frames_per_row(),
        frame_size: layout.frame_size(),
        texture_size: layout.atlas_size(),
    }
}

/// Whether `entry` is the cache entry of `asset` once the renderer gave
/// `uploaded` for its pixels. The resolution of a still image is that of
/// its pixels, the resolution of an animation that of one frame.
pub open spec fn is_entry_of(entry: TextureData, asset: AssetView, uploaded: Uploaded) -> bool {
    match (asset, uploaded) {
        (AssetView::Static { path, pixels }, Uploaded::Texture(texture)) => {
            &&& entry.path@ == path
            &&& entry.resolution.width == pixels.width
            &&& entry.resolution.height == pixels.height
            &&& entry.texture == TextureType::Texture(texture)
        },
        (
            AssetView::Animated { path, atlas_pixels, layout, per_frame_delay },
            Uploaded::Atlas(texture, buffer),
        ) => {
            &&& entry.path@ == path
            &&& entry.resolution.width == layout.frame_width
            &&& entry.resolution.height == layout.frame_height
            &&& entry.texture matches TextureType::Gif { gif, frames }
            &&& gif.texture == texture
            &&& gif.buffer == buffer
            &&& gif.total_frames == layout.total_frames
            &&& gif.frames_per_row == layout.frames_per_row
            &&& frames@ == per_frame_delay
        },
        _ => false,
    }
}

/// Whether the renderer's answer is of the kind that the asset asks for.
pub open spec fn upload_fits(asset: AssetView, uploaded: Uploaded) -> bool {
    (asset is Static && uploaded is Texture) || (asset is Animated && uploaded is Atlas)
}

/// The cache entry of an asset whose pixels the renderer has taken. There
/// is none for `ScanComplete`, nor where the renderer's answer is of the
/// wrong kind.
pub fn texture_data(asset: DecodedAsset, uploaded: Uploaded) -> (r: Option<TextureData>)
    ensures
        r is Some <==> upload_fits(asset@, uploaded),
        r matches Some(entry) ==> is_entry_of(entry, asset@, uploaded),
{
    match (asset, uploaded) {
        (DecodedAsset::Static { path, pixels }, Uploaded::Texture(texture)) => {
            let resolution = pixels.size();
            Some(TextureData { texture: TextureType::Texture(texture), path, resolution })
        },
        (
            DecodedAsset::Animated { path, atlas_pixels, layout, per_frame_delay },
            Uploaded::Atlas(texture, buffer),
        ) => {
            let gif = Gif {
                texture,
                buffer,
                total_frames: layout.total_frames(),
                frames_per_row: layout.frames_per_row(),
            };
            let resolution = layout.frame_size();
            Some(
                TextureData {
                    texture: TextureType::Gif { gif, frames: per_frame_delay },
                    path,
                    resolution,
                },
            )
        },
        _ => None,
    }
}

/// What the main thread found on the channel, the pixels already with the
/// renderer.
#[derive(Debug)]
pub enum IngestEvent {
    /// An asset arrived; this is its cache entry.
    Loaded(TextureData),
    /// The worker has sent all there is.
    ScanComplete,
    /// The worker is gone.
    Disconnected,
}

/// The storage after one event, `id` being the hash of the path where an
/// asset arrived: the asset is ingested; the end of the scan, or the loss
/// of the worker, ends the loading.
pub open spec fn spec_process(storage: StorageView, event: IngestEvent, id: TextureID) -> StorageView {
    match event {
        IngestEvent::Loaded(entry) => storage.ingest(id, entry),
        IngestEvent::ScanComplete => storage.finish(),
        IngestEvent::Disconnected => storage.finish(),
    }
}

/// The storage after the events in their order, `ids[i]` being the hash
/// that belongs to `events[i]`.
pub open spec fn spec_drain(storage: StorageView, events: Seq<IngestEvent>, ids: Seq<TextureID>) -> StorageView
    decreases events.len(),
{
    if events.len() == 0 {
        storage
    } else {
        spec_process(
            spec_drain(storage, events.drop_last(), ids.drop_last()),
            events.last(),
            ids.last(),
        )
    }
}

/// No event changes an entry that is cached: entries are added, and that
/// is all.
pub proof fn lemma_entries_stay(
    storage: StorageView,
    events: Seq<IngestEvent>,
    ids: Seq<TextureID>,
    key: TextureID,
)
    requires
        ids.len() == events.len(),
        storage.textures.contains_key(key),
    ensures
        spec_drain(storage, events, ids).textures.contains_key(key),
        spec_drain(storage, events, ids).textures[key] == storage.textures[key],
    decreases events.len(),
{
    if events.len() > 0 {
        lemma_entries_stay(storage, events.drop_last(), ids.drop_last(), key);
    }
}

/// The loading ends with the first event that says so: after a drain it
/// goes on only if it went on before and every event was an asset. And
/// every identifier that waits after a drain has an entry, if it was so
/// before.
pub proof fn lemma_drain_ends_loading(
    storage: StorageView,
    events: Seq<IngestEvent>,
    ids: Seq<TextureID>,
)
    requires
        ids.len() == events.len(),
    ensures
        spec_drain(storage, events, ids).loading == (storage.loading && forall|k: int|
            0 <= k < events.len() ==> (#[trigger] events[k]) is Loaded),
        storage.wf() ==> spec_drain(storage, events, ids).wf(),
    decreases events.len(),
{
    if events.len() > 0 {
        let front = events.drop_last();
        lemma_drain_ends_loading(storage, front, ids.drop_last());
        let before = spec_drain(storage, front, ids.drop_last());
        assert forall|k: int| 0 <= k < front.len() implies front[k] == events[k] by {}
        if forall|k: int| 0 <= k < events.len() ==> (#[trigger] events[k]) is Loaded {
            assert forall|k: int| 0 <= k < front.len() implies (#[trigger] front[k]) is Loaded by {
                assert(events[k] is Loaded);
            }
            assert(events[events.len() - 1] is Loaded);
        } else {
            if events.last() is Loaded {
                let k = choose|k: int| 0 <= k < events.len() && !((#[trigger] events[k]) is Loaded);
                assert(!(front[k] is Loaded));
            }
        }
        if storage.wf() {
            match events.last() {
                IngestEvent::Loaded(entry) => {
                    lemma_ingest_keeps_wf(before, ids.last(), entry);
                },
                _ => {},
            }
        }
    }
}

/// The image that is put on screen for a cache entry.
#[derive(Debug)]
pub enum Visual {
    Standard(StandardImage),
    Gif(GifImage, GifTimer),
}

/// What the scene is asked to put on screen for one identifier.
#[derive(Debug)]
pub struct SpawnRequest {
    pub index: ImageIndex,
    /// The name of the file, shown under the image.
    pub label: String,
    pub meta: ImageMeta,
    pub visual: Visual,
}

/// Whether `request` is what is put on screen for the entry `entry` under
/// `id` at place `index` of the grid: an animation starts at its first
/// frame with no time passed, its delays being those of the entry.
pub open spec fn is_request_for(request: SpawnRequest, id: TextureID, entry: TextureData, index: int) -> bool {
    &&& request.index.index == index
    &&& request.label@ == spec_file_name(entry.path@)
    &&& request.meta.texture_resolution == entry.resolution
    &&& match entry.texture {
        TextureType::Texture(texture) => request.visual matches Visual::Standard(image) && image
            == (StandardImage { id, texture }),
        TextureType::Gif { gif, frames } => {
            &&& request.visual matches Visual::Gif(image, timer)
            &&& image == (GifImage {
                id,
                frame: 0,
                total_frames: gif.total_frames,
                frames_per_row: gif.frames_per_row,
                gif,
            })
            &&& timer.acc == Millis(0)
            &&& is_run_encoding(timer.delay@, frames@)
        },
    }
}

/// What is put on screen for `entry`.
fn request_for(id: TextureID, entry: &TextureData, index: u32) -> (request: SpawnRequest)
    ensures
        is_request_for(request, id, *entry, index as int),
{
    let visual = match &entry.texture {
        TextureType::Texture(texture) => Visual::Standard(StandardImage { id, texture: *texture }),
        TextureType::Gif { gif, frames } => Visual::Gif(
            GifImage {
                id,
                frame: 0,
                total_frames: gif.total_frames,
                frames_per_row: gif.frames_per_row,
                gif: *gif,
            },
            GifTimer { acc: Millis(0), delay: GifFrameDelay::from_durations(frames) },
        ),
    };
    SpawnRequest {
        index: ImageIndex { index },
        label: file_name(entry.path.as_str()),
        meta: ImageMeta { texture_resolution: entry.resolution },
        visual,
    }
}

impl Storage {
    /// Whether every identifier that waits has an entry in the cache.
    pub fn is_consistent(&self) -> (b: bool)
        ensures
            b == self@.wf(),
    {
        let mut i: usize = 0;
        while i < self.to_spawn.len()
            invariant
                i <= self.to_spawn.len(),
                forall|j: int|
                    0 <= j < i ==> cache_entries(self.textures).contains_key(
                        #[trigger] self.to_spawn@[j],
                    ),
            decreases self.to_spawn.len() - i,
        {
            if cache_get(&self.textures, self.to_spawn[i]).is_none() {
                proof {
                    assert(!self@.textures.contains_key(self@.to_spawn[i as int]));
                }
                return false;
            }
            i += 1;
        }
        true
    }

    /// Takes one event from the channel: an asset is cached under the hash
    /// of its path and waits to be put on screen; the end of the scan, or
    /// the loss of the worker, ends the loading.
    pub fn process(&mut self, event: IngestEvent) -> (id: Option<TextureID>)
        ensures
            event is Loaded <==> id is Some,
            id matches Some(id) ==> final(self)@ == spec_process(old(self)@, event, id),
            id is None ==> final(self)@ == old(self)@.finish(),
            old(self)@.wf() ==> final(self)@.wf(),
    {
        match event {
            IngestEvent::Loaded(entry) => {
                let id = hash_path(entry.path.as_str());
                self.ingest(id, entry);
                Some(id)
            },
            IngestEvent::ScanComplete => {
                self.stop_loading();
                None
            },
            IngestEvent::Disconnected => {
                self.stop_loading();
                None
            },
        }
    }

    /// Takes all events that the channel held at the start of a tick, in
    /// their order.
    pub fn drain(&mut self, events: Vec<IngestEvent>)
        ensures
            exists|ids: Seq<TextureID>| #[trigger]
                ids.len() == events.len() && final(self)@ == spec_drain(old(self)@, events@, ids),
            old(self)@.wf() ==> final(self)@.wf(),
    {
        let ghost mut ids: Seq<TextureID> = Seq::empty();
        let ghost before = self@;
        for event in it: events
            invariant
                it.seq() == events@,
                ids.len() == it.index(),
                self@ == spec_drain(before, events@.take(it.index() as int), ids),
                before.wf() ==> self@.wf(),
        {
            let ghost k = it.index() as int;
            let ghost prefix = self@;
            let id = self.process(event);
            proof {
                let used = match id {
                    Some(id) => id,
                    None => 0u64,
                };
                assert(events@.take(k + 1).drop_last() == events@.take(k));
                assert(events@.take(k + 1).last() == event);
                assert(ids.push(used).drop_last() == ids);
                ids = ids.push(used);
            }
        }
        proof {
            assert(events@.take(events@.len() as int) == events@);
        }
    }

    /// As `spawn_requests`, where every identifier that waits has an entry
    /// and the grid has a place for each; else nothing is asked for and
    /// nothing changes.
    pub fn spawn_pending(&mut self, layout: &mut LayoutManager) -> (requests: Option<
        Vec<SpawnRequest>,
    >)
        ensures
            requests is Some <==> old(self)@.wf() && old(layout)@ + old(self)@.to_spawn.len()
                <= u32::MAX,
            requests is None ==> final(self)@ == old(self)@ && final(layout)@ == old(layout)@,
            requests matches Some(requests) ==> {
                &&& final(self)@ == (StorageView { to_spawn: Seq::empty(), ..old(self)@ })
                &&& final(layout)@ == old(layout)@ + old(self)@.to_spawn.len()
                &&& requests.len() == old(self)@.to_spawn.len()
                &&& forall|k: int|
                    0 <= k < requests.len() ==> is_request_for(
                        #[trigger] requests[k],
                        old(self)@.to_spawn[k],
                        old(self)@.textures[old(self)@.to_spawn[k]],
                        old(layout)@ + k,
                    )
            },
    {
        let free = u32::MAX - layout.image_count();
        if !self.is_consistent() || self.to_spawn.len() > free as usize {
            return None;
        }
        Some(self.spawn_requests(layout))
    }

    /// What the scene is asked to put on screen: one image for each
    /// identifier that waits, in their order, each with the next free place
    /// of the grid. Nothing waits afterwards.
    pub fn spawn_requests(&mut self, layout: &mut LayoutManager) -> (requests: Vec<SpawnRequest>)
        requires
            old(self)@.wf(),
            old(layout)@ + old(self)@.to_spawn.len() <= u32::MAX,
        ensures
            final(self)@ == (StorageView { to_spawn: Seq::empty(), ..old(self)@ }),
            final(layout)@ == old(layout)@ + old(self)@.to_spawn.len(),
            requests.len() == old(self)@.to_spawn.len(),
            forall|k: int|
                0 <= k < requests.len() ==> is_request_for(
                    #[trigger] requests[k],
                    old(self)@.to_spawn[k],
                    old(self)@.textures[old(self)@.to_spawn[k]],
                    old(layout)@ + k,
                ),
    {
        let mut requests: Vec<SpawnRequest> = Vec::new();
        let mut i: usize = 0;
        while i < self.to_spawn.len()
            invariant
                i <= self.to_spawn.len(),
                self@ == old(self)@,
                self@.wf(),
                layout@ == old(layout)@ + i,
                old(layout)@ + self@.to_spawn.len() <= u32::MAX,
                requests.len() == i,
                forall|k: int|
                    0 <= k < i ==> is_request_for(
                        #[trigger] requests[k],
                        self@.to_spawn[k],
                        self@.textures[self@.to_spawn[k]],
                        old(layout)@ + k,
                    ),
            decreases self.to_spawn.len() - i,
        {
            let id = self.to_spawn[i];
            assert(self@.textures.contains_key(self@.to_spawn[i as int]));
            match cache_get(&self.textures, id) {
                Some(entry) => {
                    let index = layout.next();
                    requests.push(request_for(id, entry, index));
                },
                None => {},
            }
            i += 1;
        }
        self.to_spawn.clear();
        requests
    }
}

} // verus!
