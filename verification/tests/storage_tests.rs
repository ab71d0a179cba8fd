use gallery_assets::atlas::AtlasLayout;
use gallery_assets::delay::{DelayRange, Millis};
use gallery_assets::images::{GifImage, ImageIndex, ImageMeta, StandardImage};
use gallery_assets::layout::LayoutManager;
use gallery_assets::loader::DecodedAsset;
use gallery_assets::picture::Picture;
use gallery_assets::scan::{CandidateKind, CandidatePath};
use gallery_assets::size::Size;
use gallery_assets::storage::{
    raw_data, texture_data, Gif, GifRawData, IngestEvent, Storage, TextureData, TextureHandle,
    TextureType, UniformHandle, Uploaded, Visual,
};
use gallery_assets::worker::Phase;

fn still(path: &str, handle: u64) -> TextureData {
    TextureData {
        texture: TextureType::Texture(TextureHandle(handle)),
        path: path.to_string(),
        resolution: Size::new(100, 100),
    }
}

fn animated(path: &str, handle: u64, delays: &[u64]) -> TextureData {
    TextureData {
        texture: TextureType::Gif {
            gif: Gif {
                texture: TextureHandle(handle),
                buffer: UniformHandle(handle + 1),
                total_frames: delays.len() as u32,
                frames_per_row: 4,
            },
            frames: delays.iter().map(|ms| Millis(*ms)).collect(),
        },
        path: path.to_string(),
        resolution: Size::new(50, 40),
    }
}

fn some_candidates() -> Vec<CandidatePath> {
    vec![
        CandidatePath { path: "d/a.png".to_string(), kind: CandidateKind::StaticImage },
        CandidatePath { path: "d/b.gif".to_string(), kind: CandidateKind::AnimatedImage },
    ]
}

fn handle_of(entry: &TextureData) -> u64 {
    match &entry.texture {
        TextureType::Texture(texture) => texture.0,
        TextureType::Gif { gif, .. } => gif.texture.0,
    }
}

#[test]
fn a_new_storage_is_empty() {
    let storage = Storage::new();
    assert!(!storage.is_loading());
    assert!(!storage.has_pending());
    assert!(storage.get_texture(0).is_none());
    assert!(storage.get_texture(u64::MAX).is_none());
    assert!(storage.is_consistent());
}

#[test]
fn loading_starts_and_stops() {
    let mut storage = Storage::new();
    let worker = storage.begin_scan(some_candidates()).unwrap();
    assert!(storage.is_loading());
    assert_eq!(worker.phase(), Phase::Idle);
    assert_eq!(worker.candidate(0).unwrap().path, "d/a.png");
    assert_eq!(worker.candidate(1).unwrap().path, "d/b.gif");
    assert!(worker.candidate(2).is_none());
    storage.stop_loading();
    assert!(!storage.is_loading());
}

#[test]
fn a_scan_of_nothing_is_over_at_once() {
    let mut storage = Storage::new();
    assert!(storage.begin_scan(Vec::new()).is_none());
    assert!(!storage.is_loading());
    assert!(!storage.has_pending());
}

#[test]
fn the_first_entry_under_an_identifier_stays() {
    let mut storage = Storage::new();
    assert!(storage.insert_if_absent(7, still("d/a.png", 1)));
    assert!(!storage.insert_if_absent(7, still("d/other.png", 2)));
    let entry = storage.get_texture(7).unwrap();
    assert_eq!(entry.path, "d/a.png");
    assert_eq!(handle_of(entry), 1);
    assert!(storage.insert_if_absent(8, still("d/other.png", 2)));
    assert_eq!(storage.get_texture(8).unwrap().path, "d/other.png");
    assert_eq!(storage.get_texture(7).unwrap().path, "d/a.png");
    assert!(!storage.has_pending());
}

#[test]
fn lookup_has_no_effect() {
    let mut storage = Storage::new();
    storage.ingest(5, still("d/a.png", 1));
    for _ in 0..3 {
        assert_eq!(storage.get_texture(5).unwrap().path, "d/a.png");
        assert!(storage.get_texture(6).is_none());
    }
    assert!(storage.has_pending());
}

#[test]
fn ingesting_caches_and_queues() {
    let mut storage = Storage::new();
    let mut layout = LayoutManager::new();
    storage.ingest(11, still("d/a.png", 1));
    storage.ingest(12, animated("d/b.gif", 2, &[10, 10, 20]));
    assert!(storage.has_pending());
    assert!(storage.is_consistent());
    let requests = storage.spawn_requests(&mut layout);
    assert_eq!(requests.len(), 2);
    assert!(!storage.has_pending());
    assert_eq!(layout.image_count(), 2);
    assert!(storage.get_texture(11).is_some());
    assert!(storage.get_texture(12).is_some());
}

#[test]
fn a_duplicate_is_queued_but_not_cached_again() {
    let mut storage = Storage::new();
    let mut layout = LayoutManager::new();
    storage.ingest(11, still("d/a.png", 1));
    storage.ingest(11, still("d/a.png", 99));
    assert_eq!(handle_of(storage.get_texture(11).unwrap()), 1);
    let requests = storage.spawn_requests(&mut layout);
    assert_eq!(requests.len(), 2);
    for request in &requests {
        match &request.visual {
            Visual::Standard(image) => {
                assert_eq!(*image, StandardImage { id: 11, texture: TextureHandle(1) })
            }
            other => panic!("not a still image: {:?}", other),
        }
    }
}

#[test]
fn spawn_requests_describe_the_entries() {
    let mut storage = Storage::new();
    let mut layout = LayoutManager::new();
    assert_eq!(layout.next(), 0);
    assert_eq!(layout.next(), 1);
    storage.ingest(21, still("some/dir/a.png", 5));
    storage.ingest(22, animated("some/dir/b.gif", 6, &[10, 10, 20]));
    let requests = storage.spawn_requests(&mut layout);
    assert_eq!(layout.image_count(), 4);

    assert_eq!(requests[0].index, ImageIndex { index: 2 });
    assert_eq!(requests[0].label, "a.png");
    assert_eq!(requests[0].meta, ImageMeta { texture_resolution: Size::new(100, 100) });
    match &requests[0].visual {
        Visual::Standard(image) => {
            assert_eq!(*image, StandardImage { id: 21, texture: TextureHandle(5) })
        }
        other => panic!("not a still image: {:?}", other),
    }

    assert_eq!(requests[1].index, ImageIndex { index: 3 });
    assert_eq!(requests[1].label, "b.gif");
    assert_eq!(requests[1].meta, ImageMeta { texture_resolution: Size::new(50, 40) });
    match &requests[1].visual {
        Visual::Gif(image, timer) => {
            let gif = Gif {
                texture: TextureHandle(6),
                buffer: UniformHandle(7),
                total_frames: 3,
                frames_per_row: 4,
            };
            assert_eq!(
                *image,
                GifImage { id: 22, frame: 0, total_frames: 3, frames_per_row: 4, gif }
            );
            assert_eq!(timer.acc, Millis(0));
            assert_eq!(timer.delay.range_count(), 2);
            assert_eq!(
                timer.delay.range(0),
                Some(DelayRange { start: 0, end: 2, delay: Millis(10) })
            );
            assert_eq!(timer.delay.get_delay(&2), Millis(20));
        }
        other => panic!("not an animation: {:?}", other),
    }
}

#[test]
fn nothing_waits_after_the_spawn() {
    let mut storage = Storage::new();
    let mut layout = LayoutManager::new();
    storage.ingest(1, still("a.png", 1));
    assert_eq!(storage.spawn_requests(&mut layout).len(), 1);
    assert_eq!(storage.spawn_requests(&mut layout).len(), 0);
    assert_eq!(layout.image_count(), 1);
    assert!(storage.get_texture(1).is_some());
}

#[test]
fn processing_an_asset_hashes_its_path() {
    let mut storage = Storage::new();
    storage.begin_scan(some_candidates());
    let id = storage.process(IngestEvent::Loaded(still("d/a.png", 3))).unwrap();
    assert_eq!(storage.get_texture(id).unwrap().path, "d/a.png");
    assert!(storage.has_pending());
    assert!(storage.is_loading());
}

#[test]
fn the_end_of_the_scan_ends_the_loading() {
    let mut storage = Storage::new();
    storage.begin_scan(some_candidates());
    assert_eq!(storage.process(IngestEvent::ScanComplete), None);
    assert!(!storage.is_loading());
    assert!(!storage.has_pending());
}

#[test]
fn a_lost_worker_ends_the_loading() {
    let mut storage = Storage::new();
    storage.begin_scan(some_candidates());
    assert_eq!(storage.process(IngestEvent::Disconnected), None);
    assert!(!storage.is_loading());
}

#[test]
fn the_same_path_has_the_same_identifier() {
    let mut storage = Storage::new();
    let first = storage.process(IngestEvent::Loaded(still("d/a.png", 1))).unwrap();
    let second = storage.process(IngestEvent::Loaded(still("d/a.png", 2))).unwrap();
    assert_eq!(first, second);
    assert_eq!(handle_of(storage.get_texture(first).unwrap()), 1);
    let mut other = Storage::new();
    assert_eq!(other.process(IngestEvent::Loaded(still("d/a.png", 3))), Some(first));
}

#[test]
fn distinct_paths_have_distinct_identifiers() {
    let mut corpus: Vec<String> = Vec::new();
    for dir in ["", "a/", "b/", "a/b/", "/home/user/pictures/", "pictures/2024/"] {
        for name in ["a", "b", "ab", "ba", "image", "image0", "image1", "IMAGE", "猫", "0"] {
            for ext in ["png", "jpg", "gif"] {
                corpus.push(format!("{}{}.{}", dir, name, ext));
            }
        }
    }
    let mut storage = Storage::new();
    let mut ids = Vec::new();
    for path in &corpus {
        ids.push(storage.process(IngestEvent::Loaded(still(path, 0))).unwrap());
    }
    for (i, path) in corpus.iter().enumerate() {
        assert_eq!(&storage.get_texture(ids[i]).unwrap().path, path);
        for j in 0..i {
            assert_ne!(ids[i], ids[j], "{} and {}", corpus[i], corpus[j]);
        }
    }
}

#[test]
fn draining_takes_the_events_in_order() {
    let mut storage = Storage::new();
    let mut layout = LayoutManager::new();
    storage.begin_scan(some_candidates());
    storage.drain(vec![
        IngestEvent::Loaded(still("d/b.png", 1)),
        IngestEvent::Loaded(animated("d/a.gif", 2, &[5, 5])),
        IngestEvent::Loaded(still("d/c.png", 3)),
    ]);
    assert!(storage.is_loading());
    assert!(storage.is_consistent());
    let labels: Vec<String> =
        storage.spawn_requests(&mut layout).into_iter().map(|r| r.label).collect();
    assert_eq!(labels, vec!["b.png", "a.gif", "c.png"]);
    storage.drain(vec![IngestEvent::ScanComplete]);
    assert!(!storage.is_loading());
    storage.drain(Vec::new());
    assert!(!storage.is_loading());
    assert!(!storage.has_pending());
}

#[test]
fn the_cache_entry_of_a_still_image() {
    let asset = DecodedAsset::Static {
        path: "d/a.png".to_string(),
        pixels: Picture::from_rgba(3, 2, vec![0; 24]).unwrap(),
    };
    let entry = texture_data(asset, Uploaded::Texture(TextureHandle(9))).unwrap();
    assert_eq!(entry.path, "d/a.png");
    assert_eq!(entry.resolution, Size::new(3, 2));
    assert!(matches!(entry.texture, TextureType::Texture(TextureHandle(9))));
}

#[test]
fn the_cache_entry_of_an_animation() {
    let layout = AtlasLayout::new(3, 2, 2, Size::new(4, 5)).unwrap();
    let asset = DecodedAsset::Animated {
        path: "d/a.gif".to_string(),
        atlas_pixels: Picture::from_rgba(8, 10, vec![0; 320]).unwrap(),
        layout,
        per_frame_delay: vec![Millis(10), Millis(20), Millis(30)],
    };
    let entry =
        texture_data(asset, Uploaded::Atlas(TextureHandle(4), UniformHandle(5))).unwrap();
    assert_eq!(entry.path, "d/a.gif");
    assert_eq!(entry.resolution, Size::new(4, 5));
    match entry.texture {
        TextureType::Gif { gif, frames } => {
            assert_eq!(
                gif,
                Gif {
                    texture: TextureHandle(4),
                    buffer: UniformHandle(5),
                    total_frames: 3,
                    frames_per_row: 2
                }
            );
            assert_eq!(frames, vec![Millis(10), Millis(20), Millis(30)]);
        }
        other => panic!("not an animation: {:?}", other),
    }
}

#[test]
fn an_answer_of_the_wrong_kind_gives_no_entry() {
    let asset = DecodedAsset::Static {
        path: "d/a.png".to_string(),
        pixels: Picture::from_rgba(1, 1, vec![0; 4]).unwrap(),
    };
    assert!(texture_data(asset, Uploaded::Atlas(TextureHandle(4), UniformHandle(5))).is_none());
    let asset = DecodedAsset::Animated {
        path: "d/a.gif".to_string(),
        atlas_pixels: Picture::from_rgba(1, 1, vec![0; 4]).unwrap(),
        layout: AtlasLayout::single(Size::new(1, 1)).unwrap(),
        per_frame_delay: vec![Millis(10)],
    };
    assert!(texture_data(asset, Uploaded::Texture(TextureHandle(4))).is_none());
    assert!(texture_data(DecodedAsset::ScanComplete, Uploaded::Texture(TextureHandle(4))).is_none());
}

#[test]
fn the_numbers_for_the_shader() {
    let layout = AtlasLayout::new(10, 4, 3, Size::new(50, 40)).unwrap();
    assert_eq!(
        raw_data(&layout),
        GifRawData {
            total_frames: 10,
            frames_per_row: 4,
            frame_size: Size::new(50, 40),
            texture_size: Size::new(200, 120),
        }
    );
}

#[test]
fn places_are_handed_out_in_order() {
    let mut layout = LayoutManager::new();
    assert_eq!(layout.image_count(), 0);
    assert_eq!(layout.try_next(), Some(0));
    assert_eq!(layout.next(), 1);
    assert_eq!(layout.try_next(), Some(2));
    assert_eq!(layout.image_count(), 3);
}

#[test]
fn pending_images_are_spawned_where_the_grid_has_room() {
    let mut storage = Storage::new();
    let mut layout = LayoutManager::new();
    storage.ingest(1, still("d/a.png", 1));
    storage.ingest(2, still("d/b.png", 2));
    assert_eq!(storage.pending_count(), 2);
    let requests = storage.spawn_pending(&mut layout).unwrap();
    assert_eq!(requests.len(), 2);
    assert_eq!(requests[1].index, ImageIndex { index: 1 });
    assert_eq!(storage.pending_count(), 0);
    assert_eq!(layout.image_count(), 2);
    assert_eq!(storage.spawn_pending(&mut layout).unwrap().len(), 0);
}
