use imgcache::{
    Animation, Error, FramePoll, Images, MediaCache, MediaCacheType, MediaCacheValue, TextureFrame,
};
use poll_promise::Promise;

fn ready() -> MediaCacheValue {
    Promise::from_ready(Err(Error::ImageSize))
}

fn texture(ctx: &egui::Context, name: &str) -> egui::TextureHandle {
    ctx.load_texture(
        name,
        egui::ColorImage::new([1, 1], egui::Color32::RED),
        egui::TextureOptions::default(),
    )
}

#[test]
fn rel_dirs() {
    assert_eq!(MediaCache::rel_dir(MediaCacheType::Image), "img");
    assert_eq!(MediaCache::rel_dir(MediaCacheType::Gif), "gif");
}

#[test]
fn second_request_shares_the_first_load() {
    let mut cache = MediaCache::new("c/img".to_string());
    assert!(!cache.contains("https://example.com/a.png"));
    assert!(cache.insert("https://example.com/a.png".to_string(), ready()));
    assert!(!cache.insert("https://example.com/a.png".to_string(), ready()));
    assert_eq!(cache.len(), 1);
    assert!(cache.contains("https://example.com/a.png"));
    assert!(cache.get("https://example.com/a.png").is_some());
    assert!(cache.get("https://example.com/b.png").is_none());
    assert!(cache.insert("https://example.com/b.png".to_string(), ready()));
    assert_eq!(cache.len(), 2);
}

#[test]
fn images_layout() {
    let images = Images::new("/tmp/cache");
    assert_eq!(images.static_imgs.cache_dir, "/tmp/cache/img");
    assert_eq!(images.gifs.cache_dir, "/tmp/cache/gif");
    assert_eq!(images.static_imgs.len(), 0);
    assert_eq!(images.gifs.len(), 0);
}

#[test]
fn playback_state_is_kept_per_url() {
    let mut images = Images::new("c");
    let delays = vec![100, 200, 50];
    assert_eq!(images.tick_gif("a", 0, &delays).last_frame_index, 0);
    assert_eq!(images.tick_gif("b", 50, &delays).last_frame_index, 0);
    assert_eq!(images.tick_gif("a", 100, &delays).last_frame_index, 1);
    assert_eq!(images.tick_gif("b", 100, &delays).last_frame_index, 0);
    assert_eq!(images.tick_gif("b", 150, &delays).last_frame_index, 1);
    assert_eq!(images.tick_gif("a", 300, &delays).last_frame_index, 2);
    assert_eq!(images.gif_states.len(), 2);
}

#[test]
fn animation_frames_and_streaming() {
    let ctx = egui::Context::default();
    let (tx, rx) = std::sync::mpsc::channel();
    let mut anim = Animation {
        first_frame: TextureFrame { delay_ms: 10, texture: texture(&ctx, "f0") },
        other_frames: Vec::new(),
        receiver: Some(rx),
    };
    assert_eq!(anim.num_frames(), 1);
    assert!(anim.get_frame(0).is_some());
    assert!(anim.get_frame(1).is_none());
    assert_eq!(anim.poll_frames(8), 0);
    assert!(anim.receiver.is_some());

    tx.send(TextureFrame { delay_ms: 20, texture: texture(&ctx, "f1") }).unwrap();
    tx.send(TextureFrame { delay_ms: 30, texture: texture(&ctx, "f2") }).unwrap();
    tx.send(TextureFrame { delay_ms: 40, texture: texture(&ctx, "f3") }).unwrap();
    assert_eq!(anim.poll_frames(2), 2);
    assert_eq!(anim.delays(), vec![10, 20, 30]);
    drop(tx);
    assert_eq!(anim.poll_frames(8), 1);
    assert!(anim.receiver.is_none());
    assert_eq!(anim.num_frames(), 4);
    assert_eq!(anim.get_frame(3).unwrap().delay_ms, 40);
    assert!(anim.get_frame(4).is_none());
    assert_eq!(anim.delays(), vec![10, 20, 30, 40]);
}

#[test]
fn lookup_starts_the_load_once() {
    let mut cache = MediaCache::new("c/img".to_string());
    let mut started = 0;
    let (i1, s1) = cache.get_or_insert_with("https://example.com/a.png", || {
        started += 1;
        Promise::from_ready(Err(Error::ImageSize))
    });
    let (i2, s2) = cache.get_or_insert_with("https://example.com/a.png", || {
        started += 1;
        Promise::from_ready(Err(Error::ImageSize))
    });
    assert!(s1);
    assert!(!s2);
    assert_eq!(i1, i2);
    assert_eq!(started, 1);
    assert_eq!(cache.len(), 1);
    let (i3, s3) = cache.get_or_insert_with("https://example.com/b.png", ready);
    assert!(s3);
    assert_eq!(i3, 1);
    assert_eq!(cache.map()[i1].0, "https://example.com/a.png");
}

#[test]
fn get_returns_the_recorded_load() {
    let mut cache = MediaCache::new("c/img".to_string());
    assert!(cache.insert("a".to_string(), Promise::from_ready(Err(Error::ImageSize))));
    let ctx = egui::Context::default();
    let anim = Animation {
        first_frame: TextureFrame { delay_ms: 7, texture: texture(&ctx, "g") },
        other_frames: Vec::new(),
        receiver: None,
    };
    assert!(cache.insert("b".to_string(), Promise::from_ready(Ok(imgcache::TexturedImage::Animated(anim)))));
    match cache.get("b").unwrap().ready() {
        Some(Ok(imgcache::TexturedImage::Animated(a))) => assert_eq!(a.first_frame.delay_ms, 7),
        _ => panic!("wrong load"),
    }
    assert!(matches!(cache.get("a").unwrap().ready(), Some(Err(Error::ImageSize))));
}

#[test]
fn accept_handles_each_poll_result() {
    let ctx = egui::Context::default();
    let (_tx, rx) = std::sync::mpsc::channel();
    let mut anim = Animation {
        first_frame: TextureFrame { delay_ms: 10, texture: texture(&ctx, "a0") },
        other_frames: Vec::new(),
        receiver: Some(rx),
    };
    assert!(anim.accept(FramePoll::Frame(TextureFrame { delay_ms: 20, texture: texture(&ctx, "a1") })));
    assert_eq!(anim.num_frames(), 2);
    assert!(!anim.accept(FramePoll::Empty));
    assert_eq!(anim.num_frames(), 2);
    assert!(anim.receiver.is_some());
    assert!(!anim.accept(FramePoll::Closed));
    assert!(anim.receiver.is_none());
    assert_eq!(anim.delays(), vec![10, 20]);
}

#[test]
fn images_under_empty_base_are_relative() {
    let images = Images::new("");
    assert_eq!(images.static_imgs.cache_dir, "img");
    assert_eq!(images.gifs.cache_dir, "gif");
    assert!(images.gif_states.is_empty());
}

#[test]
fn images_under_base_with_trailing_slash() {
    let images = Images::new("/tmp/cache/");
    assert_eq!(images.static_imgs.cache_dir, "/tmp/cache/img");
    assert_eq!(images.gifs.cache_dir, "/tmp/cache/gif");
}

#[test]
fn join_dir_matches_path_join() {
    for base in ["", "a", "a/", "/", "dir/sub", "ü/"] {
        let expected = std::path::Path::new(base).join("img");
        assert_eq!(imgcache::join_dir(base, "img"), expected.to_str().unwrap());
    }
}
