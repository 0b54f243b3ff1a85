//! A content-addressed media cache: derived cache keys, the legacy layout
//! migration, still and animated image encoding, the per-URL load registry and
//! the animation playback scheduler.

mod cache;
mod key;
mod migrate;
mod playback;
mod store;

pub use cache::{
    distinct, insert_post, join_dir, join_path, lemma_at_most_one_load, lookup_post, Animation, Error, FramePoll, Images, MediaCache,
    MediaCacheType, MediaCacheValue, TextureFrame, TexturedImage,
};
pub use store::{
    color_image_to_rgba, gif_frames, rgba_bytes, still_encodable, webp_dimensions, CacheFile, ColorImage, GifFile, GifFrame, ImageFrame,
};
pub use key::{hex_lower, key_of_digest, key_of_url, lemma_key_deterministic, lemma_key_distinct,
    lemma_key_distinct_urls,
};
pub use migrate::{
    left_after, legacy_url, lemma_migrate_twice, lemma_migration_decode, lemma_migration_idempotent, lemma_migration_moves_only_files,
    moves_listed_file, migration_plan,
    migration_target, DirEntry, Rename,
};
pub use playback::{
    deadline, gif_tick, lemma_single_frame_holds, lemma_tick_advances, sat_add, showing, GifState,
};
