use vstd::prelude::*;
use vstd::string::*;

use egui::TextureHandle;
use poll_promise::Promise;
use std::sync::mpsc::Receiver;

use crate::playback::{gif_tick, GifState};

verus! {

/// egui's handle to an uploaded texture, carried through opaquely.
#[verifier::external_type_specification]
#[verifier::external_body]
pub struct ExTextureHandle(egui::TextureHandle);

/// poll_promise's once-resolving asynchronous value, carried through opaquely.
#[verifier::external_type_specification]
#[verifier::external_body]
#[verifier::reject_recursive_types(T)]
pub struct ExPromise<T: Send + 'static>(poll_promise::Promise<T>);

/// The receiving end of a std channel, read only through `try_recv`.
#[verifier::external_type_specification]
#[verifier::external_body]
#[verifier::reject_recursive_types(T)]
pub struct ExReceiver<T>(std::sync::mpsc::Receiver<T>);

/// Which kind of media a cache holds.
#[derive(Clone, Copy, PartialEq, Eq, Structural, Debug)]
pub enum MediaCacheType {
    Image,
    Gif,
}

/// Why storing media failed.
#[derive(Debug)]
pub enum Error {
    /// The pixel count does not match the declared size, or a side is too large.
    ImageSize,
    /// The image encoder failed.
    Image(image::ImageError),
}

/// Loaded media, ready to draw.
pub enum TexturedImage {
    Static(TextureHandle),
    Animated(Animation),
}

/// An uploaded animation frame and its display time in milliseconds.
pub struct TextureFrame {
    pub delay_ms: u64,
    pub texture: TextureHandle,
}

/// An animation: the first frame, the frames that have arrived after it, and
/// while more may come, the channel they arrive on.
pub struct Animation {
    pub first_frame: TextureFrame,
    pub other_frames: Vec<TextureFrame>,
    pub receiver: Option<Receiver<TextureFrame>>,
}

impl Animation {
    /// The delays of the available frames, in order.
    pub open spec fn frame_delays(&self) -> Seq<u64> {
        seq![self.first_frame.delay_ms] + self.other_frames@.map_values(|f: TextureFrame| f.delay_ms)
    }

    /// Frame `index`: the first frame at 0, then the frames that followed it.
    pub fn get_frame(&self, index: usize) -> (r: Option<&TextureFrame>)
        ensures
            index == 0 ==> r == Some(&self.first_frame),
            0 < index <= self.other_frames@.len() ==> r == Some(&self.other_frames@[index - 1]),
            index > self.other_frames@.len() ==> r is None,
    {
        if index == 0 {
            Some(&self.first_frame)
        } else if index - 1 < self.other_frames.len() {
            Some(&self.other_frames[index - 1])
        } else {
            None
        }
    }

    /// How many frames are available.
    pub fn num_frames(&self) -> (r: usize)
        requires
            self.other_frames@.len() < usize::MAX,
        ensures
            r == self.other_frames@.len() + 1,
    {
        self.other_frames.len() + 1
    }

    /// Takes in one result of looking at the frame channel: a frame is
    /// appended, an empty channel changes nothing, a closed channel drops the
    /// receiver. Returns whether more frames may be waiting.
    pub fn accept(&mut self, p: FramePoll) -> (more: bool)
        ensures
            final(self).first_frame == old(self).first_frame,
            p matches FramePoll::Frame(f) ==> {
                &&& final(self).other_frames@ == old(self).other_frames@.push(f)
                &&& more
                &&& final(self).receiver == old(self).receiver
            },
            p is Empty ==> !more && *final(self) == *old(self),
            p is Closed ==> {
                &&& !more
                &&& final(self).receiver is None
                &&& final(self).other_frames == old(self).other_frames
            },
    {
        match p {
            FramePoll::Frame(f) => {
                self.other_frames.push(f);
                true
            },
            FramePoll::Empty => false,
            FramePoll::Closed => {
                self.receiver = None;
                false
            },
        }
    }

    /// Takes up to `max` frames that have arrived on the channel, without
    /// waiting, and appends them in arrival order. Once the channel is closed
    /// the receiver is dropped and the frame count is final. Returns how many
    /// frames were taken.
    pub fn poll_frames(&mut self, max: usize) -> (r: usize)
        ensures
            r <= max,
            final(self).other_frames@.len() == old(self).other_frames@.len() + r,
            final(self).other_frames@.subrange(0, old(self).other_frames@.len() as int)
                == old(self).other_frames@,
            final(self).first_frame == old(self).first_frame,
            old(self).receiver is None ==> r == 0 && final(self).receiver is None,
            final(self).receiver is None || final(self).receiver == old(self).receiver,
    {
        let mut taken: usize = 0;
        let ghost before = self.other_frames@;
        while taken < max
            invariant
                taken <= max,
                before == old(self).other_frames@,
                self.other_frames@.len() == before.len() + taken,
                self.other_frames@.subrange(0, before.len() as int) == before,
                self.first_frame == old(self).first_frame,
                old(self).receiver is None ==> taken == 0 && self.receiver is None,
                self.receiver is None || self.receiver == old(self).receiver,
            decreases max - taken,
        {
            let polled = match &self.receiver {
                Some(rx) => try_recv_frame(rx),
                None => FramePoll::Empty,
            };
            if !self.accept(polled) {
                return taken;
            }
            taken = taken + 1;
            assert(self.other_frames@.subrange(0, before.len() as int) =~= before);
        }
        taken
    }

    /// The delays of the available frames, in order, for the scheduler.
    pub fn delays(&self) -> (r: Vec<u64>)
        ensures
            r@ == self.frame_delays(),
    {
        let mut r: Vec<u64> = Vec::new();
        r.push(self.first_frame.delay_ms);
        let mut i: usize = 0;
        while i < self.other_frames.len()
            invariant
                i <= self.other_frames@.len(),
                r@ =~= self.frame_delays().subrange(0, i + 1),
            decreases self.other_frames@.len() - i,
        {
            r.push(self.other_frames[i].delay_ms);
            i = i + 1;
        }
        assert(self.frame_delays().subrange(0, i + 1) =~= self.frame_delays());
        r
    }
}

/// What a non-blocking look at a frame channel found.
pub enum FramePoll {
    Frame(TextureFrame),
    Empty,
    Closed,
}

/// Relies on `Receiver::try_recv`: it never blocks, and hands out a frame that
/// was sent, reports that none is waiting, or that the sender is gone. Which of
/// these happens depends on the sending side.
#[verifier::external_body]
fn try_recv_frame(rx: &Receiver<TextureFrame>) -> (r: FramePoll) {
    match rx.try_recv() {
        Ok(f) => FramePoll::Frame(f),
        Err(std::sync::mpsc::TryRecvError::Empty) => FramePoll::Empty,
        Err(std::sync::mpsc::TryRecvError::Disconnected) => FramePoll::Closed,
    }
}

/// An asynchronous load of one URL, resolving once.
pub type MediaCacheValue = Promise<Result<TexturedImage, Error>>;

/// One cache root, for one kind of media, with the loads started for it in
/// this session, at most one per URL.
pub struct MediaCache {
    pub cache_dir: String,
    pub url_imgs: Vec<(String, MediaCacheValue)>,
}

/// Whether no text occurs twice.
pub open spec fn distinct(s: Seq<Seq<char>>) -> bool {
    forall|i: int, j: int| 0 <= i < s.len() && 0 <= j < s.len() && i != j ==> s[i] != s[j]
}

impl MediaCache {
    /// The URLs with a load, in the order the loads were started.
    pub open spec fn urls(&self) -> Seq<Seq<char>> {
        self.url_imgs@.map_values(|e: (String, MediaCacheValue)| e.0@)
    }

    /// At most one load per URL.
    pub open spec fn wf(&self) -> bool {
        distinct(self.urls())
    }

    /// A cache rooted at `cache_dir`, with no loads.
    pub fn new(cache_dir: String) -> (r: Self)
        ensures
            r.wf(),
            r.cache_dir == cache_dir,
            r.urls() == Seq::<Seq<char>>::empty(),
    {
        let r = MediaCache { cache_dir, url_imgs: Vec::new() };
        assert(r.urls() =~= Seq::<Seq<char>>::empty());
        r
    }

    /// The directory, under the cache root, for each kind of media.
    pub fn rel_dir(cache_type: MediaCacheType) -> (r: &'static str)
        ensures
            cache_type == MediaCacheType::Image ==> r@ == "img"@,
            cache_type == MediaCacheType::Gif ==> r@ == "gif"@,
    {
        match cache_type {
            MediaCacheType::Image => "img",
            MediaCacheType::Gif => "gif",
        }
    }

    fn find(&self, url: &str) -> (r: Option<usize>)
        ensures
            r matches Some(i) ==> i < self.urls().len() && self.urls()[i as int] == url@,
            r is None ==> !self.urls().contains(url@),
    {
        let key = url.to_owned();
        let mut i: usize = 0;
        while i < self.url_imgs.len()
            invariant
                i <= self.urls().len(),
                key@ == url@,
                forall|j: int| 0 <= j < i ==> self.urls()[j] != url@,
            decreases self.url_imgs@.len() - i,
        {
            if self.url_imgs[i].0 == key {
                return Some(i);
            }
            i = i + 1;
        }
        None
    }

    /// Whether a load for `url` has been started.
    pub fn contains(&self, url: &str) -> (r: bool)
        ensures
            r == self.urls().contains(url@),
    {
        self.find(url).is_some()
    }

    /// The load started for `url`, if any.
    pub fn get(&self, url: &str) -> (r: Option<&MediaCacheValue>)
        requires
            self.wf(),
        ensures
            r is Some <==> self.urls().contains(url@),
            forall|i: int|
                0 <= i < self.url_imgs@.len() && self.url_imgs@[i].0@ == url@ ==> r == Some(
                    &self.url_imgs@[i].1,
                ),
    {
        match self.find(url) {
            Some(i) => {
                proof {
                    assert forall|j: int|
                        0 <= j < self.url_imgs@.len() && self.url_imgs@[j].0@ == url@ implies j
                        == i by {
                        assert(self.urls()[j] == self.url_imgs@[j].0@);
                    }
                }
                Some(&self.url_imgs[i].1)
            },
            None => {
                proof {
                    assert forall|j: int|
                        0 <= j < self.url_imgs@.len() implies self.url_imgs@[j].0@ != url@ by {
                        assert(self.urls()[j] == self.url_imgs@[j].0@);
                    }
                }
                None
            },
        }
    }

    /// Records the load for `url` unless one is already recorded, in which
    /// case the existing one is kept and `value` is dropped. Returns whether
    /// `value` was recorded.
    pub fn insert(&mut self, url: String, value: MediaCacheValue) -> (r: bool)
        requires
            old(self).wf(),
        ensures
            insert_post(*old(self), *final(self), url@, r),
            r ==> final(self).url_imgs@ == old(self).url_imgs@.push((url, value)),
            !r ==> final(self).url_imgs@ == old(self).url_imgs@,
    {
        match self.find(url.as_str()) {
            Some(_) => false,
            None => {
                let ghost before = self.urls();
                self.url_imgs.push((url, value));
                proof {
                    assert(self.urls() =~= before.push(url@));
                    assert forall|i: int, j: int|
                        0 <= i < self.urls().len() && 0 <= j < self.urls().len() && i != j
                            implies self.urls()[i] != self.urls()[j] by {
                        if i == before.len() as int {
                            assert(before[j] == self.urls()[j]);
                            assert(before.contains(before[j]));
                        } else if j == before.len() as int {
                            assert(before.contains(before[i]));
                        }
                    }
                }
                true
            },
        }
    }

    /// The loads started so far, with their URLs.
    pub fn map(&self) -> (r: &Vec<(String, MediaCacheValue)>)
        ensures
            r == &self.url_imgs,
    {
        &self.url_imgs
    }

    /// The load for `url`: the recorded one if there is one, else the one
    /// that `start` makes, which is then recorded. `start` is called only on a
    /// miss. Returns the position of the load and whether `start` was called.
    pub fn get_or_insert_with<F: FnOnce() -> MediaCacheValue>(&mut self, url: &str, start: F) -> (r: (
        usize,
        bool,
    ))
        requires
            old(self).wf(),
            start.requires(()),
        ensures
            lookup_post(*old(self), *final(self), url@, r),
            r.1 ==> start.ensures((), final(self).url_imgs@[r.0 as int].1),
    {
        match self.find(url) {
            Some(i) => {
                proof {
                    assert(self.urls()[i as int] == self.url_imgs@[i as int].0@);
                    assert(self.urls().contains(url@));
                }
                (i, false)
            },
            None => {
                let value = start();
                let key = url.to_owned();
                let ghost before = self.url_imgs@;
                self.insert(key, value);
                proof {
                    assert(self.url_imgs@.drop_last() =~= before);
                }
                (self.url_imgs.len() - 1, true)
            },
        }
    }

    /// How many loads have been started.
    pub fn len(&self) -> (r: usize)
        ensures
            r == self.urls().len(),
    {
        self.url_imgs.len()
    }
}

/// What `insert` does: `url` is recorded, with the new load, exactly when no
/// load was recorded for it; otherwise nothing changes.
pub open spec fn insert_post(pre: MediaCache, post: MediaCache, url: Seq<char>, r: bool) -> bool {
    &&& post.wf()
    &&& post.cache_dir == pre.cache_dir
    &&& r == !pre.urls().contains(url)
    &&& r ==> post.urls() == pre.urls().push(url)
    &&& !r ==> post.urls() == pre.urls()
}

/// What `get_or_insert_with` does: the result names the position of the load
/// for `url`, and whether a load was started; one is started, and appended,
/// exactly when none was recorded, and otherwise nothing changes.
pub open spec fn lookup_post(pre: MediaCache, post: MediaCache, url: Seq<char>, r: (usize, bool)) -> bool {
    &&& insert_post(pre, post, url, r.1)
    &&& r.0 < post.url_imgs@.len()
    &&& post.url_imgs@[r.0 as int].0@ == url
    &&& !r.1 ==> post.url_imgs@ == pre.url_imgs@
    &&& r.1 ==> post.url_imgs@.drop_last() == pre.url_imgs@ && r.0 == pre.url_imgs@.len()
}

/// At most one load per URL: of two lookups of the same URL, made one after
/// the other before either load resolved, the second starts nothing, changes
/// nothing and finds the very load that the first found or started; the URL
/// then has exactly one load.
pub proof fn lemma_at_most_one_load(
    c0: MediaCache,
    c1: MediaCache,
    c2: MediaCache,
    url: Seq<char>,
    r1: (usize, bool),
    r2: (usize, bool),
)
    requires
        c0.wf(),
        lookup_post(c0, c1, url, r1),
        lookup_post(c1, c2, url, r2),
    ensures
        !r2.1,
        r2.0 == r1.0,
        c2.url_imgs@ == c1.url_imgs@,
        forall|i: int|
            0 <= i < c2.url_imgs@.len() && c2.url_imgs@[i].0@ == url ==> i == r1.0,
{
    assert(c1.urls()[r1.0 as int] == url);
    assert(c1.urls().contains(url));
    assert forall|i: int| 0 <= i < c2.url_imgs@.len() && c2.url_imgs@[i].0@ == url implies i == r1.0 by {
        assert(c2.urls()[i] == c2.url_imgs@[i].0@);
        assert(c2.urls()[r1.0 as int] == c2.url_imgs@[r1.0 as int].0@);
    }
    assert(c2.urls()[r2.0 as int] == c2.url_imgs@[r2.0 as int].0@);
}

/// `name` placed under the directory `base`: `name` itself when `base` is
/// empty, else `base` and `name` with one `/` between them.
pub open spec fn join_path(base: Seq<char>, name: Seq<char>) -> Seq<char> {
    if base.len() == 0 {
        name
    } else if base.last() == '/' {
        base + name
    } else {
        base + seq!['/'] + name
    }
}

/// Places the relative name `name` under the directory `base`.
pub fn join_dir(base: &str, name: &str) -> (r: String)
    ensures
        r@ == join_path(base@, name@),
{
    let n = base.unicode_len();
    if n == 0 {
        name.to_owned()
    } else if base.get_char(n - 1) == '/' {
        base.to_owned().concat(name)
    } else {
        proof {
            reveal_strlit("/");
        }
        let r = base.to_owned().concat("/").concat(name);
        proof {
            assert(r@ =~= base@ + seq!['/'] + name@);
        }
        r
    }
}

/// The still-image cache, the animation cache and the playback state of each
/// animation, under one root directory.
pub struct Images {
    pub static_imgs: MediaCache,
    pub gifs: MediaCache,
    pub gif_states: Vec<(String, GifState)>,
}

impl Images {
    /// The URLs with a playback state.
    pub open spec fn state_urls(&self) -> Seq<Seq<char>> {
        self.gif_states@.map_values(|e: (String, GifState)| e.0@)
    }

    /// The playback state recorded for `url`, if any.
    pub open spec fn state_of(&self, url: Seq<char>) -> Option<GifState> {
        if exists|i: int| 0 <= i < self.gif_states@.len() && self.gif_states@[i].0@ == url {
            let i = choose|i: int| 0 <= i < self.gif_states@.len() && self.gif_states@[i].0@ == url;
            Some(self.gif_states@[i].1)
        } else {
            None
        }
    }

    pub open spec fn wf(&self) -> bool {
        &&& self.static_imgs.wf()
        &&& self.gifs.wf()
        &&& distinct(self.state_urls())
    }

    /// Caches under `path`: still images in its `img` subdirectory,
    /// animations in its `gif` subdirectory, and no playback state yet.
    pub fn new(path: &str) -> (r: Self)
        ensures
            r.wf(),
            r.static_imgs.cache_dir@ == join_path(path@, "img"@),
            r.gifs.cache_dir@ == join_path(path@, "gif"@),
            r.static_imgs.urls().len() == 0,
            r.gifs.urls().len() == 0,
            r.gif_states@.len() == 0,
            forall|u: Seq<char>| r.state_of(u) is None,
    {
        let img_dir = join_dir(path, MediaCache::rel_dir(MediaCacheType::Image));
        let gif_dir = join_dir(path, MediaCache::rel_dir(MediaCacheType::Gif));
        let r = Images {
            static_imgs: MediaCache::new(img_dir),
            gifs: MediaCache::new(gif_dir),
            gif_states: Vec::new(),
        };
        assert(r.state_urls() =~= Seq::<Seq<char>>::empty());
        r
    }

    /// Advances the playback of the animation at `url`, whose available
    /// frames have the given delays, to the time `now`, and records the new
    /// state. The first tick for a URL starts at frame 0.
    pub fn tick_gif(&mut self, url: &str, now: u64, delays: &Vec<u64>) -> (r: GifState)
        requires
            old(self).wf(),
            delays@.len() >= 1,
        ensures
            final(self).wf(),
            r == gif_tick(old(self).state_of(url@), now, delays@),
            final(self).state_of(url@) == Some(r),
            forall|u: Seq<char>| u != url@ ==> final(self).state_of(u) == old(self).state_of(u),
            final(self).static_imgs == old(self).static_imgs,
            final(self).gifs == old(self).gifs,
    {
        let key = url.to_owned();
        let mut i: usize = 0;
        while i < self.gif_states.len()
            invariant
                i <= self.gif_states@.len(),
                key@ == url@,
                *self == *old(self),
                self.wf(),
                delays@.len() >= 1,
                forall|j: int| 0 <= j < i ==> self.gif_states@[j].0@ != url@,
            decreases self.gif_states@.len() - i,
        {
            if self.gif_states[i].0 == key {
                proof {
                    self.lemma_state_at(i as int);
                }
                let next = GifState::tick(Some(self.gif_states[i].1), now, delays);
                let ghost before = *self;
                self.gif_states.set(i, (key, next));
                proof {
                    assert(self.state_urls() =~= before.state_urls());
                    self.lemma_state_at(i as int);
                    assert forall|u: Seq<char>| u != url@ implies self.state_of(u) == before.state_of(u) by {
                        if exists|k: int| 0 <= k < self.gif_states@.len() && self.gif_states@[k].0@ == u {
                            let k = choose|k: int| 0 <= k < self.gif_states@.len() && self.gif_states@[k].0@ == u;
                            self.lemma_state_at(k);
                            before.lemma_state_at(k);
                        } else {
                            assert forall|k: int| 0 <= k < before.gif_states@.len() implies before.gif_states@[k].0@ != u by {
                                assert(self.gif_states@[k].0@ == before.gif_states@[k].0@ || k == i);
                            }
                        }
                    }
                }
                return next;
            }
            i = i + 1;
        }
        proof {
            assert forall|k: int| 0 <= k < self.gif_states@.len() implies self.gif_states@[k].0@ != url@ by {}
        }
        let next = GifState::tick(None, now, delays);
        let ghost before = *self;
        self.gif_states.push((key, next));
        proof {
            assert(self.state_urls() =~= before.state_urls().push(url@));
            assert(!before.state_urls().contains(url@)) by {
                if before.state_urls().contains(url@) {
                    let k = choose|k: int| 0 <= k < before.state_urls().len() && before.state_urls()[k] == url@;
                    assert(before.gif_states@[k].0@ == url@);
                }
            }
            assert forall|a: int, b: int|
                0 <= a < self.state_urls().len() && 0 <= b < self.state_urls().len() && a != b
                    implies self.state_urls()[a] != self.state_urls()[b] by {
                if a == before.state_urls().len() as int {
                    assert(before.state_urls().contains(before.state_urls()[b]));
                } else if b == before.state_urls().len() as int {
                    assert(before.state_urls().contains(before.state_urls()[a]));
                }
            }
            let last = self.gif_states@.len() - 1;
            self.lemma_state_at(last);
            assert forall|u: Seq<char>| u != url@ implies self.state_of(u) == before.state_of(u) by {
                if exists|k: int| 0 <= k < self.gif_states@.len() && self.gif_states@[k].0@ == u {
                    let k = choose|k: int| 0 <= k < self.gif_states@.len() && self.gif_states@[k].0@ == u;
                    assert(self.gif_states@[last].0@ == url@);
                    assert(k != last);
                    assert(self.gif_states@[k] == before.gif_states@[k]);
                    self.lemma_state_at(k);
                    before.lemma_state_at(k);
                } else {
                    assert forall|k: int| 0 <= k < before.gif_states@.len() implies before.gif_states@[k].0@ != u by {
                        assert(self.gif_states@[k] == before.gif_states@[k]);
                    }
                }
            }
        }
        next
    }

    proof fn lemma_state_at(&self, n: int)
        requires
            distinct(self.state_urls()),
            0 <= n < self.gif_states@.len(),
        ensures
            self.state_of(self.gif_states@[n].0@) == Some(self.gif_states@[n].1),
    {
        let url = self.gif_states@[n].0@;
        assert(exists|i: int| 0 <= i < self.gif_states@.len() && self.gif_states@[i].0@ == url);
        assert forall|k: int| 0 <= k < self.gif_states@.len() && self.gif_states@[k].0@ == url implies k
            == n by {
            assert(self.state_urls()[k] == self.gif_states@[k].0@);
            assert(self.state_urls()[n] == self.gif_states@[n].0@);
        }
    }

    /// Plans the migration of both caches from their listings: the moves for
    /// the still-image root, then those for the animation root.
    pub fn migrate_v0(
        &self,
        img_entries: &Vec<crate::migrate::DirEntry>,
        gif_entries: &Vec<crate::migrate::DirEntry>,
    ) -> (r: (Vec<crate::migrate::Rename>, Vec<crate::migrate::Rename>))
        ensures
            r.0@.map_values(|x: crate::migrate::Rename| x@) == crate::migrate::migration_plan(
                img_entries@.map_values(|e: crate::migrate::DirEntry| e@),
            ),
            r.1@.map_values(|x: crate::migrate::Rename| x@) == crate::migrate::migration_plan(
                gif_entries@.map_values(|e: crate::migrate::DirEntry| e@),
            ),
    {
        (self.static_imgs.migrate_v0(img_entries), self.gifs.migrate_v0(gif_entries))
    }
}

} // verus!
